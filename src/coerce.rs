use vstd::prelude::*;

verus! {

/// Whether `c` is an ASCII decimal digit.
pub open spec fn is_digit(c: char) -> bool {
    '0' <= c && c <= '9'
}

/// The value of a decimal digit.
pub open spec fn digit_value(c: char) -> int {
    (c as u32) as int - 48
}

/// `s` is the decimal text of `n`: its digits, with no sign and no leading zero.
pub open spec fn is_decimal(s: Seq<char>, n: nat) -> bool
    decreases n,
{
    if n < 10 {
        s.len() == 1 && is_digit(s[0]) && digit_value(s[0]) == n
    } else {
        &&& s.len() >= 2
        &&& is_digit(s.last())
        &&& digit_value(s.last()) == n % 10
        &&& is_decimal(s.drop_last(), n / 10)
    }
}

/// `s` is the text form of the integer `i`: `-` before the digits of a
/// negative number.
pub open spec fn is_int_text(s: Seq<char>, i: int) -> bool {
    if i < 0 {
        s.len() > 0 && s[0] == '-' && is_decimal(s.drop_first(), (-i) as nat)
    } else {
        is_decimal(s, i as nat)
    }
}

/// `t` is one or more decimal digits.
pub open spec fn all_digits(t: Seq<char>) -> bool {
    t.len() > 0 && forall|i: int| 0 <= i < t.len() ==> is_digit(#[trigger] t[i])
}

/// The number that the digits of `t` spell.
pub open spec fn digits_value(t: Seq<char>) -> int
    decreases t.len(),
{
    if t.len() == 0 {
        0
    } else {
        digits_value(t.drop_last()) * 10 + digit_value(t.last())
    }
}

/// The integer that `t` reads as: an optional `-` or `+`, then digits.
pub open spec fn parse_int(t: Seq<char>) -> Option<int> {
    if t.len() > 0 && (t[0] == '-' || t[0] == '+') {
        if all_digits(t.drop_first()) {
            Some(if t[0] == '-' { -digits_value(t.drop_first()) } else { digits_value(t.drop_first()) })
        } else {
            None
        }
    } else if all_digits(t) {
        Some(digits_value(t))
    } else {
        None
    }
}

/// Digits never lose value as more follow.
proof fn lemma_digits_grow(t: Seq<char>, k: int)
    requires
        0 <= k <= t.len(),
        forall|i: int| 0 <= i < t.len() ==> is_digit(#[trigger] t[i]),
    ensures
        digits_value(t) >= digits_value(t.subrange(0, k)),
        digits_value(t) >= 0,
    decreases t.len(),
{
    if t.len() > 0 {
        let d = t.drop_last();
        assert(is_digit(t[t.len() - 1]));
        assert forall|i: int| 0 <= i < d.len() implies is_digit(#[trigger] d[i]) by {
            assert(d[i] == t[i]);
        }
        if k < t.len() {
            lemma_digits_grow(d, k);
            assert(d.subrange(0, k) =~= t.subrange(0, k));
        } else {
            lemma_digits_grow(d, 0);
            assert(t.subrange(0, k) =~= t);
        }
    } else {
        assert(t.subrange(0, k) =~= t);
    }
}

/// Whether the characters of `s` from `start` to `end` are the decimal text of `n`.
fn decimal_matches(s: &str, start: usize, end: usize, n: u64) -> (r: bool)
    requires
        start <= end <= s@.len(),
    ensures
        r == is_decimal(s@.subrange(start as int, end as int), n as nat),
    decreases n,
{
    let ghost t = s@.subrange(start as int, end as int);
    if n < 10 {
        if end - start != 1 {
            return false;
        }
        let c = s.get_char(start);
        '0' <= c && c <= '9' && (c as u32) - 48 == n as u32
    } else {
        if end - start < 2 {
            return false;
        }
        let c = s.get_char(end - 1);
        proof {
            assert(t.last() == c);
            assert(t.drop_last() =~= s@.subrange(start as int, end - 1));
        }
        if !('0' <= c && c <= '9') || (c as u32) - 48 != (n % 10) as u32 {
            return false;
        }
        decimal_matches(s, start, end - 1, n / 10)
    }
}

/// Whether `s` is the text form of `i`.
pub fn int_text_matches(s: &str, i: i64) -> (r: bool)
    ensures
        r == is_int_text(s@, i as int),
{
    let n = s.unicode_len();
    proof {
        assert(s@.subrange(0, n as int) =~= s@);
    }
    if i < 0 {
        if n == 0 || s.get_char(0) != '-' {
            return false;
        }
        proof {
            assert(s@.subrange(1, n as int) =~= s@.drop_first());
        }
        let m: u64 = (0i128 - i as i128) as u64;
        decimal_matches(s, 1, n, m)
    } else {
        decimal_matches(s, 0, n, i as u64)
    }
}

/// Whether `t` reads as the integer `b`.
pub fn parses_to(t: &str, b: i64) -> (r: bool)
    ensures
        r == (parse_int(t@) == Some(b as int)),
{
    let n = t.unicode_len();
    if n == 0 {
        return false;
    }
    let first = t.get_char(0);
    let signed = first == '-' || first == '+';
    let start: usize = if signed { 1 } else { 0 };
    let ghost rest = t@.subrange(start as int, n as int);
    proof {
        assert(t@[0] == first);
        if signed {
            assert(rest =~= t@.drop_first());
        } else {
            assert(rest =~= t@);
        }
        assert(parse_int(t@) == if all_digits(rest) {
            Some(if first == '-' { -digits_value(rest) } else { digits_value(rest) })
        } else {
            None::<int>
        });
    }
    if start == n {
        return false;
    }
    let mut acc: u64 = 0;
    let mut i: usize = start;
    while i < n
        invariant
            start <= i <= n,
            n == t@.len(),
            start < n,
            rest == t@.subrange(start as int, n as int),
            forall|j: int| 0 <= j < i - start ==> is_digit(#[trigger] rest[j]),
            acc as int == digits_value(rest.subrange(0, i - start)),
            acc <= 9223372036854775808,
            parse_int(t@) == if all_digits(rest) {
                Some(if first == '-' { -digits_value(rest) } else { digits_value(rest) })
            } else {
                None::<int>
            },
        decreases n - i,
    {
        let c = t.get_char(i);
        proof {
            assert(rest[i - start] == c);
        }
        if !('0' <= c && c <= '9') {
            proof {
                assert(!all_digits(rest));
            }
            return false;
        }
        proof {
            assert(rest.subrange(0, i + 1 - start).drop_last() =~= rest.subrange(0, i - start));
        }
        let next: u128 = acc as u128 * 10 + ((c as u32) - 48) as u128;
        if next > 9223372036854775808 {
            proof {
                let k = i + 1 - start;
                let p = rest.subrange(0, k);
                assert(p.last() == c);
                assert(digits_value(p) == next);
                if all_digits(rest) {
                    lemma_digits_grow(rest, k);
                    assert(digits_value(rest) > 9223372036854775808);
                }
            }
            return false;
        }
        acc = next as u64;
        i = i + 1;
    }
    proof {
        assert(rest.subrange(0, n - start) =~= rest);
    }
    let value: i128 = if first == '-' { 0 - acc as i128 } else { acc as i128 };
    value == b as i128
}

} // verus!
