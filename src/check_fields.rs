use vstd::prelude::*;
use crate::coerce::{int_text_matches, is_int_text, parse_int, parses_to};
use crate::condition::Condition;
use crate::error::{quoted, ConditionError, PredicateError};
use crate::event::{field_at, text_eq, ArgView, CheckFieldsPredicateArg, Event, EventView};
use crate::maps::{arg_at, arg_entries, arg_len, ArgMap};

verus! {

/// A test of one event field.
pub trait CheckFieldsPredicate {
    spec fn matches(&self, e: EventView) -> bool;

    fn check(&self, e: &Event) -> (r: bool)
        ensures
            r == self.matches(e@),
    ;
}

/// `b` is the text form of the event value `v`: text as it is, an integer
/// in decimal, a boolean as `true` or `false`. A float held as its bit
/// pattern has no text form here.
pub open spec fn text_form_is(v: ArgView, b: Seq<char>) -> bool {
    match v {
        ArgView::String(a) => a == b,
        ArgView::Integer(i) => is_int_text(b, i as int),
        ArgView::Boolean(x) => b == (if x { "true"@ } else { "false"@ }),
        ArgView::Float(_) => false,
    }
}

/// Whether an event value equals a predicate's operand. A text operand is
/// compared with the value's text form; an integer or boolean operand with
/// the value itself, or with what a text value reads as, where it reads as
/// one; a float operand with a float value, bit for bit. A missing field
/// never equals anything.
pub open spec fn value_equals(v: Option<ArgView>, arg: ArgView) -> bool {
    match v {
        None => false,
        Some(v) => match (v, arg) {
            (_, ArgView::String(b)) => text_form_is(v, b),
            (ArgView::Integer(a), ArgView::Integer(b)) => a == b,
            (ArgView::String(t), ArgView::Integer(b)) => parse_int(t) == Some(b as int),
            (ArgView::Float(a), ArgView::Float(b)) => a == b,
            (ArgView::Boolean(a), ArgView::Boolean(b)) => a == b,
            (ArgView::String(a), ArgView::Boolean(b)) => a == (if b { "true"@ } else { "false"@ }),
            _ => false,
        },
    }
}

/// Whether text `b` is the text form of the event value `v`.
fn text_form_matches(v: &CheckFieldsPredicateArg, b: &str) -> (r: bool)
    ensures
        r == text_form_is(v@, b@),
{
    match v {
        CheckFieldsPredicateArg::String(a) => text_eq(a.as_str(), b),
        CheckFieldsPredicateArg::Integer(i) => int_text_matches(b, *i),
        CheckFieldsPredicateArg::Boolean(x) => {
            proof {
                reveal_strlit("true");
                reveal_strlit("false");
            }
            if *x {
                text_eq(b, "true")
            } else {
                text_eq(b, "false")
            }
        },
        CheckFieldsPredicateArg::Float(_) => false,
    }
}

/// The `equals` predicate: the field at `target` equals `arg`.
pub struct EqualsPredicate {
    pub target: String,
    pub arg: CheckFieldsPredicateArg,
}

impl CheckFieldsPredicate for EqualsPredicate {
    open spec fn matches(&self, e: EventView) -> bool {
        value_equals(field_at(e, self.target@), self.arg@)
    }

    fn check(&self, e: &Event) -> (r: bool) {
        match e.get(self.target.as_str()) {
            None => false,
            Some(v) => match (v, &self.arg) {
                (_, CheckFieldsPredicateArg::String(b)) => text_form_matches(v, b.as_str()),
                (CheckFieldsPredicateArg::Integer(a), CheckFieldsPredicateArg::Integer(b)) => *a == *b,
                (CheckFieldsPredicateArg::String(t), CheckFieldsPredicateArg::Integer(b)) => parses_to(t.as_str(), *b),
                (CheckFieldsPredicateArg::Float(a), CheckFieldsPredicateArg::Float(b)) => *a == *b,
                (CheckFieldsPredicateArg::Boolean(a), CheckFieldsPredicateArg::Boolean(b)) => *a == *b,
                (CheckFieldsPredicateArg::String(a), CheckFieldsPredicateArg::Boolean(b)) => {
                    if *b {
                        text_eq(a.as_str(), "true")
                    } else {
                        text_eq(a.as_str(), "false")
                    }
                },
                _ => false,
            },
        }
    }
}

/// A compiled field predicate of any known name.
pub enum FieldPredicate {
    Equals(EqualsPredicate),
}

impl CheckFieldsPredicate for FieldPredicate {
    open spec fn matches(&self, e: EventView) -> bool {
        match self {
            FieldPredicate::Equals(p) => p.matches(e),
        }
    }

    fn check(&self, e: &Event) -> (r: bool) {
        match self {
            FieldPredicate::Equals(p) => p.check(e),
        }
    }
}

/// Whether every predicate matches the event.
pub open spec fn all_match(p: Seq<FieldPredicate>, e: EventView) -> bool {
    forall|i: int| 0 <= i < p.len() ==> #[trigger] p[i].matches(e)
}

/// The position of the last `.` in `k`, or -1 where it holds none.
pub open spec fn last_dot(k: Seq<char>) -> int
    decreases k.len(),
{
    if k.len() == 0 {
        -1
    } else if k.last() == '.' {
        k.len() - 1
    } else {
        last_dot(k.drop_last())
    }
}

/// A key splits as `<target>.<predicate>` at its last `.`, with both parts
/// non-empty.
pub open spec fn key_well_formed(k: Seq<char>) -> bool {
    0 < last_dot(k) && last_dot(k) < k.len() - 1
}

/// The field path of a well-formed key: what precedes its last `.`.
pub open spec fn key_target(k: Seq<char>) -> Seq<char> {
    k.subrange(0, last_dot(k))
}

/// The predicate name of a well-formed key: what follows its last `.`.
pub open spec fn key_predicate(k: Seq<char>) -> Seq<char> {
    k.subrange(last_dot(k) + 1, k.len() as int)
}

/// The predicate names that `check_fields` knows.
pub open spec fn known_predicate(name: Seq<char>) -> bool {
    name == "equals"@
}

/// The message for a key that does not split as `<target>.<predicate>`.
pub open spec fn malformed_key_message(k: Seq<char>) -> Seq<char> {
    "predicate not found in check_fields value "@ + quoted(k) + ", format must be <target>.<predicate>"@
}

/// The message for a key whose predicate name is unknown.
pub open spec fn unknown_predicate_message(k: Seq<char>) -> Seq<char> {
    "predicate type "@ + quoted(key_predicate(k)) + " not recognized in check_fields value "@ + quoted(k)
}

/// The message of the fault in key `k`, if it has one.
pub open spec fn key_fault(k: Seq<char>) -> Option<Seq<char>> {
    if !key_well_formed(k) {
        Some(malformed_key_message(k))
    } else if !known_predicate(key_predicate(k)) {
        Some(unknown_predicate_message(k))
    } else {
        None
    }
}

/// The messages of the faulty keys among `s`, in order.
pub open spec fn faults(s: Seq<(Seq<char>, ArgView)>) -> Seq<Seq<char>>
    decreases s.len(),
{
    if s.len() == 0 {
        Seq::empty()
    } else {
        match key_fault(s.last().0) {
            Some(m) => faults(s.drop_last()).push(m),
            None => faults(s.drop_last()),
        }
    }
}

/// `p` is the predicate that the well-formed entry `entry` compiles to.
pub open spec fn compiled_from(p: FieldPredicate, entry: (Seq<char>, ArgView)) -> bool {
    match p {
        FieldPredicate::Equals(q) => q.target@ == key_target(entry.0) && q.arg@ == entry.1,
    }
}

/// `p` is what compiling the well-formed entries `s` gives: one predicate per
/// entry, in order, on the entry's target and with its operand.
pub open spec fn compiled(p: Seq<FieldPredicate>, s: Seq<(Seq<char>, ArgView)>) -> bool {
    &&& p.len() == s.len()
    &&& forall|i: int| 0 <= i < p.len() ==> #[trigger] compiled_from(p[i], s[i])
}

/// The position of the last `.` in `k`.
fn find_last_dot(k: &str) -> (r: Option<usize>)
    ensures
        r matches Some(i) ==> i == last_dot(k@) && i < k@.len(),
        r is None ==> last_dot(k@) == -1,
{
    let mut i: usize = k.unicode_len();
    proof {
        assert(k@.subrange(0, i as int) =~= k@);
    }
    while i > 0
        invariant
            i <= k@.len(),
            last_dot(k@) == last_dot(k@.subrange(0, i as int)),
        decreases i,
    {
        proof {
            assert(k@.subrange(0, i as int).drop_last() =~= k@.subrange(0, i - 1));
        }
        if k.get_char(i - 1) == '.' {
            return Some(i - 1);
        }
        i = i - 1;
    }
    None
}

/// Compiles one key, or says what is wrong with it.
fn build_predicate(key: &String, arg: &CheckFieldsPredicateArg) -> (r: Result<FieldPredicate, PredicateError>)
    ensures
        r is Ok == (key_fault(key@) is None),
        r matches Ok(p) ==> compiled_from(p, (key@, arg@)),
        r matches Err(e) ==> Some(e.message()) == key_fault(key@),
{
    let n = key.as_str().unicode_len();
    match find_last_dot(key.as_str()) {
        Some(i) => {
            if i > 0 && i + 1 < n {
                let target = key.as_str().substring_char(0, i);
                let name = key.as_str().substring_char(i + 1, n);
                if text_eq(name, "equals") {
                    proof {
                        reveal_strlit("equals");
                    }
                    Ok(FieldPredicate::Equals(EqualsPredicate { target: String::from_str(target), arg: arg.duplicate() }))
                } else {
                    proof {
                        reveal_strlit("equals");
                        reveal_strlit("'");
                        reveal_strlit("predicate type ");
                        reveal_strlit(" not recognized in check_fields value ");
                    }
                    let e = PredicateError::UnknownPredicate { key: key.clone(), predicate: String::from_str(name) };
                    proof {
                        assert(e.message() =~= unknown_predicate_message(key@));
                    }
                    Err(e)
                }
            } else {
                let e = PredicateError::MalformedKey(key.clone());
                proof {
                    assert(e.message() =~= malformed_key_message(key@));
                }
                Err(e)
            }
        },
        None => {
            let e = PredicateError::MalformedKey(key.clone());
            proof {
                assert(e.message() =~= malformed_key_message(key@));
            }
            Err(e)
        },
    }
}

/// Compiles every entry of a `check_fields` map, in order, collecting the
/// faults of all bad keys rather than stopping at the first.
pub fn build_predicates(map: &ArgMap) -> (r: Result<Vec<FieldPredicate>, Vec<PredicateError>>)
    ensures
        r is Ok == (faults(arg_entries(*map)).len() == 0),
        r matches Ok(p) ==> compiled(p@, arg_entries(*map)),
        r matches Err(errs) ==> errs@.map_values(|e: PredicateError| e.message()) == faults(arg_entries(*map)),
{
    let ghost s = arg_entries(*map);
    let n = arg_len(map);
    let mut predicates: Vec<FieldPredicate> = Vec::new();
    let mut errors: Vec<PredicateError> = Vec::new();
    let mut i: usize = 0;
    while i < n
        invariant
            s == arg_entries(*map),
            n == s.len(),
            i <= n,
            errors@.map_values(|e: PredicateError| e.message()) == faults(s.subrange(0, i as int)),
            errors@.len() == 0 ==> compiled(predicates@, s.subrange(0, i as int)),
        decreases n - i,
    {
        proof {
            assert(s.subrange(0, i + 1).drop_last() =~= s.subrange(0, i as int));
        }
        match arg_at(map, i) {
            Some((key, arg)) => {
                match build_predicate(key, arg) {
                    Ok(p) => {
                        predicates.push(p);
                        proof {
                            if errors@.len() == 0 {
                                let t = s.subrange(0, i + 1);
                                assert forall|j: int| 0 <= j < predicates@.len() implies
                                    #[trigger] compiled_from(predicates@[j], t[j])
                                by {
                                    if j < i {
                                        assert(t[j] == s.subrange(0, i as int)[j]);
                                    }
                                }
                            }
                        }
                    },
                    Err(e) => {
                        errors.push(e);
                        proof {
                            assert(errors@.map_values(|e: PredicateError| e.message()) =~=
                                faults(s.subrange(0, i as int)).push(e.message()));
                        }
                    },
                }
            },
            None => {},
        }
        i = i + 1;
    }
    proof {
        assert(s.subrange(0, n as int) =~= s);
    }
    if errors.len() == 0 {
        Ok(predicates)
    } else {
        Err(errors)
    }
}

/// The configuration of the `check_fields` kind: `<target>.<predicate>` keys,
/// each with its operand.
pub struct CheckFieldsConfig {
    pub predicates: ArgMap,
}

impl CheckFieldsConfig {
    /// Compiles the keys; where any is faulty, fails with all their faults.
    pub fn build(&self) -> (r: Result<CheckFields, ConditionError>)
        ensures
            r is Ok == (faults(arg_entries(self.predicates)).len() == 0),
            r matches Ok(c) ==> compiled(c.predicates@, arg_entries(self.predicates)),
            r matches Err(e) ==> e matches ConditionError::Predicates(errs)
                && errs@.map_values(|e: PredicateError| e.message()) == faults(arg_entries(self.predicates)),
    {
        match build_predicates(&self.predicates) {
            Ok(p) => Ok(CheckFields { predicates: p }),
            Err(errs) => Err(ConditionError::Predicates(errs)),
        }
    }
}

/// The `check_fields` kind: holds where every compiled predicate matches.
pub struct CheckFields {
    pub predicates: Vec<FieldPredicate>,
}

impl Condition for CheckFields {
    open spec fn holds(&self, e: EventView) -> bool {
        all_match(self.predicates@, e)
    }

    fn check(&self, e: &Event) -> (r: bool) {
        let mut i: usize = 0;
        while i < self.predicates.len()
            invariant
                i <= self.predicates@.len(),
                forall|j: int| 0 <= j < i ==> #[trigger] self.predicates@[j].matches(e@),
            decreases self.predicates@.len() - i,
        {
            if !self.predicates[i].check(e) {
                return false;
            }
            i = i + 1;
        }
        true
    }
}

/// `last_dot` is a `.` of the key, with none after it; where the key holds
/// no `.` it is -1.
pub proof fn lemma_last_dot(k: Seq<char>)
    ensures
        -1 <= last_dot(k) < k.len(),
        last_dot(k) >= 0 ==> k[last_dot(k)] == '.',
        forall|j: int| last_dot(k) < j < k.len() ==> k[j] != '.',
    decreases k.len(),
{
    if k.len() > 0 && k.last() != '.' {
        lemma_last_dot(k.drop_last());
        assert forall|j: int| last_dot(k) < j < k.len() implies k[j] != '.' by {
            if j < k.len() - 1 {
                assert(k[j] == k.drop_last()[j]);
            }
        }
    }
}

/// A key with no `.`, one whose only `.` is its first character, or one that
/// ends with `.` is malformed: it fails with the message that names it and the
/// required shape.
pub proof fn lemma_malformed_keys(k: Seq<char>)
    requires
        (forall|i: int| 0 <= i < k.len() ==> k[i] != '.')
            || (k.len() > 0 && k[0] == '.' && forall|i: int| 0 < i < k.len() ==> k[i] != '.')
            || (k.len() > 0 && k.last() == '.'),
    ensures
        key_fault(k) == Some(malformed_key_message(k)),
{
    lemma_last_dot(k);
}

/// The verdict of compiled predicates depends on their targets and operands
/// only: two compilations of the same entries agree on every event.
pub proof fn lemma_compiled_agree(p1: Seq<FieldPredicate>, p2: Seq<FieldPredicate>, s: Seq<(Seq<char>, ArgView)>, e: EventView)
    requires
        compiled(p1, s),
        compiled(p2, s),
    ensures
        all_match(p1, e) == all_match(p2, e),
{
    assert forall|i: int| 0 <= i < p1.len() implies #[trigger] p1[i].matches(e) == p2[i].matches(e) by {
        assert(compiled_from(p1[i], s[i]));
        assert(compiled_from(p2[i], s[i]));
    }
    if all_match(p1, e) {
        assert forall|i: int| 0 <= i < p2.len() implies #[trigger] p2[i].matches(e) by {
            assert(p1[i].matches(e));
        }
    }
    if all_match(p2, e) {
        assert forall|i: int| 0 <= i < p1.len() implies #[trigger] p1[i].matches(e) by {
            assert(p2[i].matches(e));
        }
    }
}

} // verus!
