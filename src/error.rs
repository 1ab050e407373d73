use vstd::prelude::*;

verus! {

/// A fault in one `check_fields` key, found while building the condition.
#[derive(Clone, Debug)]
pub enum PredicateError {
    /// The key has no `.`, or its last `.` is its first or last character.
    MalformedKey(String),
    /// The part after the last `.` names no known predicate.
    UnknownPredicate { key: String, predicate: String },
}

/// Why a condition could not be configured, built or initialized.
#[derive(Clone, Debug)]
pub enum ConditionError {
    /// The `type` entry names no registered kind.
    UnrecognizedType(String),
    /// A required entry is absent.
    MissingField(String),
    /// An entry that the kind does not declare; `expected` lists those it does.
    UnknownField { field: String, expected: String },
    /// An entry holds a value of the wrong sort; `expected` names the right one.
    InvalidField { field: String, expected: String },
    /// The keys of a `check_fields` condition that could not be compiled.
    Predicates(Vec<PredicateError>),
    /// A composite condition names a sibling that is not in the set.
    SiblingNotFound(String),
    /// Following references from a composite condition leads back round to
    /// the one named.
    Cycle(String),
}

/// `a` quoted with single quotes.
pub open spec fn quoted(a: Seq<char>) -> Seq<char> {
    "'"@ + a + "'"@
}

impl PredicateError {
    pub open spec fn message(&self) -> Seq<char> {
        match self {
            PredicateError::MalformedKey(k) => "predicate not found in check_fields value "@
                + quoted(k@) + ", format must be <target>.<predicate>"@,
            PredicateError::UnknownPredicate { key, predicate } => "predicate type "@
                + quoted(predicate@) + " not recognized in check_fields value "@ + quoted(key@),
        }
    }

    /// The text of the error.
    pub fn to_string(&self) -> (r: String)
        ensures
            r@ == self.message(),
    {
        match self {
            PredicateError::MalformedKey(k) => {
                let mut r = String::from_str("predicate not found in check_fields value '");
                r.append(k.as_str());
                r.append("', format must be <target>.<predicate>");
                proof {
                    reveal_strlit("predicate not found in check_fields value '");
                    reveal_strlit("predicate not found in check_fields value ");
                    reveal_strlit("', format must be <target>.<predicate>");
                    reveal_strlit(", format must be <target>.<predicate>");
                    reveal_strlit("'");
                    assert(r@ =~= self.message());
                }
                r
            },
            PredicateError::UnknownPredicate { key, predicate } => {
                let mut r = String::from_str("predicate type '");
                r.append(predicate.as_str());
                r.append("' not recognized in check_fields value '");
                r.append(key.as_str());
                r.append("'");
                proof {
                    reveal_strlit("predicate type '");
                    reveal_strlit("predicate type ");
                    reveal_strlit("' not recognized in check_fields value '");
                    reveal_strlit(" not recognized in check_fields value ");
                    reveal_strlit("'");
                    assert(r@ =~= self.message());
                }
                r
            },
        }
    }
}

/// The messages of `errs`, one per line.
pub open spec fn joined_lines(errs: Seq<PredicateError>) -> Seq<char>
    decreases errs.len(),
{
    if errs.len() == 0 {
        Seq::empty()
    } else if errs.len() == 1 {
        errs[0].message()
    } else {
        joined_lines(errs.drop_last()) + "\n"@ + errs.last().message()
    }
}

/// One error reads bare; several stand under a header, one per line.
pub open spec fn predicates_message(errs: Seq<PredicateError>) -> Seq<char> {
    if errs.len() == 1 {
        errs[0].message()
    } else {
        "failed to parse predicates:\n"@ + joined_lines(errs)
    }
}

fn join_lines(errs: &Vec<PredicateError>) -> (r: String)
    ensures
        r@ == joined_lines(errs@),
{
    let mut r = String::new();
    let mut i: usize = 0;
    while i < errs.len()
        invariant
            i <= errs@.len(),
            r@ == joined_lines(errs@.subrange(0, i as int)),
        decreases errs@.len() - i,
    {
        proof {
            let s = errs@.subrange(0, i + 1);
            assert(s.drop_last() =~= errs@.subrange(0, i as int));
            reveal_strlit("\n");
        }
        if i > 0 {
            r.append("\n");
        }
        let m = errs[i].to_string();
        r.append(m.as_str());
        proof {
            if i == 0 {
                assert(r@ =~= joined_lines(errs@.subrange(0, 1)));
            } else {
                assert(r@ =~= joined_lines(errs@.subrange(0, i + 1)));
            }
        }
        i = i + 1;
    }
    proof {
        assert(errs@.subrange(0, errs@.len() as int) =~= errs@);
    }
    r
}

impl ConditionError {
    pub open spec fn message(&self) -> Seq<char> {
        match self {
            ConditionError::UnrecognizedType(t) => "unrecognized type "@ + quoted(t@),
            ConditionError::MissingField(f) => "missing field "@ + quoted(f@),
            ConditionError::UnknownField { field, expected } => "unknown field "@ + quoted(field@)
                + ", expected "@ + expected@,
            ConditionError::InvalidField { field, expected } => "invalid type for field "@
                + quoted(field@) + ", expected "@ + expected@,
            ConditionError::Predicates(errs) => predicates_message(errs@),
            ConditionError::SiblingNotFound(n) => "failed to find condition "@ + quoted(n@),
            ConditionError::Cycle(n) => "condition "@ + quoted(n@) + " refers to itself"@,
        }
    }

    /// The text of the error.
    pub fn to_string(&self) -> (r: String)
        ensures
            r@ == self.message(),
    {
        proof {
            reveal_strlit("'");
            reveal_strlit(", expected ");
        }
        match self {
            ConditionError::UnrecognizedType(t) => {
                let mut r = String::from_str("unrecognized type '");
                r.append(t.as_str());
                r.append("'");
                proof {
                    reveal_strlit("unrecognized type '");
                    reveal_strlit("unrecognized type ");
                    assert(r@ =~= self.message());
                }
                r
            },
            ConditionError::MissingField(f) => {
                let mut r = String::from_str("missing field '");
                r.append(f.as_str());
                r.append("'");
                proof {
                    reveal_strlit("missing field '");
                    reveal_strlit("missing field ");
                    assert(r@ =~= self.message());
                }
                r
            },
            ConditionError::UnknownField { field, expected } => {
                let mut r = String::from_str("unknown field '");
                r.append(field.as_str());
                r.append("', expected ");
                r.append(expected.as_str());
                proof {
                    reveal_strlit("unknown field '");
                    reveal_strlit("unknown field ");
                    reveal_strlit("', expected ");
                    assert(r@ =~= self.message());
                }
                r
            },
            ConditionError::InvalidField { field, expected } => {
                let mut r = String::from_str("invalid type for field '");
                r.append(field.as_str());
                r.append("', expected ");
                r.append(expected.as_str());
                proof {
                    reveal_strlit("invalid type for field '");
                    reveal_strlit("invalid type for field ");
                    reveal_strlit("', expected ");
                    assert(r@ =~= self.message());
                }
                r
            },
            ConditionError::Predicates(errs) => {
                if errs.len() == 1 {
                    errs[0].to_string()
                } else {
                    let mut r = String::from_str("failed to parse predicates:\n");
                    let body = join_lines(errs);
                    r.append(body.as_str());
                    proof {
                        reveal_strlit("failed to parse predicates:\n");
                        assert(r@ =~= self.message());
                    }
                    r
                }
            },
            ConditionError::SiblingNotFound(n) => {
                let mut r = String::from_str("failed to find condition '");
                r.append(n.as_str());
                r.append("'");
                proof {
                    reveal_strlit("failed to find condition '");
                    reveal_strlit("failed to find condition ");
                    assert(r@ =~= self.message());
                }
                r
            },
            ConditionError::Cycle(n) => {
                let mut r = String::from_str("condition '");
                r.append(n.as_str());
                r.append("' refers to itself");
                proof {
                    reveal_strlit("condition '");
                    reveal_strlit("condition ");
                    reveal_strlit("' refers to itself");
                    reveal_strlit(" refers to itself");
                    assert(r@ =~= self.message());
                }
                r
            },
        }
    }
}

/// The messages of several faults, one per line.
pub open spec fn joined_messages(m: Seq<Seq<char>>) -> Seq<char>
    decreases m.len(),
{
    if m.len() == 0 {
        Seq::empty()
    } else if m.len() == 1 {
        m[0]
    } else {
        joined_messages(m.drop_last()) + "\n"@ + m.last()
    }
}

/// The message of the error that gathers faults with messages `m`.
pub open spec fn predicates_message_of(m: Seq<Seq<char>>) -> Seq<char> {
    if m.len() == 1 {
        m[0]
    } else {
        "failed to parse predicates:\n"@ + joined_messages(m)
    }
}

proof fn lemma_joined(errs: Seq<PredicateError>)
    ensures
        joined_lines(errs) == joined_messages(errs.map_values(|e: PredicateError| e.message())),
    decreases errs.len(),
{
    let m = errs.map_values(|e: PredicateError| e.message());
    if errs.len() > 1 {
        lemma_joined(errs.drop_last());
        assert(errs.drop_last().map_values(|e: PredicateError| e.message()) =~= m.drop_last());
    }
}

/// The message of a gathered error depends on the messages of its faults only.
pub proof fn lemma_predicates_message(e: ConditionError)
    requires
        e matches ConditionError::Predicates(_),
    ensures
        e matches ConditionError::Predicates(errs) && e.message() == predicates_message_of(
            errs@.map_values(|x: PredicateError| x.message()),
        ),
{
    if let ConditionError::Predicates(errs) = e {
        lemma_joined(errs@);
    }
}

/// The one message for several errors gathered while compiling a set: a
/// single error reads bare; several stand under a header, one per line.
pub open spec fn report_message(m: Seq<Seq<char>>) -> Seq<char> {
    if m.len() == 1 {
        m[0]
    } else {
        "failed to build conditions:\n"@ + joined_messages(m)
    }
}

/// The messages of `errs`, one per line.
fn join_errors(errs: &Vec<ConditionError>) -> (r: String)
    ensures
        r@ == joined_messages(errs@.map_values(|e: ConditionError| e.message())),
{
    let ghost m = errs@.map_values(|e: ConditionError| e.message());
    let mut r = String::new();
    let mut i: usize = 0;
    while i < errs.len()
        invariant
            m == errs@.map_values(|e: ConditionError| e.message()),
            i <= errs@.len(),
            r@ == joined_messages(m.subrange(0, i as int)),
        decreases errs@.len() - i,
    {
        proof {
            assert(m.subrange(0, i + 1).drop_last() =~= m.subrange(0, i as int));
            reveal_strlit("\n");
        }
        if i > 0 {
            r.append("\n");
        }
        let line = errs[i].to_string();
        r.append(line.as_str());
        proof {
            assert(m[i as int] == line@);
            if i == 0 {
                assert(r@ =~= joined_messages(m.subrange(0, 1)));
            } else {
                assert(r@ =~= joined_messages(m.subrange(0, i + 1)));
            }
        }
        i = i + 1;
    }
    proof {
        assert(m.subrange(0, errs@.len() as int) =~= m);
    }
    r
}

/// The single message that reports `errs`.
pub fn report(errs: &Vec<ConditionError>) -> (r: String)
    ensures
        r@ == report_message(errs@.map_values(|e: ConditionError| e.message())),
{
    if errs.len() == 1 {
        errs[0].to_string()
    } else {
        let mut r = String::from_str("failed to build conditions:\n");
        let body = join_errors(errs);
        r.append(body.as_str());
        proof {
            reveal_strlit("failed to build conditions:\n");
            assert(r@ =~= report_message(errs@.map_values(|e: ConditionError| e.message())));
        }
        r
    }
}

} // verus!
