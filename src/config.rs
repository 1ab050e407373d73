use vstd::prelude::*;
use crate::check_fields::{compiled, faults, CheckFieldsConfig};
use crate::condition::{condition_holds, BoxCondition, ConditionKind};
use crate::error::{quoted, ConditionError};
use crate::event::{text_eq, ArgView, CheckFieldsPredicateArg, EventView};
use std::sync::Arc;
use crate::maps::{arg_at, arg_entries, arg_get, arg_len, arg_remove, entry_value, get_sibling, insert_sibling, new_siblings, sibling_map, ArgMap, Siblings};
use crate::not::{Not, NotConfig};
use crate::static_value::StaticConfig;

verus! {

/// The names of the registered condition kinds, in registration order.
pub open spec fn registered_kinds() -> Seq<Seq<char>> {
    seq!["static"@, "not"@, "check_fields"@]
}

/// The registered kind names, for diagnostics and enumeration.
pub fn condition_types() -> (r: Vec<String>)
    ensures
        r@.map_values(|s: String| s@) == registered_kinds(),
{
    let mut r: Vec<String> = Vec::new();
    r.push(String::from_str("static"));
    r.push(String::from_str("not"));
    r.push(String::from_str("check_fields"));
    proof {
        assert(r@.map_values(|s: String| s@) =~= registered_kinds());
    }
    r
}

/// The position of `name` among the registered kinds, if it is one of them.
pub fn lookup_kind(name: &str) -> (r: Option<usize>)
    ensures
        r matches Some(i) ==> i < registered_kinds().len() && registered_kinds()[i as int] == name@,
        r is None ==> !registered_kinds().contains(name@),
{
    let names = condition_types();
    let mut i: usize = 0;
    while i < names.len()
        invariant
            names@.map_values(|s: String| s@) == registered_kinds(),
            i <= names@.len(),
            forall|j: int| 0 <= j < i ==> registered_kinds()[j] != name@,
        decreases names@.len() - i,
    {
        proof {
            assert(names@.map_values(|s: String| s@)[i as int] == names@[i as int]@);
        }
        if text_eq(names[i].as_str(), name) {
            return Some(i);
        }
        i = i + 1;
    }
    None
}

/// What a kind-specific configuration holds.
pub enum ConfigView {
    Static(bool),
    Not(Seq<char>),
    CheckFields(Seq<(Seq<char>, ArgView)>),
}

/// A validated configuration of one of the registered kinds.
pub enum ConditionConfig {
    Static(StaticConfig),
    Not(NotConfig),
    CheckFields(CheckFieldsConfig),
}

impl View for ConditionConfig {
    type V = ConfigView;

    open spec fn view(&self) -> ConfigView {
        match self {
            ConditionConfig::Static(c) => ConfigView::Static(c.value),
            ConditionConfig::Not(c) => ConfigView::Not(c.child@),
            ConditionConfig::CheckFields(c) => ConfigView::CheckFields(arg_entries(c.predicates)),
        }
    }
}

/// The first key of `s`, in order, that is neither `type` nor `allowed`.
pub open spec fn first_unknown(s: Seq<(Seq<char>, ArgView)>, allowed: Seq<char>) -> Option<Seq<char>>
    decreases s.len(),
{
    if s.len() == 0 {
        None
    } else if s[0].0 != "type"@ && s[0].0 != allowed {
        Some(s[0].0)
    } else {
        first_unknown(s.drop_first(), allowed)
    }
}

pub open spec fn missing_message(field: Seq<char>) -> Seq<char> {
    "missing field "@ + quoted(field)
}

pub open spec fn unknown_message(field: Seq<char>, allowed: Seq<char>) -> Seq<char> {
    "unknown field "@ + quoted(field) + ", expected "@ + quoted(allowed)
}

pub open spec fn invalid_message(field: Seq<char>, expected: Seq<char>) -> Seq<char> {
    "invalid type for field "@ + quoted(field) + ", expected "@ + expected
}

/// The one field `allowed` of a kind: unknown keys first, then a missing
/// field, then a value of the wrong sort.
pub open spec fn single_field(s: Seq<(Seq<char>, ArgView)>, allowed: Seq<char>) -> Result<ArgView, Seq<char>> {
    match first_unknown(s, allowed) {
        Some(f) => Err(unknown_message(f, allowed)),
        None => match entry_value(s, allowed) {
            None => Err(missing_message(allowed)),
            Some(v) => Ok(v),
        },
    }
}

/// What reading the raw entries `s` as a condition configuration gives: the
/// configuration, or the message of the error.
pub open spec fn parse_spec(s: Seq<(Seq<char>, ArgView)>) -> Result<ConfigView, Seq<char>> {
    match entry_value(s, "type"@) {
        None => Err(missing_message("type"@)),
        Some(ArgView::String(t)) => if t == "static"@ {
            match single_field(s, "value"@) {
                Err(m) => Err(m),
                Ok(ArgView::Boolean(b)) => Ok(ConfigView::Static(b)),
                Ok(_) => Err(invalid_message("value"@, "a boolean"@)),
            }
        } else if t == "not"@ {
            match single_field(s, "child"@) {
                Err(m) => Err(m),
                Ok(ArgView::String(c)) => Ok(ConfigView::Not(c)),
                Ok(_) => Err(invalid_message("child"@, "a string"@)),
            }
        } else if t == "check_fields"@ {
            Ok(ConfigView::CheckFields(s.filter(|e: (Seq<char>, ArgView)| e.0 != "type"@)))
        } else {
            Err("unrecognized type "@ + quoted(t))
        },
        Some(_) => Err(invalid_message("type"@, "a string"@)),
    }
}

/// The first key of `map`, in order, that is neither `type` nor `allowed`.
fn find_unknown(map: &ArgMap, allowed: &str) -> (r: Option<String>)
    ensures
        r matches Some(f) ==> first_unknown(arg_entries(*map), allowed@) == Some(f@),
        r is None ==> first_unknown(arg_entries(*map), allowed@) is None,
{
    let ghost s = arg_entries(*map);
    let n = arg_len(map);
    let mut i: usize = 0;
    proof {
        assert(s.subrange(0, n as int) =~= s);
        reveal_strlit("type");
    }
    while i < n
        invariant
            s == arg_entries(*map),
            n == s.len(),
            i <= n,
            first_unknown(s, allowed@) == first_unknown(s.subrange(i as int, n as int), allowed@),
        decreases n - i,
    {
        proof {
            assert(s.subrange(i as int, n as int).drop_first() =~= s.subrange(i + 1, n as int));
        }
        match arg_at(map, i) {
            Some((key, _)) => {
                if !text_eq(key.as_str(), "type") && !text_eq(key.as_str(), allowed) {
                    return Some(key.clone());
                }
            },
            None => {},
        }
        i = i + 1;
    }
    None
}

/// The value of the one field `allowed` of a kind.
fn read_single_field<'a>(map: &'a ArgMap, allowed: &str) -> (r: Result<&'a CheckFieldsPredicateArg, ConditionError>)
    ensures
        r is Ok == (single_field(arg_entries(*map), allowed@) is Ok),
        r matches Ok(v) ==> single_field(arg_entries(*map), allowed@) == Ok::<ArgView, Seq<char>>(v@),
        r matches Err(e) ==> single_field(arg_entries(*map), allowed@) == Err::<ArgView, Seq<char>>(e.message()),
{
    proof {
        reveal_strlit("'");
        reveal_strlit("unknown field ");
        reveal_strlit(", expected ");
        reveal_strlit("missing field ");
    }
    match find_unknown(map, allowed) {
        Some(f) => {
            let mut expected = String::from_str("'");
            expected.append(allowed);
            expected.append("'");
            let e = ConditionError::UnknownField { field: f, expected };
            proof {
                assert(e.message() =~= unknown_message(f@, allowed@));
            }
            Err(e)
        },
        None => match arg_get(map, allowed) {
            Some(v) => Ok(v),
            None => {
                let e = ConditionError::MissingField(String::from_str(allowed));
                proof {
                    assert(e.message() =~= missing_message(allowed@));
                }
                Err(e)
            },
        },
    }
}

fn invalid_field(field: &str, expected: &str) -> (r: ConditionError)
    ensures
        r.message() == invalid_message(field@, expected@),
{
    let r = ConditionError::InvalidField { field: String::from_str(field), expected: String::from_str(expected) };
    proof {
        reveal_strlit("'");
        reveal_strlit("invalid type for field ");
        reveal_strlit(", expected ");
        assert(r.message() =~= invalid_message(field@, expected@));
    }
    r
}

/// Reads a raw configuration: its `type` entry picks the kind among the
/// registered ones, and the other entries must be exactly the kind's fields.
pub fn parse_config(raw: ArgMap) -> (r: Result<ConditionConfig, ConditionError>)
    ensures
        r is Ok == (parse_spec(arg_entries(raw)) is Ok),
        r matches Ok(c) ==> parse_spec(arg_entries(raw)) == Ok::<ConfigView, Seq<char>>(c@),
        r matches Err(e) ==> parse_spec(arg_entries(raw)) == Err::<ConfigView, Seq<char>>(e.message()),
{
    proof {
        reveal_strlit("type");
        reveal_strlit("static");
        reveal_strlit("not");
        reveal_strlit("check_fields");
        reveal_strlit("value");
        reveal_strlit("child");
        reveal_strlit("a boolean");
        reveal_strlit("a string");
        reveal_strlit("'");
        reveal_strlit("missing field ");
        reveal_strlit("unrecognized type ");
    }
    let kind = match arg_get(&raw, "type") {
        None => {
            let e = ConditionError::MissingField(String::from_str("type"));
            proof {
                assert(e.message() =~= missing_message("type"@));
            }
            return Err(e);
        },
        Some(CheckFieldsPredicateArg::String(t)) => match lookup_kind(t.as_str()) {
            Some(k) => k,
            None => {
                let e = ConditionError::UnrecognizedType(t.clone());
                proof {
                    assert(e.message() =~= "unrecognized type "@ + quoted(t@));
                }
                return Err(e);
            },
        },
        Some(_) => {
            return Err(invalid_field("type", "a string"));
        },
    };
    if kind == 0 {
        match read_single_field(&raw, "value") {
            Err(e) => Err(e),
            Ok(CheckFieldsPredicateArg::Boolean(b)) => Ok(ConditionConfig::Static(StaticConfig::new(*b))),
            Ok(_) => Err(invalid_field("value", "a boolean")),
        }
    } else if kind == 1 {
        match read_single_field(&raw, "child") {
            Err(e) => Err(e),
            Ok(CheckFieldsPredicateArg::String(c)) => Ok(ConditionConfig::Not(NotConfig::new(c.clone()))),
            Ok(_) => Err(invalid_field("child", "a string")),
        }
    } else {
        let mut raw = raw;
        arg_remove(&mut raw, "type");
        Ok(ConditionConfig::CheckFields(CheckFieldsConfig { predicates: raw }))
    }
}

/// Building a configuration succeeds unless it holds faulty `check_fields` keys.
pub open spec fn build_ok(c: ConfigView) -> bool {
    match c {
        ConfigView::CheckFields(s) => faults(s).len() == 0,
        _ => true,
    }
}

/// `b` is the condition that building configuration `c` gives: a `not`
/// still holds its placeholder child, which never holds.
pub open spec fn built_from(b: BoxCondition, c: ConfigView) -> bool {
    match c {
        ConfigView::Static(v) => *b.inner == ConditionKind::Static(StaticConfig { value: v }),
        ConfigView::Not(name) => match *b.inner {
            ConditionKind::Not(n) => n.child_name@ == name && *n.child.inner == ConditionKind::Static(
                StaticConfig { value: false },
            ),
            _ => false,
        },
        ConfigView::CheckFields(s) => match *b.inner {
            ConditionKind::CheckFields(f) => compiled(f.predicates@, s),
            _ => false,
        },
    }
}

impl ConditionConfig {
    /// Builds the condition that this configuration describes.
    pub fn build(&self) -> (r: Result<BoxCondition, ConditionError>)
        ensures
            r is Ok == build_ok(self@),
            r matches Ok(b) ==> built_from(b, self@),
            r matches Err(e) ==> self@ matches ConfigView::CheckFields(s) && e.message()
                == crate::error::predicates_message_of(faults(s)),
    {
        match self {
            ConditionConfig::Static(c) => Ok(BoxCondition::from_static(StaticConfig::new(c.value))),
            ConditionConfig::Not(c) => Ok(BoxCondition::from_not(c.build())),
            ConditionConfig::CheckFields(c) => match c.build() {
                Ok(f) => Ok(BoxCondition::from_check_fields(f)),
                Err(e) => {
                    proof {
                        crate::error::lemma_predicates_message(e);
                    }
                    Err(e)
                },
            },
        }
    }
}

/// The names of named items, in order.
pub open spec fn names_of<T>(s: Seq<(String, T)>) -> Seq<Seq<char>> {
    s.map_values(|p: (String, T)| p.0@)
}

/// The map from each name of `s` to its condition.
pub open spec fn env_of(s: Seq<(String, BoxCondition)>) -> Map<Seq<char>, BoxCondition>
    decreases s.len(),
{
    if s.len() == 0 {
        Map::empty()
    } else {
        env_of(s.drop_last()).insert(s.last().0@, s.last().1)
    }
}

/// Why the condition named `name` cannot be resolved among `env` when
/// references may be followed `fuel` more times: a missing sibling, or a
/// chain of composites too long to end anywhere but in a cycle.
pub open spec fn resolve_fault(env: Map<Seq<char>, BoxCondition>, name: Seq<char>, fuel: nat) -> Option<Seq<char>>
    decreases fuel,
{
    if !env.contains_key(name) {
        Some("failed to find condition "@ + quoted(name))
    } else {
        match *env[name].inner {
            ConditionKind::Not(n) => if fuel == 0 {
                Some("condition "@ + quoted(name) + " refers to itself"@)
            } else {
                resolve_fault(env, n.child_name@, (fuel - 1) as nat)
            },
            _ => None,
        }
    }
}

/// `r` is the condition named `name` in `env` with its references resolved:
/// a composite refers to its sibling, itself resolved in turn; any other
/// condition is as it was built.
pub open spec fn resolves(env: Map<Seq<char>, BoxCondition>, name: Seq<char>, fuel: nat, r: BoxCondition) -> bool
    decreases fuel,
{
    &&& env.contains_key(name)
    &&& match *env[name].inner {
        ConditionKind::Not(n) => fuel > 0 && match *r.inner {
            ConditionKind::Not(m) => m.child_name == n.child_name && resolves(
                env,
                n.child_name@,
                (fuel - 1) as nat,
                *m.child,
            ),
            _ => false,
        },
        _ => r == env[name],
    }
}

/// The faults of the first conditions of `s`, in order.
pub open spec fn unresolved(s: Seq<(String, BoxCondition)>, env: Map<Seq<char>, BoxCondition>) -> Seq<Seq<char>>
    decreases s.len(),
{
    if s.len() == 0 {
        Seq::empty()
    } else {
        match resolve_fault(env, s.last().0@, env.dom().len()) {
            Some(m) => unresolved(s.drop_last(), env).push(m),
            None => unresolved(s.drop_last(), env),
        }
    }
}

/// Resolves the condition named `name` among the built conditions `env`.
fn resolve(env: &Siblings, name: &str, fuel: usize) -> (r: Result<Arc<BoxCondition>, ConditionError>)
    ensures
        r is Ok == (resolve_fault(sibling_map(*env), name@, fuel as nat) is None),
        r matches Ok(c) ==> resolves(sibling_map(*env), name@, fuel as nat, *c),
        r matches Err(e) ==> resolve_fault(sibling_map(*env), name@, fuel as nat) == Some(e.message()),
    decreases fuel,
{
    proof {
        reveal_strlit("'");
        reveal_strlit("failed to find condition ");
        reveal_strlit("condition ");
        reveal_strlit(" refers to itself");
    }
    match get_sibling(env, name) {
        None => {
            let e = ConditionError::SiblingNotFound(String::from_str(name));
            proof {
                assert(e.message() =~= "failed to find condition "@ + quoted(name@));
            }
            Err(e)
        },
        Some(c) => match &*c.inner {
            ConditionKind::Not(n) => {
                if fuel == 0 {
                    let e = ConditionError::Cycle(String::from_str(name));
                    proof {
                        assert(e.message() =~= "condition "@ + quoted(name@) + " refers to itself"@);
                    }
                    Err(e)
                } else {
                    match resolve(env, n.child_name.as_str(), fuel - 1) {
                        Err(e) => Err(e),
                        Ok(child) => Ok(
                            Arc::new(BoxCondition::from_not(Not { child_name: n.child_name.clone(), child })),
                        ),
                    }
                }
            },
            _ => Ok(c.clone()),
        },
    }
}

/// Initializes a set of built conditions with distinct names: each composite
/// condition is given the sibling it names, itself initialized, and so on
/// along the chain. Either every condition resolves, or the fault of every
/// one that does not (a missing sibling, or a cycle) is reported, in order.
pub fn init_all(built: Vec<(String, BoxCondition)>) -> (r: Result<Siblings, Vec<ConditionError>>)
    requires
        names_of(built@).no_duplicates(),
    ensures
        r is Ok == (unresolved(built@, env_of(built@)).len() == 0),
        r matches Ok(m) ==> sibling_map(m).dom() == env_of(built@).dom() && forall|k: Seq<char>|
            #[trigger] sibling_map(m).contains_key(k) ==> resolves(
                env_of(built@),
                k,
                env_of(built@).dom().len(),
                sibling_map(m)[k],
            ),
        r matches Err(errs) ==> errs@.map_values(|e: ConditionError| e.message()) == unresolved(
            built@,
            env_of(built@),
        ),
{
    let ghost all = built@;
    let ghost env = env_of(built@);
    let mut names: Vec<String> = Vec::new();
    let mut siblings = new_siblings();
    let mut rest = built;
    let ghost taken: Seq<(String, BoxCondition)> = Seq::empty();
    while rest.len() > 0
        invariant
            taken + rest@ == all,
            names@.map_values(|s: String| s@) == names_of(taken),
            sibling_map(siblings) == env_of(taken),
        decreases rest@.len(),
    {
        let (name, c) = rest.remove(0);
        proof {
            assert(taken.push((name, c)).drop_last() == taken);
            assert((taken.push((name, c)) + rest@) =~= all);
            assert(names_of(taken.push((name, c))) =~= names_of(taken).push(name@));
        }
        names.push(name.clone());
        insert_sibling(&mut siblings, name, Arc::new(c));
        proof {
            taken = taken.push((name, c));
            assert(names@.map_values(|s: String| s@) =~= names_of(taken));
        }
    }
    proof {
        assert(taken =~= all);
        lemma_env_of_dom(all);
        names_of(all).unique_seq_to_set();
    }
    let fuel = names.len();
    let mut result = new_siblings();
    let mut errors: Vec<ConditionError> = Vec::new();
    let mut i: usize = 0;
    while i < names.len()
        invariant
            sibling_map(siblings) == env,
            env == env_of(all),
            fuel as nat == env.dom().len(),
            names@.map_values(|s: String| s@) == names_of(all),
            names_of(all).no_duplicates(),
            i <= names@.len(),
            names@.len() == all.len(),
            errors@.map_values(|e: ConditionError| e.message()) == unresolved(all.subrange(0, i as int), env),
            errors@.len() == 0 ==> sibling_map(result).dom() == env_of(all.subrange(0, i as int)).dom(),
            errors@.len() == 0 ==> forall|k: Seq<char>| #[trigger] sibling_map(result).contains_key(k)
                ==> resolves(env, k, fuel as nat, sibling_map(result)[k]),
        decreases names@.len() - i,
    {
        proof {
            lemma_env_of_last(all, i as int);
            assert(names@.map_values(|s: String| s@)[i as int] == names@[i as int]@);
            assert(all.subrange(0, i + 1).drop_last() =~= all.subrange(0, i as int));
        }
        match resolve(&siblings, names[i].as_str(), fuel) {
            Ok(c) => {
                insert_sibling(&mut result, names[i].clone(), c);
            },
            Err(e) => {
                errors.push(e);
                proof {
                    assert(errors@.map_values(|e: ConditionError| e.message()) =~=
                        unresolved(all.subrange(0, i + 1), env));
                }
            },
        }
        i = i + 1;
    }
    proof {
        assert(all.subrange(0, all.len() as int) =~= all);
    }
    if errors.len() == 0 {
        Ok(result)
    } else {
        Err(errors)
    }
}

/// The names of `s` are the keys of the map it gives.
proof fn lemma_env_of_dom(s: Seq<(String, BoxCondition)>)
    ensures
        env_of(s).dom() == names_of(s).to_set(),
    decreases s.len(),
{
    if s.len() > 0 {
        lemma_env_of_dom(s.drop_last());
        assert(names_of(s.drop_last()) =~= names_of(s).drop_last());
        assert(names_of(s) =~= names_of(s.drop_last()).push(s.last().0@));
        names_of(s.drop_last()).lemma_push_to_set_commute(s.last().0@);
        assert(env_of(s).dom() =~= names_of(s).to_set());
    }
}

/// With distinct names, the entry at `i` is what the whole set maps its name to.
proof fn lemma_env_of_last(all: Seq<(String, BoxCondition)>, i: int)
    requires
        0 <= i < all.len(),
        names_of(all).no_duplicates(),
    ensures
        env_of(all).contains_key(all[i].0@),
        env_of(all)[all[i].0@] == all[i].1,
    decreases all.len(),
{
    if i < all.len() - 1 {
        let d = all.drop_last();
        assert(names_of(d) =~= names_of(all).drop_last());
        assert(names_of(all)[i] == all[i].0@);
        assert(names_of(all)[all.len() - 1] == all.last().0@);
        lemma_env_of_last(d, i);
    }
}

/// What compiling one raw configuration gives: the configuration, which
/// then builds, or the message of the first error met.
pub open spec fn entry_outcome(s: Seq<(Seq<char>, ArgView)>) -> Result<ConfigView, Seq<char>> {
    match parse_spec(s) {
        Err(m) => Err(m),
        Ok(c) => if build_ok(c) {
            Ok(c)
        } else {
            match c {
                ConfigView::CheckFields(p) => Err(crate::error::predicates_message_of(faults(p))),
                _ => Ok(c),
            }
        },
    }
}

/// What a named raw configuration holds.
pub open spec fn raw_view(p: (String, ArgMap)) -> (Seq<char>, Seq<(Seq<char>, ArgView)>) {
    (p.0@, arg_entries(p.1))
}

/// The error messages of the entries of `s` that fail, in order.
pub open spec fn failures(s: Seq<(Seq<char>, Seq<(Seq<char>, ArgView)>)>) -> Seq<Seq<char>>
    decreases s.len(),
{
    if s.len() == 0 {
        Seq::empty()
    } else {
        match entry_outcome(s.last().1) {
            Err(m) => failures(s.drop_last()).push(m),
            Ok(_) => failures(s.drop_last()),
        }
    }
}

/// Reads and builds one raw configuration.
pub fn compile_config(raw: ArgMap) -> (r: Result<BoxCondition, ConditionError>)
    ensures
        r is Ok == (entry_outcome(arg_entries(raw)) is Ok),
        r matches Ok(b) ==> entry_outcome(arg_entries(raw)) matches Ok(c) && built_from(b, c),
        r matches Err(e) ==> entry_outcome(arg_entries(raw)) == Err::<ConfigView, Seq<char>>(e.message()),
{
    match parse_config(raw) {
        Err(e) => Err(e),
        Ok(c) => c.build(),
    }
}

/// `b` is the named condition that the named raw configuration `q` builds.
pub open spec fn built_entry(b: (String, BoxCondition), q: (String, ArgMap)) -> bool {
    &&& b.0@ == q.0@
    &&& entry_outcome(arg_entries(q.1)) matches Ok(c) && built_from(b.1, c)
}

/// Builds every named raw configuration, in order, collecting the errors of
/// all entries that fail rather than stopping at the first.
pub fn build_all(configs: Vec<(String, ArgMap)>) -> (r: Result<Vec<(String, BoxCondition)>, Vec<ConditionError>>)
    ensures
        r is Ok == (failures(configs@.map_values(|p: (String, ArgMap)| raw_view(p))).len() == 0),
        r matches Ok(v) ==> v@.len() == configs@.len() && forall|i: int| 0 <= i < v@.len() ==> #[trigger] built_entry(v@[i], configs@[i]),
        r matches Err(errs) ==> errs@.map_values(|e: ConditionError| e.message()) == failures(
            configs@.map_values(|p: (String, ArgMap)| raw_view(p)),
        ),
{
    let ghost all = configs@;
    let ghost cv = configs@.map_values(|p: (String, ArgMap)| raw_view(p));
    let mut rest = configs;
    let mut built: Vec<(String, BoxCondition)> = Vec::new();
    let mut errors: Vec<ConditionError> = Vec::new();
    let ghost k: int = 0;
    while rest.len() > 0
        invariant
            0 <= k <= all.len(),
            rest@ == all.subrange(k, all.len() as int),
            cv == all.map_values(|p: (String, ArgMap)| raw_view(p)),
            errors@.map_values(|e: ConditionError| e.message()) == failures(cv.subrange(0, k)),
            errors@.len() == 0 ==> built@.len() == k && forall|i: int| 0 <= i < k ==> #[trigger] built_entry(built@[i], all[i]),
        decreases rest@.len(),
    {
        let (name, raw) = rest.remove(0);
        proof {
            assert(all[k] == (name, raw));
            assert(cv.subrange(0, k + 1).drop_last() =~= cv.subrange(0, k));
            assert(cv[k] == raw_view((name, raw)));
        }
        match compile_config(raw) {
            Ok(b) => {
                let ghost before = built@;
                built.push((name, b));
                proof {
                    if errors@.len() == 0 {
                        assert forall|i: int| 0 <= i < k + 1 implies #[trigger] built_entry(built@[i], all[i]) by {
                            if i < k {
                                assert(built@[i] == before[i]);
                            }
                        }
                    }
                }
            },
            Err(e) => {
                errors.push(e);
                proof {
                    assert(errors@.map_values(|e: ConditionError| e.message()) =~=
                        failures(cv.subrange(0, k + 1)));
                }
            },
        }
        proof {
            k = k + 1;
            assert(rest@ =~= all.subrange(k, all.len() as int));
        }
    }
    proof {
        assert(cv.subrange(0, k) =~= cv);
    }
    if errors.len() == 0 {
        Ok(built)
    } else {
        Err(errors)
    }
}

/// `m` is what building the named configurations `configs` and then
/// initializing them among one another gives.
pub open spec fn set_compiled(m: Map<Seq<char>, BoxCondition>, configs: Seq<(String, ArgMap)>) -> bool {
    exists|built: Seq<(String, BoxCondition)>| {
        &&& built.len() == configs.len()
        &&& forall|i: int| 0 <= i < built.len() ==> #[trigger] built_entry(built[i], configs[i])
        &&& m.dom() == env_of(built).dom()
        &&& forall|k: Seq<char>| #[trigger] m.contains_key(k) ==> resolves(env_of(built), k, env_of(built).dom().len(), m[k])
    }
}

/// `r` is what initializing the built set `b` gives: success exactly when
/// every condition resolves, then each one resolved; else the fault of every
/// condition that does not resolve, in order.
pub open spec fn init_outcome(r: Result<Siblings, Vec<ConditionError>>, b: Seq<(String, BoxCondition)>) -> bool {
    &&& (r is Ok <==> unresolved(b, env_of(b)).len() == 0)
    &&& (r matches Err(errs) ==> errs@.map_values(|e: ConditionError| e.message()) == unresolved(b, env_of(b)))
    &&& (r matches Ok(m) ==> sibling_map(m).dom() == env_of(b).dom() && forall|k: Seq<char>|
        #[trigger] sibling_map(m).contains_key(k) ==> resolves(env_of(b), k, env_of(b).dom().len(), sibling_map(m)[k]))
}

/// Compiles a set of named raw configurations with distinct names: every
/// entry is built, then every entry is initialized among the built set.
/// Build errors of all entries are reported together; where there are none,
/// every unresolved reference is.
pub fn compile(configs: Vec<(String, ArgMap)>) -> (r: Result<Siblings, Vec<ConditionError>>)
    requires
        names_of(configs@).no_duplicates(),
    ensures
        failures(configs@.map_values(|p: (String, ArgMap)| raw_view(p))).len() > 0 ==> r is Err,
        r matches Err(errs) ==> (failures(configs@.map_values(|p: (String, ArgMap)| raw_view(p))).len() > 0
            ==> errs@.map_values(|e: ConditionError| e.message()) == failures(
            configs@.map_values(|p: (String, ArgMap)| raw_view(p)),
        )),
        r matches Ok(m) ==> set_compiled(sibling_map(m), configs@),
        failures(configs@.map_values(|p: (String, ArgMap)| raw_view(p))).len() == 0 ==> exists|b: Seq<(String, BoxCondition)>| {
            &&& b.len() == configs@.len()
            &&& forall|i: int| 0 <= i < b.len() ==> #[trigger] built_entry(b[i], configs@[i])
            &&& init_outcome(r, b)
        },
{
    let ghost c = configs@;
    match build_all(configs) {
        Err(errs) => Err(errs),
        Ok(built) => {
            proof {
                assert(names_of(built@) =~= names_of(c)) by {
                    assert forall|i: int| 0 <= i < built@.len() implies names_of(built@)[i] == names_of(c)[i] by {
                        assert(built_entry(built@[i], c[i]));
                    }
                }
            }
            let ghost b = built@;
            let r = init_all(built);
            proof {
                assert(forall|i: int| 0 <= i < b.len() ==> #[trigger] built_entry(b[i], c[i]));
                assert(init_outcome(r, b));
                if r is Ok {
                    let m = r->Ok_0;
                    assert(set_compiled(sibling_map(m), c)) by {
                        assert(forall|i: int| 0 <= i < b.len() ==> #[trigger] built_entry(b[i], c[i]));
                    }
                }
            }
            r
        },
    }
}

/// The registry enumerates exactly the built-in kinds.
pub proof fn lemma_registered_kinds()
    ensures
        registered_kinds().to_set() == set!["static"@, "not"@, "check_fields"@],
        registered_kinds().no_duplicates(),
{
    reveal_strlit("static");
    reveal_strlit("not");
    reveal_strlit("check_fields");
    assert(registered_kinds().to_set() =~= set!["static"@, "not"@, "check_fields"@]) by {
        assert(registered_kinds()[0] == "static"@);
        assert(registered_kinds()[1] == "not"@);
        assert(registered_kinds()[2] == "check_fields"@);
    }
    assert(registered_kinds()[0].len() != registered_kinds()[1].len());
    assert(registered_kinds()[0].len() != registered_kinds()[2].len());
    assert(registered_kinds()[1].len() != registered_kinds()[2].len());
}

/// Building is deterministic in what it decides: two conditions built from
/// the same configuration hold of exactly the same events.
pub proof fn lemma_build_agrees(c: ConfigView, b1: BoxCondition, b2: BoxCondition, e: EventView)
    requires
        built_from(b1, c),
        built_from(b2, c),
    ensures
        condition_holds(b1, e) == condition_holds(b2, e),
{
    match c {
        ConfigView::CheckFields(s) => {
            if let ConditionKind::CheckFields(f1) = *b1.inner {
                if let ConditionKind::CheckFields(f2) = *b2.inner {
                    crate::check_fields::lemma_compiled_agree(f1.predicates@, f2.predicates@, s, e);
                }
            }
        },
        _ => {},
    }
}

} // verus!
