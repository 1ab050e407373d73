use std::sync::Arc;

use conditions::check_fields::{build_predicates, CheckFieldsConfig};
use conditions::condition::{BoxCondition, Condition};
use conditions::config::{compile, compile_config, condition_types, lookup_kind, parse_config};
use conditions::error::report;
use conditions::event::{CheckFieldsPredicateArg, Event};
use conditions::maps::{ArgMap, Siblings};
use conditions::not::NotConfig;
use conditions::static_value::StaticConfig;
use conditions::test_def::TestInput;
use indexmap::IndexMap;

fn text(s: &str) -> CheckFieldsPredicateArg {
    CheckFieldsPredicateArg::String(s.to_owned())
}

fn raw(entries: &[(&str, CheckFieldsPredicateArg)]) -> ArgMap {
    let mut m = IndexMap::new();
    for (k, v) in entries {
        m.insert(k.to_string(), v.clone());
    }
    m
}

fn compile_err(entries: &[(&str, CheckFieldsPredicateArg)]) -> String {
    compile_config(raw(entries)).err().map(|e| e.to_string()).unwrap_or("".to_owned())
}

fn event_with(path: &str, value: CheckFieldsPredicateArg) -> Event {
    let mut e = Event::from_message("");
    e.insert(path.to_owned(), value);
    e
}

#[test]
fn list_types() {
    assert_eq!(condition_types(), ["static", "not", "check_fields"]);
}

#[test]
fn parse_bad_config_type() {
    assert_eq!(
        compile_err(&[("type", text("not a real type")), ("value", CheckFieldsPredicateArg::Boolean(false))]),
        "unrecognized type 'not a real type'".to_owned(),
    );
}

#[test]
fn parse_bad_config_missing_type() {
    assert_eq!(
        compile_err(&[("nottype", text("missing a type here")), ("value", CheckFieldsPredicateArg::Boolean(false))]),
        "missing field 'type'".to_owned(),
    );
}

#[test]
fn parse_bad_config_extra_field() {
    assert_eq!(
        compile_err(&[
            ("type", text("static")),
            ("value", CheckFieldsPredicateArg::Boolean(false)),
            ("extra_field", text("is unexpected")),
        ]),
        "unknown field 'extra_field', expected 'value'".to_owned(),
    );
}

#[test]
fn parse_bad_config_missing_field() {
    assert_eq!(compile_err(&[("type", text("static"))]), "missing field 'value'".to_owned());
}

#[test]
fn check_child_static_true() {
    let mut v: Siblings = IndexMap::new();
    v.insert("foo".to_owned(), Arc::new(BoxCondition::from_static(StaticConfig::new(true))));
    let mut not = NotConfig::new("foo".to_owned()).build();
    not.init(&v).unwrap();
    assert_eq!(not.check(&Event::from_message("")), false);
}

#[test]
fn check_child_static_false() {
    let mut v: Siblings = IndexMap::new();
    v.insert("foo".to_owned(), Arc::new(BoxCondition::from_static(StaticConfig::new(false))));
    let mut not = NotConfig::new("foo".to_owned()).build();
    not.init(&v).unwrap();
    assert_eq!(not.check(&Event::from_message("")), true);
}

#[test]
fn check_not_childless() {
    let mut not = NotConfig::new("foo".to_owned()).build();
    assert_eq!(not.init(&IndexMap::new()).unwrap_err().to_string(), "failed to find condition 'foo'");
}

#[test]
fn check_static_true() {
    assert_eq!(StaticConfig { value: true }.check(&Event::from_message("")), true);
}

#[test]
fn check_static_false() {
    assert_eq!(StaticConfig { value: false }.check(&Event::from_message("")), false);
}

#[test]
fn lookup_registered_and_unknown_kinds() {
    assert_eq!(lookup_kind("static"), Some(0));
    assert_eq!(lookup_kind("not"), Some(1));
    assert_eq!(lookup_kind("check_fields"), Some(2));
    assert_eq!(lookup_kind("regex"), None);
}

#[test]
fn parse_bad_config_wrong_value_types() {
    assert_eq!(
        compile_err(&[("type", text("static")), ("value", text("yes"))]),
        "invalid type for field 'value', expected a boolean",
    );
    assert_eq!(
        compile_err(&[("type", text("not")), ("child", CheckFieldsPredicateArg::Integer(3))]),
        "invalid type for field 'child', expected a string",
    );
    assert_eq!(
        compile_err(&[("type", CheckFieldsPredicateArg::Boolean(true))]),
        "invalid type for field 'type', expected a string",
    );
}

#[test]
fn parse_not_unknown_field_lists_child() {
    assert_eq!(
        compile_err(&[("type", text("not")), ("value", CheckFieldsPredicateArg::Boolean(true))]),
        "unknown field 'value', expected 'child'",
    );
    assert_eq!(compile_err(&[("type", text("not"))]), "missing field 'child'");
}

#[test]
fn parse_static_config() {
    let c = parse_config(raw(&[("value", CheckFieldsPredicateArg::Boolean(true)), ("type", text("static"))])).ok().unwrap();
    let b = c.build().ok().unwrap();
    assert!(b.check(&Event::new()));
}

#[test]
fn check_fields_equals_integer() {
    let c = compile_config(raw(&[("type", text("check_fields")), ("status.equals", CheckFieldsPredicateArg::Integer(200))]))
        .ok()
        .unwrap();
    assert!(c.check(&event_with("status", CheckFieldsPredicateArg::Integer(200))));
    assert!(!c.check(&event_with("status", CheckFieldsPredicateArg::Integer(404))));
    assert!(!c.check(&Event::from_message("")));
}

#[test]
fn check_fields_equals_text_and_coercions() {
    let c = compile_config(raw(&[
        ("type", text("check_fields")),
        ("host.name.equals", text("alpha")),
        ("ok.equals", CheckFieldsPredicateArg::Boolean(true)),
    ]))
    .ok()
    .unwrap();
    let mut e = event_with("host.name", text("alpha"));
    e.insert("ok".to_owned(), text("true"));
    assert!(c.check(&e));
    e.insert("ok".to_owned(), CheckFieldsPredicateArg::Boolean(false));
    assert!(!c.check(&e));
    e.insert("ok".to_owned(), CheckFieldsPredicateArg::Boolean(true));
    e.insert("host.name".to_owned(), text("beta"));
    assert!(!c.check(&e));
}

#[test]
fn check_fields_float_by_bits() {
    let c = compile_config(raw(&[("type", text("check_fields")), ("ratio.equals", CheckFieldsPredicateArg::Float(1.5f64.to_bits()))]))
        .ok()
        .unwrap();
    assert!(c.check(&event_with("ratio", CheckFieldsPredicateArg::Float(1.5f64.to_bits()))));
    assert!(!c.check(&event_with("ratio", CheckFieldsPredicateArg::Integer(1))));
}

#[test]
fn check_fields_empty_matches_everything() {
    let c = compile_config(raw(&[("type", text("check_fields"))])).ok().unwrap();
    assert!(c.check(&Event::new()));
    assert!(c.check(&Event::from_message("anything")));
}

#[test]
fn check_fields_malformed_keys() {
    for key in ["foo", ".eq", "foo."] {
        let mut m: ArgMap = IndexMap::new();
        m.insert(key.to_owned(), CheckFieldsPredicateArg::Integer(1));
        let errs = build_predicates(&m).err().unwrap();
        assert_eq!(errs.len(), 1);
        assert_eq!(
            errs[0].to_string(),
            format!("predicate not found in check_fields value '{}', format must be <target>.<predicate>", key)
        );
    }
}

#[test]
fn check_fields_unknown_predicate() {
    let mut m: ArgMap = IndexMap::new();
    m.insert("status.regex".to_owned(), text("2.."));
    let config = CheckFieldsConfig { predicates: m };
    assert_eq!(
        config.build().err().unwrap().to_string(),
        "predicate type 'regex' not recognized in check_fields value 'status.regex'"
    );
}

#[test]
fn check_fields_errors_are_gathered() {
    assert_eq!(
        compile_err(&[
            ("type", text("check_fields")),
            ("foo", CheckFieldsPredicateArg::Integer(1)),
            ("ok.equals", CheckFieldsPredicateArg::Integer(1)),
            ("bar.", CheckFieldsPredicateArg::Integer(2)),
        ]),
        "failed to parse predicates:\n\
         predicate not found in check_fields value 'foo', format must be <target>.<predicate>\n\
         predicate not found in check_fields value 'bar.', format must be <target>.<predicate>",
    );
}

#[test]
fn compile_static_not_set() {
    let configs = vec![
        ("a".to_owned(), raw(&[("type", text("static")), ("value", CheckFieldsPredicateArg::Boolean(true))])),
        ("b".to_owned(), raw(&[("type", text("static")), ("value", CheckFieldsPredicateArg::Boolean(false))])),
        ("c".to_owned(), raw(&[("type", text("not")), ("child", text("b"))])),
    ];
    let set = compile(configs).ok().unwrap();
    assert_eq!(set.len(), 3);
    let e = Event::from_message("any");
    assert!(set["a"].check(&e));
    assert!(!set["b"].check(&e));
    assert!(set["c"].check(&e));
}

#[test]
fn compile_forward_reference() {
    let configs = vec![
        ("c".to_owned(), raw(&[("type", text("not")), ("child", text("a"))])),
        ("a".to_owned(), raw(&[("type", text("static")), ("value", CheckFieldsPredicateArg::Boolean(true))])),
    ];
    let set = compile(configs).ok().unwrap();
    assert!(!set["c"].check(&Event::new()));
}

#[test]
fn compile_reports_unresolved_and_build_errors() {
    let configs = vec![
        ("c".to_owned(), raw(&[("type", text("not")), ("child", text("nope"))])),
        ("d".to_owned(), raw(&[("type", text("not")), ("child", text("gone"))])),
    ];
    let errs: Vec<String> = compile(configs).err().unwrap().iter().map(|e| e.to_string()).collect();
    assert_eq!(errs, ["failed to find condition 'nope'", "failed to find condition 'gone'"]);

    let configs = vec![
        ("x".to_owned(), raw(&[("type", text("bogus"))])),
        ("y".to_owned(), raw(&[("type", text("static"))])),
    ];
    let errs: Vec<String> = compile(configs).err().unwrap().iter().map(|e| e.to_string()).collect();
    assert_eq!(errs, ["unrecognized type 'bogus'", "missing field 'value'"]);
}

#[test]
fn building_twice_agrees() {
    let entries = [("type", text("check_fields")), ("status.equals", CheckFieldsPredicateArg::Integer(200))];
    let first = compile_config(raw(&entries)).ok().unwrap();
    let second = compile_config(raw(&entries)).ok().unwrap();
    for v in [200, 404] {
        let e = event_with("status", CheckFieldsPredicateArg::Integer(v));
        assert_eq!(first.check(&e), second.check(&e));
    }
}

#[test]
fn event_get_returns_latest_value() {
    let mut e = event_with("a", CheckFieldsPredicateArg::Integer(1));
    e.insert("a".to_owned(), CheckFieldsPredicateArg::Integer(2));
    assert!(matches!(e.get("a"), Some(CheckFieldsPredicateArg::Integer(2))));
    assert!(e.get("b").is_none());
    assert!(matches!(Event::from_message("hi").get("message"), Some(CheckFieldsPredicateArg::String(s)) if s == "hi"));
}

#[test]
fn test_input_default_type() {
    assert_eq!(conditions::default_input_type(), "raw");
    assert_eq!(TestInput::new("in".to_owned(), None, None).type_str, "raw");
    assert_eq!(TestInput::new("in".to_owned(), Some("log".to_owned()), None).type_str, "log");
}

#[test]
fn compile_resolves_chains_of_composites() {
    let configs = vec![
        ("c".to_owned(), raw(&[("type", text("not")), ("child", text("b"))])),
        ("b".to_owned(), raw(&[("type", text("not")), ("child", text("a"))])),
        ("a".to_owned(), raw(&[("type", text("static")), ("value", CheckFieldsPredicateArg::Boolean(true))])),
    ];
    let set = compile(configs).ok().unwrap();
    let e = Event::new();
    assert!(set["a"].check(&e));
    assert!(!set["b"].check(&e));
    assert!(set["c"].check(&e));
}

#[test]
fn compile_rejects_cycles() {
    let configs = vec![
        ("x".to_owned(), raw(&[("type", text("not")), ("child", text("y"))])),
        ("y".to_owned(), raw(&[("type", text("not")), ("child", text("x"))])),
        ("z".to_owned(), raw(&[("type", text("not")), ("child", text("z"))])),
    ];
    let errs: Vec<String> = compile(configs).err().unwrap().iter().map(|e| e.to_string()).collect();
    assert_eq!(
        errs,
        ["condition 'y' refers to itself", "condition 'x' refers to itself", "condition 'z' refers to itself"]
    );
}

fn equals_check(operand: CheckFieldsPredicateArg, field: CheckFieldsPredicateArg) -> bool {
    let c = compile_config(raw(&[("type", text("check_fields")), ("status.equals", operand)])).ok().unwrap();
    c.check(&event_with("status", field))
}

#[test]
fn text_operand_compares_text_form() {
    assert!(equals_check(text("200"), CheckFieldsPredicateArg::Integer(200)));
    assert!(equals_check(text("-17"), CheckFieldsPredicateArg::Integer(-17)));
    assert!(equals_check(text("-9223372036854775808"), CheckFieldsPredicateArg::Integer(i64::MIN)));
    assert!(!equals_check(text("0200"), CheckFieldsPredicateArg::Integer(200)));
    assert!(!equals_check(text("201"), CheckFieldsPredicateArg::Integer(200)));
    assert!(equals_check(text("0"), CheckFieldsPredicateArg::Integer(0)));
    assert!(equals_check(text("true"), CheckFieldsPredicateArg::Boolean(true)));
    assert!(!equals_check(text("true"), CheckFieldsPredicateArg::Boolean(false)));
    assert!(!equals_check(text("1.5"), CheckFieldsPredicateArg::Float(1.5f64.to_bits())));
}

#[test]
fn integer_operand_parses_text_field() {
    let op = || CheckFieldsPredicateArg::Integer(200);
    assert!(equals_check(op(), text("200")));
    assert!(equals_check(op(), text("+200")));
    assert!(equals_check(op(), text("0200")));
    assert!(!equals_check(op(), text("404")));
    assert!(!equals_check(op(), text("abc")));
    assert!(!equals_check(op(), text("")));
    assert!(!equals_check(op(), text("-")));
    assert!(!equals_check(op(), text("99999999999999999999999")));
    assert!(equals_check(CheckFieldsPredicateArg::Integer(-5), text("-5")));
    assert!(equals_check(CheckFieldsPredicateArg::Integer(i64::MIN), text("-9223372036854775808")));
    assert!(!equals_check(op(), CheckFieldsPredicateArg::Boolean(true)));
}

#[test]
fn report_joins_several_errors_under_a_header() {
    let configs = vec![
        ("x".to_owned(), raw(&[("type", text("bogus"))])),
        ("y".to_owned(), raw(&[("type", text("static"))])),
    ];
    let errs = compile(configs).err().unwrap();
    assert_eq!(report(&errs), "failed to build conditions:\nunrecognized type 'bogus'\nmissing field 'value'");
    let one = compile(vec![("x".to_owned(), raw(&[("type", text("bogus"))]))]).err().unwrap();
    assert_eq!(report(&one), "unrecognized type 'bogus'");
}
