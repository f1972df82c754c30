use dsh_lite::expr::{
    evaluate, evaluate_filled, fill_variables_text, interpolate_json, interpolate_str,
    resolve_reference,
};
use dsh_lite::json::{json_to_text, parse_json};
use dsh_lite::textmap::TextMap;

fn make_results() -> TextMap {
    let mut m = TextMap::new();
    m.insert("check".into(), "interface eth0 is down".into());
    m.insert("empty".into(), "".into());
    m.insert("ok".into(), "all systems go".into());
    m
}

#[test]
fn test_empty_expr_is_true() {
    assert!(evaluate("", &TextMap::new()));
    assert!(evaluate("   ", &TextMap::new()));
}

#[test]
fn test_length_check() {
    let r = make_results();
    assert!(evaluate("steps.check.result length > 0", &r));
    assert!(!evaluate("steps.empty.result length > 0", &r));
    assert!(evaluate("steps.empty.result length < 1", &r));
}

#[test]
fn test_contains() {
    let r = make_results();
    assert!(evaluate("steps.check.result contains \"down\"", &r));
    assert!(!evaluate("steps.check.result contains \"up\"", &r));
}

#[test]
fn test_equality() {
    let r = make_results();
    assert!(evaluate("steps.ok.result == \"all systems go\"", &r));
    assert!(evaluate("steps.ok.result != \"down\"", &r));
}

#[test]
fn test_and_or() {
    let r = make_results();
    assert!(evaluate("steps.check.result length > 0 and steps.ok.result length > 0", &r));
    assert!(!evaluate("steps.check.result length > 0 and steps.empty.result length > 0", &r));
    assert!(evaluate("steps.empty.result length > 0 or steps.ok.result length > 0", &r));
}

#[test]
fn test_not() {
    let r = make_results();
    assert!(evaluate("not steps.empty.result length > 0", &r));
    assert!(!evaluate("not steps.check.result length > 0", &r));
}

#[test]
fn test_truthiness() {
    let r = make_results();
    assert!(evaluate("steps.check.result", &r));
    assert!(!evaluate("steps.empty.result", &r));
}

#[test]
fn operators_inside_quotes_are_text() {
    let mut r = TextMap::new();
    r.insert("a".into(), "this and that".into());
    assert!(evaluate("steps.a.result contains \"this and that\"", &r));
    assert!(evaluate("steps.a.result == \"this and that\" or steps.b.result", &r));
}

#[test]
fn operators_are_words_of_their_own() {
    let mut r = TextMap::new();
    for id in ["contains_check", "length", "a==b", "x!=y", "or", "and", "not"] {
        r.insert(id.into(), "x".into());
        assert!(evaluate(&format!("steps.{id}.result length > 0"), &r), "{id}");
        assert!(evaluate(&format!("steps.{id}.result"), &r), "{id}");
        assert!(evaluate(&format!("steps.{id}.result contains \"x\""), &r), "{id}");
        assert!(!evaluate(&format!("steps.{id}.result != 'x'"), &r), "{id}");
    }
    assert!(evaluate("steps.length.result==\"x\"", &r));
    assert!(!evaluate("steps.length.result!=\"x\"", &r));
    assert!(!evaluate("steps.length.result containsx", &TextMap::new()));
}

#[test]
fn text_stands_in_either_kind_of_quotation_marks() {
    let r = make_results();
    assert!(evaluate("steps.check.result contains 'down'", &r));
    assert!(evaluate("steps.ok.result == 'all systems go'", &r));
    assert!(evaluate("not steps.ok.result contains 'error'", &r));
    assert!(!evaluate("steps.ok.result == \"it's so or so\" and steps.ok.result", &r));
    assert!(evaluate("steps.ok.result != 'say \"and\" or not' or steps.ghost.result", &r));
}

#[test]
fn unknown_references_are_empty() {
    let r = make_results();
    assert_eq!(resolve_reference("steps.missing.result", &r), "");
    assert_eq!(resolve_reference("foo", &r), "");
    assert_eq!(resolve_reference("steps.ok.result", &r), "all systems go");
    assert_eq!(resolve_reference(" 'as it is' ", &r), "as it is");
    assert!(!evaluate("foo", &r));
    assert!(evaluate("foo length < 1", &r));
}

#[test]
fn or_and_not_bind_in_rising_order() {
    let r = make_results();
    let (t, f) = ("steps.ok.result", "steps.empty.result contains \" or \"");
    assert!(evaluate(&format!("{t} or {f} and {f}"), &r));
    assert!(evaluate(&format!("{f} and {f} or {t}"), &r));
    assert!(!evaluate(&format!("not {t} and {f}"), &r));
    assert!(evaluate(&format!("not {f} and {t}"), &r));
    assert!(evaluate(&format!("not {t} or {t}"), &r));
    assert!(!evaluate(&format!("{f} or {f} and {t}"), &r));
}

#[test]
fn placeholders_are_filled_in_operands() {
    let r = make_results();
    let mut v = TextMap::new();
    v.insert("word".into(), "down".into());
    v.insert("id".into(), "check".into());
    v.insert("n".into(), "3".into());
    v.insert("tricky".into(), "a or b == c".into());
    assert!(evaluate_filled("steps.check.result contains '{{word}}'", &r, &v));
    assert!(evaluate_filled("{{steps.check.result}} contains 'eth0'", &r, &v));
    assert!(evaluate_filled("steps.{{id}}.result length > {{n}}", &r, &v));
    assert!(evaluate_filled("{{word}} == 'down'", &r, &v));
    assert!(evaluate_filled("{{tricky}} == 'a or b == c'", &r, &v));
    assert!(!evaluate_filled("{{unknown}}", &r, &v));
    assert!(!evaluate("{{steps.ok.result}}", &r));
}

#[test]
fn a_step_that_never_ran_has_no_result() {
    let r = TextMap::new();
    assert!(!evaluate("steps.ghost.result", &r));
    assert!(evaluate("not steps.ghost.result", &r));
    assert!(evaluate("steps.ghost.result length < 1", &r));
}

#[test]
fn a_reference_gives_the_result_of_its_step() {
    let r = make_results();
    let none = TextMap::new();
    assert_eq!(interpolate_str("{{steps.ok.result}}", &r, &none), "all systems go");
    assert_eq!(
        interpolate_str("<{{steps.empty.result}}> {{steps.ok.result}}!", &r, &none),
        "<> all systems go!"
    );
}

#[test]
fn unknown_placeholders_stay() {
    let r = make_results();
    let none = TextMap::new();
    assert_eq!(
        interpolate_str("{{steps.ghost.result}} {{device}}", &r, &none),
        "{{steps.ghost.result}} {{device}}"
    );
}

#[test]
fn variables_are_filled() {
    let mut v = TextMap::new();
    v.insert("device".into(), "AX-200".into());
    assert_eq!(fill_variables_text("on {{device}}, {{device}}", &v), "on AX-200, AX-200");
    assert_eq!(fill_variables_text("on {{other}}", &v), "on {{other}}");
}

#[test]
fn json_is_filled_at_every_depth() {
    let mut v = TextMap::new();
    v.insert("host".into(), "r1".into());
    let tree = parse_json(r#"{"{{host}}":["ping {{host}}",3,{"a":"{{steps.ok.result}}"}]}"#).unwrap();
    let filled = interpolate_json(&tree, &make_results(), &v);
    assert_eq!(
        parse_json(&json_to_text(&filled)).map(|j| json_to_text(&j)),
        Ok(r#"{"{{host}}":["ping r1",3,{"a":"all systems go"}]}"#.to_string())
    );
}

#[test]
fn what_is_assigned_is_looked_up() {
    let mut m = TextMap::new();
    m.insert("k".into(), "1".into());
    m.insert("l".into(), "2".into());
    m.insert("k".into(), "3".into());
    assert_eq!(m.get("k"), Some(&"3".to_string()));
    assert_eq!(m.get("l"), Some(&"2".to_string()));
    assert_eq!(m.get("m"), None);
}

#[test]
fn a_map_has_one_value_for_a_key() {
    let mut map = TextMap::new();
    map.insert("a".into(), "1".into());
    map.insert("b".into(), "2".into());
    map.insert("a".into(), "3".into());
    assert_eq!(map.len(), 2);
    assert_eq!(map.entry(0), (&"a".to_string(), &"3".to_string()));
    assert_eq!(map.get("a"), Some(&"3".to_string()));
    assert_eq!(map.get("c"), None);
}

#[test]
fn at_least_is_no_more_than() {
    let mut r = TextMap::new();
    r.insert("a".into(), "12345".into());
    assert!(evaluate("steps.a.result length >= 5", &r));
    assert!(!evaluate("steps.a.result length >= 6", &r));
    assert!(!evaluate("steps.a.result length > 5", &r));
    assert!(evaluate("steps.a.result length >4", &r));
    assert!(evaluate("steps.b.result length >= 0", &r));
}

#[test]
fn contains_counts_before_other_operators() {
    let mut r = TextMap::new();
    r.insert("a".into(), "yes".into());
    assert!(evaluate("steps.a.result == x contains y", &r));
    assert!(!evaluate("steps.a.result == x contains z", &r));
    assert!(!evaluate("steps.a.result == \"x contains y\"", &r));
    assert!(evaluate("steps.a.result != b length > 2", &r));
}
