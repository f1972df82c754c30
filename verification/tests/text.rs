use dsh_lite::json::{json_str, json_to_text, parse_bytes, parse_json, parse_or_null, Json};
use dsh_lite::skill::{extract_step_refs, mode_of, parse_mode};
use dsh_lite::sorting::{sort_texts, text_at_most};
use dsh_lite::text::{
    after_prefix, back_text, byte_len_of, char_is_space, contains_text, decimal_text, ends_with,
    escape_json, front_text, hex4_text, hex_text, join_texts, lines_of, listed, parse_usize,
    replace_text, starts_with, trim_text, width_of,
};
use dsh_lite::types::ExecMode;
use dsh_lite::yaml::{yaml_to_json, Node};

#[test]
fn spaces_are_those_of_std() {
    for code in 0..=0x10ffffu32 {
        if let Some(c) = char::from_u32(code) {
            assert_eq!(char_is_space(c), c.is_whitespace(), "U+{code:04X}");
        }
    }
}

#[test]
fn widths_are_those_of_std() {
    for c in ['a', '\u{7f}', '\u{80}', 'é', '\u{7ff}', '\u{800}', '日', '\u{ffff}', '\u{10000}', '😀'] {
        assert_eq!(width_of(c), c.len_utf8());
    }
    assert_eq!(byte_len_of("a日😀"), 8);
}

#[test]
fn texts_are_trimmed_and_searched() {
    assert_eq!(trim_text(" \t a b \n"), "a b");
    assert!(contains_text("abcabd", "abd"));
    assert!(contains_text("x", ""));
    assert!(!contains_text("ab", "abc"));
    assert!(starts_with("abc", "ab") && !starts_with("abc", "b"));
    assert!(ends_with("abc", "bc") && !ends_with("abc", "b"));
    assert_eq!(after_prefix("key=value", "key="), Some("value".to_string()));
    assert_eq!(after_prefix("value", "key="), None);
}

#[test]
fn texts_are_replaced_and_joined() {
    assert_eq!(replace_text("aaa", "aa", "b"), "ba");
    assert_eq!(replace_text("a-b-c", "-", " "), "a b c");
    assert_eq!(join_texts(&vec!["a".into(), "".into(), "b".into()], ","), "a,,b");
    assert_eq!(join_texts(&vec![], ","), "");
    assert!(listed(&vec!["a".into()], "a") && !listed(&vec![], "a"));
}

#[test]
fn lines_are_those_of_std() {
    for text in ["", "a", "a\n", "a\r\nb", "\n\n", "a\nb\r", "\r\n\r\n", "a\n\nb"] {
        let expected: Vec<String> = text.lines().map(String::from).collect();
        assert_eq!(lines_of(text), expected, "{text:?}");
    }
}

#[test]
fn numbers_are_written_and_read() {
    for n in [0u64, 7, 10, 1234567890, u64::MAX] {
        assert_eq!(decimal_text(n), n.to_string());
        assert_eq!(hex_text(n), format!("{n:x}"));
        assert_eq!(hex4_text(n), format!("{n:04x}"));
    }
    for text in ["0", "42", "+7", "", "+", "-1", " 1", "1a", "18446744073709551615", "18446744073709551616", "007"] {
        assert_eq!(parse_usize(text), text.parse::<usize>().ok(), "{text:?}");
    }
}

#[test]
fn ends_of_a_text_stay_whole() {
    assert_eq!(front_text("a日b", 3), "a");
    assert_eq!(front_text("a日b", 4), "a日");
    assert_eq!(back_text("a日b", 3), "b");
    assert_eq!(back_text("a日b", 4), "日b");
    assert_eq!(front_text("ab", 10), "ab");
    assert_eq!(back_text("ab", 0), "");
}

#[test]
fn texts_sort_as_strings_do() {
    let mut expected: Vec<String> =
        ["b", "a", "", "ab", "日", "B", "é", "z"].iter().map(|s| s.to_string()).collect();
    let sorted = sort_texts(expected.iter().map(|s| s.clone()).collect());
    expected.sort();
    assert_eq!(sorted, expected);
    assert!(text_at_most("a", "ab") && text_at_most("a", "a") && !text_at_most("b", "a"));
}

#[test]
fn case_and_letters_are_those_of_unicode() {
    assert_eq!(parse_mode("TODO"), ExecMode::Todo);
    assert_eq!(mode_of("TODO"), ExecMode::Plan);
    assert_eq!(extract_step_refs("steps.é9-_x y"), vec!["é9-_x".to_string()]);
}

#[test]
fn json_is_read() {
    let tree = parse_json(r#"{"a":[1,-2,2.5,"x",null,true]}"#).unwrap();
    match tree.get_items("a") {
        Some(items) => {
            assert!(matches!(items[0], Json::UInt(1)));
            assert!(matches!(items[1], Json::Int(-2)));
            assert!(matches!(&items[2], Json::Real(t) if t == "2.5"));
            assert!(matches!(&items[3], Json::Text(t) if t == "x"));
            assert!(matches!(items[4], Json::Null));
            assert!(matches!(items[5], Json::Bool(true)));
        },
        None => panic!("no items"),
    }
    assert!(parse_json("{").is_err());
    assert!(matches!(parse_or_null("{"), Json::Null));
    assert_eq!(parse_json("7").unwrap().get("a").is_none(), true);
}

#[test]
fn json_is_read_from_bytes() {
    assert!(matches!(parse_bytes(&b"[]".to_vec()), Some(Json::Array(a)) if a.is_empty()));
    assert!(parse_bytes(&vec![0xff]).is_none());
}

#[test]
fn json_is_written_compactly() {
    let tree = Json::Object(vec![
        ("b".into(), Json::Real("0.0".into())),
        ("a".into(), Json::Array(vec![json_str("q\""), Json::Null])),
    ]);
    assert_eq!(json_to_text(&tree), r#"{"a":["q\"",null],"b":0.0}"#);
}

#[test]
fn numbers_become_those_of_json() {
    let real = |text: &str| json_to_text(&Json::Real(text.into()));
    assert_eq!(real("2.50"), "2.5");
    assert_eq!(real("1e3"), "1000.0");
    assert_eq!(real(".nan"), "null");
    assert_eq!(real("x"), "null");
    assert!(matches!(yaml_to_json(&Node::Real("2.50".into())), Json::Real(t) if t == "2.5"));
    assert!(matches!(yaml_to_json(&Node::Real(".inf".into())), Json::Null));
}

#[test]
fn the_last_of_two_fields_of_one_name_is_written() {
    let tree = Json::Object(vec![
        ("b".into(), Json::UInt(1)),
        ("a".into(), Json::Int(2)),
        ("b".into(), Json::Int(-3)),
    ]);
    assert_eq!(json_to_text(&tree), r#"{"a":2,"b":-3}"#);
}

#[test]
fn fields_are_looked_up() {
    let tree = parse_json(r#"{"n":3,"t":"x","neg":-1}"#).unwrap();
    assert_eq!(tree.get_uint("n"), Some(3));
    assert_eq!(tree.get_uint("neg"), None);
    assert_eq!(tree.get_text("t"), Some(&"x".to_string()));
    assert_eq!(tree.get_text("n"), None);
}

#[test]
fn escapes_are_exact() {
    assert_eq!(escape_json("\r"), "\\r");
    assert_eq!(escape_json(""), "");
}
