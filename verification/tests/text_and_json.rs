use videocall::json::{parse_json, parse_json_bytes, write_json, Json, Members};
use videocall::text::{
    chars_of, comes_before, decimal_string, join, join3, padded_left, same_ignoring_ascii_case,
    split_string, starts_with, string_of, to_ascii_lower, trim, whitespace,
};

#[test]
fn white_space_is_what_std_says() {
    for n in 0..=0x10FFFFu32 {
        if let Some(c) = char::from_u32(n) {
            assert_eq!(whitespace(c), c.is_whitespace(), "{:?}", c);
            assert_eq!(to_ascii_lower(c), c.to_ascii_lowercase(), "{:?}", c);
        }
    }
}

#[test]
fn trimming() {
    for s in ["", " ", " a ", "\u{3000}x y\t\n", "abc"] {
        assert_eq!(trim(s), s.trim());
    }
}

#[test]
fn splitting() {
    for s in ["", ".", "a.b", "a..b.", "no dots", ".é."] {
        let expected: Vec<&str> = s.split('.').collect();
        assert_eq!(split_string(s, '.'), expected);
    }
}

#[test]
fn order_is_that_of_std() {
    let words = ["", "a", "aa", "ab", "b", "Z", "é", "日本", "\u{10000}", "\u{ffff}"];
    for a in words {
        for b in words {
            assert_eq!(comes_before(a, b), a < b, "{} {}", a, b);
        }
    }
}

#[test]
fn prefixes_and_case() {
    assert!(starts_with("local-1", "local-"));
    assert!(starts_with("x", ""));
    assert!(!starts_with("loc", "local-"));
    assert!(same_ignoring_ascii_case("StandUp é", "standup é"));
    assert!(!same_ignoring_ascii_case("É", "é"));
    assert!(!same_ignoring_ascii_case("a", "ab"));
}

#[test]
fn numbers_and_padding() {
    for n in [0, 7, 10, 99, 1234567890, u64::MAX] {
        assert_eq!(decimal_string(n), n.to_string());
    }
    assert_eq!(padded_left("79", 5), format!("{:>5}", "79"));
    assert_eq!(padded_left("123456", 5), "123456");
    assert_eq!(padded_left("é", 3), format!("{:>3}", "é"));
}

#[test]
fn pieces() {
    assert_eq!(join("a", "b"), "ab");
    assert_eq!(join3("a", "b", "c"), "abc");
    assert_eq!(string_of(&chars_of("héllo"), 1, 3), "él");
}

#[test]
fn documents_are_read() {
    let doc = parse_json(r#"{"a": [1, -2, 1.5, 18446744073709551615], "b": {"c": null, "d": true}, "e": "x"}"#)
        .unwrap();
    let a = doc.get_array("a").unwrap();
    assert_eq!(a[0], Json::Number(Some(1)));
    assert_eq!(a[1], Json::Number(Some(-2)));
    assert_eq!(a[2], Json::Number(None));
    assert_eq!(a[3], Json::Number(Some(u64::MAX as i128)));
    assert_eq!(doc.get("b").unwrap().get("c"), Some(&Json::Null));
    assert_eq!(doc.get("b").unwrap().get("d"), Some(&Json::Bool(true)));
    assert_eq!(doc.get_str("e"), Some("x"));
    assert_eq!(doc.get("missing"), None);
    assert_eq!(doc.get_str("a"), None);
    assert_eq!(a[0].get("x"), None);
    assert_eq!(doc.duplicate(), doc);
}

#[test]
fn the_last_of_two_members_counts() {
    let doc = parse_json(r#"{"a": 1, "a": 2}"#).unwrap();
    assert_eq!(doc.get("a"), Some(&Json::Number(Some(2))));
    let built = Members::new().with_text("k", "1").with_text("k", "2").into_json();
    assert_eq!(built.get_str("k"), Some("2"));
    assert_eq!(write_json(&built), r#"{"k":"2"}"#);
}

#[test]
fn errors_are_those_of_serde_json() {
    for bad in ["", "{", "[1,]", "nul", "\"\u{1}\""] {
        let expected = serde_json::from_str::<serde_json::Value>(bad).unwrap_err();
        assert_eq!(parse_json(bad), Err(expected.to_string()));
        assert_eq!(parse_json_bytes(bad.as_bytes()), None);
    }
    assert_eq!(parse_json_bytes(b"\"\xff\""), None);
    assert_eq!(parse_json_bytes(b"[]"), Some(Json::Array(Vec::new())));
}

#[test]
fn documents_are_nested_up_to_a_limit() {
    let nested = |n: usize| format!("{}{}", "[".repeat(n), "]".repeat(n));
    assert!(parse_json(&nested(127)).is_ok());
    assert!(parse_json(&nested(128)).is_err());
    let deepest = parse_json(&nested(127)).unwrap();
    assert_eq!(write_json(&deepest), nested(127));
}

#[test]
fn written_documents_are_read_back() {
    let doc = Members::new()
        .with_text("quote", "say \"hi\"\n\u{0}é")
        .with("number", Json::Number(Some(-7)))
        .with("big", Json::Number(Some(u64::MAX as i128)))
        .with("list", Json::Array(vec![Json::Null, Json::Bool(false)]))
        .into_json();
    let text = write_json(&doc);
    assert_eq!(
        text,
        r#"{"big":18446744073709551615,"list":[null,false],"number":-7,"quote":"say \"hi\"\n\u0000é"}"#
    );
    let back = parse_json(&text).unwrap();
    assert_eq!(back.get_str("quote"), doc.get_str("quote"));
    assert_eq!(back.get("list"), doc.get("list"));
    assert_eq!(back.get("number"), doc.get("number"));
    assert_eq!(back.get("big"), doc.get("big"));
}
