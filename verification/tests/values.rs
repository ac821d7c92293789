use sluice::json::{parse, Double, Json, JsonMap, Num, Number};
use sluice::llm::tokenize::{count_messages, count_tokens};
use sluice::llm::Message;
use sluice::text::{decimal_text, is_before, join, split_once, split_once_at, strip_prefix, trim};

#[test]
fn json_survives_being_written_and_read() {
    for text in [
        "null",
        "true",
        "0",
        "18446744073709551615",
        "-9223372036854775808",
        "0.1",
        "1e300",
        "\"a\\\"b\\u0000\"",
        "[]",
        "[1,[2,{\"a\":null}]]",
        "{\"a\":1,\"b\":{\"c\":\"d\"}}",
    ] {
        let v = parse(text.as_bytes()).unwrap();
        assert_eq!(parse(v.to_text().as_bytes()).unwrap(), v, "{text}");
    }
}

#[test]
fn object_members_are_sorted_and_the_last_wins() {
    let v = parse(br#"{"b":1,"a":2,"b":3}"#).unwrap();
    assert_eq!(v.to_text(), r#"{"a":2,"b":3}"#);
    let m = v.as_object().unwrap();
    assert_eq!(m.len(), 2);
    assert_eq!(m.key_at(0), "a");
    assert_eq!(m.val_at(1).as_u64(), Some(3));
}

#[test]
fn numbers_are_told_apart() {
    let kind = |text: &str| match parse(text.as_bytes()).unwrap() {
        Json::Number(n) => n.kind(),
        other => panic!("{other:?}"),
    };
    assert_eq!(kind("7"), Num::PosInt(7));
    assert_eq!(kind("-7"), Num::NegInt(-7));
    assert_eq!(kind("7.0"), Num::Float(7.0f64.to_bits()));
    assert_eq!(Number::from_u64(3).as_double(), 3.0f64.to_bits());
    assert!(Number::from_bits(f64::NAN.to_bits()).is_none());
    assert!(Number::from_bits(f64::INFINITY.to_bits()).is_none());
    assert_eq!(Number::from_bits(0.5f64.to_bits()).unwrap().as_double(), 0.5f64.to_bits());
    assert_eq!(
        parse(b"{\"x\":-3}").unwrap().double_at("x"),
        Some(Double { bits: (-3.0f64).to_bits() })
    );
}

#[test]
fn faulty_json_is_refused_with_a_reason() {
    for text in ["", "{", "[1,]", "nul", "\"a", "{\"a\"}", "1 2"] {
        assert!(!parse(text.as_bytes()).unwrap_err().is_empty(), "{text}");
    }
    assert!(parse(b"\xff").is_err());
}

#[test]
fn maps_insert_and_replace() {
    let mut m = JsonMap::new();
    assert!(m.is_empty());
    m.insert("k".to_string(), Json::Null);
    m.insert("k".to_string(), Json::Bool(true));
    assert_eq!(m.len(), 1);
    assert!(m.contains_key("k") && !m.contains_key("l"));
    assert_eq!(m.get("k").unwrap().as_bool(), Some(true));
    let again = m.dup();
    assert_eq!(again, m);
}

#[test]
fn texts_are_cut_like_they_should_be() {
    assert_eq!(split_once("a.b.c", '.'), Some(("a", "b.c")));
    assert_eq!(split_once("abc", '.'), None);
    assert_eq!(split_once_at("data:x;base64,y", ";base64,"), Some(("data:x", "y")));
    assert_eq!(split_once_at("abc", ";"), None);
    assert_eq!(strip_prefix("data:x", "data:"), Some("x"));
    assert_eq!(strip_prefix("dat", "data:"), None);
    assert_eq!(trim(" \t\u{a0}\u{3000}a b\n\u{85}"), "a b");
    assert_eq!(trim("\u{2003}"), "");
    assert_eq!(join(&vec!["a".to_string(), "b".to_string()], ", "), "a, b");
    assert_eq!(join(&vec![], ", "), "");
    assert_eq!(decimal_text(0), "0");
    assert_eq!(decimal_text(u64::MAX), "18446744073709551615");
}

#[test]
fn texts_are_ordered_by_their_characters() {
    let mut words = vec!["b", "", "ab", "a", "é", "z", "\u{10ffff}", "\u{ffff}"];
    words.sort();
    for pair in words.windows(2) {
        assert!(is_before(pair[0], pair[1]), "{pair:?}");
        assert!(!is_before(pair[1], pair[0]), "{pair:?}");
    }
}

#[test]
fn trimming_agrees_with_the_standard_library() {
    for code in 0..0x1_1000u32 {
        if let Some(c) = char::from_u32(code) {
            let s = format!("{c}x{c}");
            assert_eq!(trim(&s), s.trim(), "{code:x}");
        }
    }
}

#[test]
fn token_counts_round_up() {
    let count = |text: &str| count_tokens("p", "m", text).0;
    assert_eq!(count("abcd"), 1);
    assert_eq!(count("abcde"), 2);
    assert_eq!(count("éééé"), 1);
    let message = |text: &str| Message { role: "user".to_string(), content: text.to_string() };
    assert_eq!(count_messages("p", "m", &[message("abcd"), message("a")]).0, 2);
    assert!(count("abcdeabcde") <= count("abcde") + count("abcde"));
}
