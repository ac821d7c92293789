use sluice::observability::{correlation_id_from, is_valid_correlation_id};

#[test]
fn valid_correlation_id_accepts_ascii_printable() {
    assert!(is_valid_correlation_id("abc-123_XYZ"));
    assert!(is_valid_correlation_id("a"));
    assert!(is_valid_correlation_id("has spaces and punctuation!"));
}

#[test]
fn valid_correlation_id_rejects_empty() {
    assert!(!is_valid_correlation_id(""));
}

#[test]
fn valid_correlation_id_rejects_over_200_bytes() {
    let too_long = "a".repeat(201);
    assert!(!is_valid_correlation_id(&too_long));
    let exactly_200 = "a".repeat(200);
    assert!(is_valid_correlation_id(&exactly_200));
}

#[test]
fn valid_correlation_id_rejects_control_chars() {
    assert!(!is_valid_correlation_id("abc\ndef"));
    assert!(!is_valid_correlation_id("abc\tdef"));
    assert!(!is_valid_correlation_id("abc\r\ndef"));
    assert!(!is_valid_correlation_id("\u{7f}"));
}

#[test]
fn valid_correlation_id_rejects_non_ascii() {
    assert!(!is_valid_correlation_id("héllo"));
}

#[test]
fn correlation_id_from_adopts_valid_inbound() {
    assert_eq!(correlation_id_from(Some("req-42")), "req-42");
}

#[test]
fn correlation_id_from_generates_when_none() {
    let id = correlation_id_from(None);
    assert!(is_valid_correlation_id(&id));
    assert!(uuid::Uuid::parse_str(&id).is_ok());
}

#[test]
fn correlation_id_from_generates_when_inbound_invalid() {
    let too_long = "a".repeat(201);
    let generated = correlation_id_from(Some(&too_long));
    assert_ne!(generated, too_long);
    assert!(uuid::Uuid::parse_str(&generated).is_ok());

    let with_control = "bad\nid";
    let generated = correlation_id_from(Some(with_control));
    assert_ne!(generated, with_control);
    assert!(uuid::Uuid::parse_str(&generated).is_ok());
}

#[test]
fn correlation_id_from_generates_when_inbound_empty() {
    let generated = correlation_id_from(Some(""));
    assert!(uuid::Uuid::parse_str(&generated).is_ok());
}
