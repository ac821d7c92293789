use sluice::http_msg::{HeaderMap, HttpMsg};

#[test]
fn body_roundtrips_through_base64() {
    let mut m = HttpMsg {
        method: "POST".into(),
        path: "/v1/messages".into(),
        headers: HeaderMap::new(),
        body_b64: String::new(),
    };
    m.set_body_bytes(b"hello");
    assert_eq!(m.body_bytes().unwrap(), b"hello");
}

#[test]
fn set_header_lowercases_name() {
    let mut m = HttpMsg {
        method: "GET".into(),
        path: "/".into(),
        headers: HeaderMap::new(),
        body_b64: String::new(),
    };
    m.set_header("X-Tag", "seen");
    assert_eq!(m.headers.get("x-tag").map(String::as_str), Some("seen"));
}

#[test]
fn delete_header_is_case_insensitive() {
    let mut m = HttpMsg {
        method: "GET".into(),
        path: "/".into(),
        headers: HeaderMap::new(),
        body_b64: String::new(),
    };
    m.set_header("x-tag", "seen");
    assert!(m.delete_header("X-TAG"));
    assert!(m.headers.is_empty());
}
