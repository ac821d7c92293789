use base64::Engine;
use hmac::Mac;
use sluice::directive::{Directive, DirectiveError, EmitChunk, Op, RespSpec};
use sluice::http_msg::HeaderMap;
use sluice::json::{parse, Json};
use sluice::loopback::token::{claims_from, ChainToken, TokenError};
use sluice::members::{
    find_field, find_given, has_each_once, names_once, read_items, read_members, read_record, Member,
};

fn j(text: &str) -> Json {
    parse(text.as_bytes()).unwrap()
}

fn shown(text: &str) -> Option<Vec<(String, String)>> {
    let members = read_members(text.as_bytes())?;
    Some(members.into_iter().map(|m| (m.name, String::from_utf8(m.value.to_vec()).unwrap())).collect())
}

fn pair(name: &str, value: &str) -> (String, String) {
    (name.to_string(), value.to_string())
}

#[test]
fn members_are_kept_as_they_stand() {
    assert_eq!(shown(" { } "), Some(vec![]));
    assert_eq!(
        shown("{\"a\":1,\"b\" : [1, {\"a\":2}] ,\"a\":\"x,}\"}\n"),
        Some(vec![pair("a", "1"), pair("b", " [1, {\"a\":2}]"), pair("a", "\"x,}\"")])
    );
    assert_eq!(shown(r#"{"a":true}"#), Some(vec![pair("a", "true")]));
    for bad in ["", "[]", "1", "{", "{1:2}", r#"{"a"}"#, r#"{"a":}"#, r#"{"a":1,}"#, r#"{"a":1} x"#, r#"{"a":1 "b":2}"#, "{,}"] {
        assert_eq!(shown(bad), None, "{bad}");
    }
}

#[test]
fn items_are_kept_as_they_stand() {
    let text = b" [1, \"a,b\" ,[2]] ";
    let items = read_items(text).unwrap();
    assert_eq!(items, vec![&b"1"[..], &b" \"a,b\""[..], &b"[2]"[..]]);
    assert_eq!(read_items(b"[]"), Some(vec![]));
    for bad in ["", "{}", "[1", "[1,]", "[1 2]", "[1] 2", "[,]"] {
        assert_eq!(read_items(bad.as_bytes()), None, "{bad}");
    }
}

#[test]
fn given_values_are_counted() {
    let members = vec![
        Member { name: "a".to_string(), value: b"1" },
        Member { name: "b".to_string(), value: b"2" },
        Member { name: "a".to_string(), value: b"3" },
    ];
    assert_eq!(find_given(&members, "a"), vec![&b"1"[..], &b"3"[..]]);
    assert!(find_given(&members, "c").is_empty());
    assert!(has_each_once(&members, &["b", "c"]));
    assert!(!has_each_once(&members, &["b", "a"]));
    let text = br#"{"a":1,"b":2,"a":3}"#;
    assert!(names_once(text, &["b"]) && !names_once(text, &["a"]) && names_once(b"[1]", &["a"]));
    assert_eq!(find_field(text, "a", 7), Some(&b"3"[..]));
    assert_eq!(find_field(b"[1,2]", "a", 1), Some(&b"2"[..]));
    assert_eq!(find_field(b"[1,2]", "a", 2), None);
    assert_eq!(read_record(text, &["b"]), Some(j(r#"{"b":2}"#)));
    assert_eq!(read_record(text, &["a"]), None);
    assert_eq!(read_record(b"[1,2]", &["a"]), Some(j("[1,2]")));
    assert_eq!(read_record(b"1", &["a"]), None);
}

fn malformed(text: &str) {
    assert_eq!(Directive::parse(text.as_bytes()), Err(DirectiveError::Malformed), "{text}");
}

#[test]
fn a_directive_that_gives_a_field_twice_is_refused() {
    malformed(r#"{"action":"continue","action":"continue"}"#);
    malformed(r#"{"action":"abort","action":"continue"}"#);
    malformed(r#"{"action":"continue","ops":[],"ops":[]}"#);
    malformed(r#"{"action":"drop","ops":[{"op":"set_path","path":"/a","path":"/b"}]}"#);
    malformed(r#"{"action":"drop","ops":[{"op":"set_path","op":"set_path","path":"/a"}]}"#);
    malformed(r#"["drop",[{"op":"set_path","path":"/a","path":"/b"}]]"#);
    malformed(r#"{"action":"abort","response":{"status":400,"status":401}}"#);
    malformed(r#"{"action":"short_circuit","response":{"status":400,"headers":{},"headers":{}}}"#);
    malformed(r#"{"action":"short_circuit","response":{"status":400},"response":{"status":401}}"#);
    malformed(r#"{"action":"emit","chunk":{"data_b64":"","data_b64":""}}"#);
    malformed(r#"{"action":"emit","chunk":{"data_b64":""},"ops":[{"op":"delete_header","name":"a","name":"a"}]}"#);
}

#[test]
fn members_that_are_no_fields_may_stand_twice() {
    assert_eq!(
        Directive::parse(br#"{"action":"drop","seq":1,"seq":2,"response":1,"response":2}"#),
        Ok(Directive::Drop { ops: vec![] })
    );
    assert_eq!(
        Directive::parse(br#"{"action":"emit","chunk":{"data_b64":"x","seq":1,"seq":2}}"#),
        Ok(Directive::Emit { chunk: EmitChunk { data_b64: "x".to_string() }, ops: vec![] })
    );
    assert_eq!(
        Directive::parse(br#"{"action":"drop","ops":[{"op":"set_path","path":"/a","value":1,"value":2}]}"#),
        Ok(Directive::Drop { ops: vec![Op::SetPath { path: "/a".to_string() }] })
    );
    let mut headers = HeaderMap::new();
    headers.insert("a".to_string(), "2".to_string());
    assert_eq!(
        Directive::parse(br#"{"action":"abort","response":{"status":400,"headers":{"a":"1","a":"2"}}}"#),
        Ok(Directive::Abort { response: RespSpec { status: 400, headers, body_b64: String::new() } })
    );
    assert_eq!(
        Directive::parse(br#"{"action":"drop","ops":[{"op":"set_context","value":{"a":1,"a":2}}]}"#),
        Ok(Directive::Drop { ops: vec![Op::SetContext { value: j(r#"{"a":2}"#) }] })
    );
}

#[test]
fn directives_may_be_arrays() {
    assert_eq!(Directive::parse(br#"["continue"]"#), Ok(Directive::Continue { ops: vec![] }));
    assert_eq!(
        Directive::parse(br#"["continue",[["set_path","/a"],[1,"h"],{"op":2,"body_b64":"b"}]]"#),
        Ok(Directive::Continue {
            ops: vec![
                Op::SetPath { path: "/a".to_string() },
                Op::DeleteHeader { name: "h".to_string() },
                Op::SetBody { body_b64: "b".to_string() },
            ]
        })
    );
    assert_eq!(
        Directive::parse(br#"["abort",[429]]"#),
        Ok(Directive::Abort {
            response: RespSpec { status: 429, headers: HeaderMap::new(), body_b64: String::new() }
        })
    );
    assert_eq!(
        Directive::parse(br#"["emit",["x"]]"#),
        Ok(Directive::Emit { chunk: EmitChunk { data_b64: "x".to_string() }, ops: vec![] })
    );
    malformed(r#"["continue",[],1]"#);
    malformed(r#"["emit"]"#);
    malformed(r#"["abort",[429,{},"",1]]"#);
    malformed(r#"[0]"#);
    malformed(r#"{"action":0}"#);
}

fn token_of(payload: &str, secret: &[u8]) -> String {
    let url = base64::engine::general_purpose::URL_SAFE_NO_PAD;
    let mut mac = hmac::Hmac::<sha2::Sha256>::new_from_slice(secret).unwrap();
    mac.update(payload.as_bytes());
    let code = mac.finalize().into_bytes();
    format!("{}.{}", url.encode(payload), url.encode(code))
}

fn claims() -> ChainToken {
    ChainToken {
        cid: "c".to_string(),
        route_id: "r".to_string(),
        resume_index: 1,
        hop: 2,
        expires_at_unix: 3,
    }
}

fn decoded(payload: &str) -> Result<ChainToken, TokenError> {
    ChainToken::decode(&token_of(payload, b"s"), b"s")
}

#[test]
fn claims_are_read_from_an_object_or_an_array() {
    let plain = r#"{"cid":"c","route_id":"r","resume_index":1,"hop":2,"expires_at_unix":3}"#;
    assert_eq!(token_of(plain, b"s"), claims().sign(b"s"));
    assert_eq!(decoded(plain), Ok(claims()));
    assert_eq!(decoded(r#" ["c","r",1,2,3] "#), Ok(claims()));
    assert_eq!(decoded(r#"["c","r",1,2]"#), Err(TokenError::BadFormat));
    assert_eq!(decoded(r#"["c","r",1,2,3,4]"#), Err(TokenError::BadFormat));
    assert_eq!(decoded(r#"["c","r",1,2,"3"]"#), Err(TokenError::BadFormat));
    assert_eq!(claims_from(&j(r#"["c","r",1,2,3]"#)), Some(claims()));
    assert_eq!(claims_from(&j(r#"["c","r",1,2]"#)), None);
}

#[test]
fn claims_given_twice_are_refused() {
    assert_eq!(
        decoded(r#"{"cid":"c","cid":"c","route_id":"r","resume_index":1,"hop":2,"expires_at_unix":3}"#),
        Err(TokenError::BadFormat)
    );
    assert_eq!(
        decoded(r#"{"cid":"c","route_id":"r","resume_index":1,"hop":2,"expires_at_unix":3,"hop":2}"#),
        Err(TokenError::BadFormat)
    );
    assert_eq!(
        decoded(r#"{"x":1,"cid":"c","route_id":"r","resume_index":1,"hop":2,"expires_at_unix":3,"x":2}"#),
        Ok(claims())
    );
    assert_eq!(
        decoded(r#"{"cid":"c","route_id":"r","resume_index":1,"expires_at_unix":3}"#),
        Err(TokenError::BadFormat)
    );
}

#[test]
fn members_that_are_no_claims_are_passed_over_unread() {
    let deep = format!("{}{}", "[".repeat(500), "]".repeat(500));
    let payload = format!(
        r#"{{"cid":"c","x":{deep},"y":1e999,"route_id":"r","resume_index":1,"hop":2,"expires_at_unix":3}}"#
    );
    assert_eq!(decoded(&payload), Ok(claims()));
}
