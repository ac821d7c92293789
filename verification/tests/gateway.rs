use sluice::admin::answer;
use sluice::directive::{apply_ops, Directive, DirectiveError, EmitChunk, Op, OpError, RespSpec};
use sluice::envelope::build_request_envelope;
use sluice::http_msg::{HeaderMap, HttpMsg};
use sluice::json::{parse, Json, JsonMap};
use sluice::loopback::token::{ChainToken, TokenError};
use sluice::observability::{choose_correlation_id, correlation_id_from};
use sluice::reconstruct::is_hop_by_hop;

fn j(text: &str) -> Json {
    parse(text.as_bytes()).unwrap()
}

fn msg() -> HttpMsg {
    let mut m = HttpMsg {
        method: "POST".to_string(),
        path: "/v1".to_string(),
        headers: HeaderMap::new(),
        body_b64: String::new(),
    };
    m.set_header("X-Kept", "1");
    m
}

fn refused(ops: &[Op], cap: usize) -> OpError {
    let mut m = msg();
    let mut context = JsonMap::new();
    let err = apply_ops(&mut m, &mut context, "me", ops, cap).unwrap_err();
    assert_eq!(m, msg(), "a refused step must change nothing");
    assert!(context.is_empty());
    err
}

#[test]
fn framing_headers_cannot_be_changed() {
    for name in ["Connection", "transfer-encoding", "Content-Length", "keep-alive", "UPGRADE", "te"] {
        assert!(is_hop_by_hop(name));
        let expected = OpError::ProtectedHeader(name.to_ascii_lowercase());
        let set = Op::SetHeader { name: name.to_string(), value: "x".to_string() };
        assert_eq!(refused(&[set], 100), expected);
        assert_eq!(refused(&[Op::DeleteHeader { name: name.to_string() }], 100), expected);
        assert_eq!(
            expected.message(),
            format!("step attempted to modify protected header '{}'", name.to_ascii_lowercase())
        );
    }
    assert!(!is_hop_by_hop("content-type"));
}

#[test]
fn a_refused_op_undoes_those_before_it() {
    let ops = [
        Op::SetPath { path: "/elsewhere".to_string() },
        Op::SetHeader { name: "x-new".to_string(), value: "1".to_string() },
        Op::SetContext { value: j("{}") },
        Op::DeleteHeader { name: "content-length".to_string() },
    ];
    assert_eq!(refused(&ops, 100), OpError::ProtectedHeader("content-length".to_string()));
}

#[test]
fn the_cap_of_a_context_is_exact() {
    let value = r#"{"a":1}"#;
    assert_eq!(
        refused(&[Op::SetContext { value: j(value) }], value.len() - 1),
        OpError::ContextTooLarge { namespace: "me".to_string(), size: value.len(), cap: value.len() - 1 }
    );
    let mut m = msg();
    let mut context = JsonMap::new();
    context.insert("other".to_string(), j("1"));
    apply_ops(&mut m, &mut context, "me", &[Op::SetContext { value: j(value) }], value.len()).unwrap();
    assert_eq!(Json::Object(context), j(r#"{"me":{"a":1},"other":1}"#));
}

#[test]
fn a_context_that_is_too_large_says_so() {
    let err = OpError::ContextTooLarge { namespace: "n".to_string(), size: 12, cap: 10 };
    assert_eq!(err.message(), "context for namespace 'n' is 12 bytes, exceeding cap of 10 bytes");
}

#[test]
fn ops_are_applied_in_order() {
    let mut m = msg();
    let mut context = JsonMap::new();
    let ops = [
        Op::SetHeader { name: "X-A".to_string(), value: "1".to_string() },
        Op::SetHeader { name: "x-a".to_string(), value: "2".to_string() },
        Op::DeleteHeader { name: "X-KEPT".to_string() },
        Op::SetBody { body_b64: "aGk=".to_string() },
    ];
    apply_ops(&mut m, &mut context, "me", &ops, 0).unwrap();
    assert_eq!(m.headers.len(), 1);
    assert_eq!(m.headers.get("x-a").map(String::as_str), Some("2"));
    assert_eq!(m.body_bytes().unwrap(), b"hi");
}

#[test]
fn every_directive_is_read() {
    let response = RespSpec {
        status: 429,
        headers: {
            let mut h = HeaderMap::new();
            h.insert("a".to_string(), "b".to_string());
            h
        },
        body_b64: "aGk=".to_string(),
    };
    assert_eq!(
        Directive::parse(br#"{"action":"abort","response":{"status":429,"headers":{"a":"b"},"body_b64":"aGk="}}"#),
        Ok(Directive::Abort { response })
    );
    assert_eq!(
        Directive::parse(
            br#"{"action":"continue","ops":[{"op":"set_body","body_b64":"x"},{"op":"set_path","path":"/p"},{"op":"delete_header","name":"n"}]}"#
        ),
        Ok(Directive::Continue {
            ops: vec![
                Op::SetBody { body_b64: "x".to_string() },
                Op::SetPath { path: "/p".to_string() },
                Op::DeleteHeader { name: "n".to_string() },
            ]
        })
    );
    assert_eq!(
        Directive::parse(br#"{"action":"emit","chunk":{"data_b64":""}}"#),
        Ok(Directive::Emit { chunk: EmitChunk { data_b64: String::new() }, ops: vec![] })
    );
}

#[test]
fn answers_that_are_no_directive_are_refused() {
    assert!(matches!(Directive::parse(b"nope"), Err(DirectiveError::NotJson(_))));
    for text in [
        "{}",
        "[]",
        r#"{"action":"jump"}"#,
        r#"{"action":"abort"}"#,
        r#"{"action":"abort","response":{"status":70000}}"#,
        r#"{"action":"continue","ops":[{"op":"set_path"}]}"#,
        r#"{"action":"continue","ops":{}}"#,
        r#"{"action":"emit"}"#,
    ] {
        assert_eq!(Directive::parse(text.as_bytes()), Err(DirectiveError::Malformed), "{text}");
    }
}

#[test]
fn bodies_survive_base64() {
    let mut m = msg();
    for bytes in [&b""[..], &b"\x00\xff\x80"[..], &b"hello"[..]] {
        m.set_body_bytes(bytes);
        assert_eq!(m.body_bytes().unwrap(), bytes);
    }
    assert_eq!(m.body_b64, "aGVsbG8=");
    m.body_b64 = "***".to_string();
    assert!(m.body_bytes().is_err());
}

#[test]
fn headers_keep_to_small_letters_and_to_themselves() {
    let mut m = msg();
    m.set_header("Content-Type", "a");
    m.set_header("CONTENT-TYPE", "b");
    assert_eq!(m.headers.len(), 2);
    assert_eq!(m.headers.key_at(0), "content-type");
    assert_eq!(m.headers.val_at(0), "b");
    assert_eq!(m.headers.get("x-kept").map(String::as_str), Some("1"));
    assert!(!m.delete_header("absent"));
    assert!(m.delete_header("Content-TYPE"));
    assert_eq!(m.headers.len(), 1);
}

#[test]
fn an_envelope_is_exact() {
    let mut m = msg();
    m.set_body_bytes(b"hi");
    let mut context = JsonMap::new();
    context.insert("a".to_string(), j("1"));
    let env = build_request_envelope("r", "me", &m, &context, "c", None);
    assert_eq!(
        env.to_json(),
        j(r#"{"envelope_version":1,"hook":"on_request","route_id":"r","correlation_id":"c","self":"me",
            "request":{"method":"POST","path":"/v1","headers":{"x-kept":"1"},"body_b64":"aGk="},
            "response":null,"chunk":null,"llm":null,"context":{"a":1}}"#)
    );
}

#[test]
fn a_refusal_tells_nothing() {
    for ready in [true, false] {
        for metrics in ["", "secret 1\n"] {
            let reply = answer("/metrics", "token", Some("Bearer tokem"), ready, metrics);
            assert_eq!(reply.status, 401);
            assert_eq!(reply.body, "unauthorized");
            assert_eq!(reply.content_type, "text/plain; charset=utf-8");
        }
    }
}

#[test]
fn health_is_open_and_the_rest_is_not() {
    assert_eq!(answer("/healthz", "token", None, false, "").status, 200);
    assert_eq!(answer("/readyz", "token", None, true, "").status, 401);
    assert_eq!(answer("/readyz", "token", Some("Bearer token"), true, "").status, 200);
    let metrics = answer("/metrics", "", None, false, "m 1\n");
    assert_eq!(metrics.body, "m 1\n");
    assert_eq!(metrics.content_type, "text/plain; version=0.0.4");
    assert_eq!(answer("/nowhere", "token", None, true, "").status, 401);
    assert_eq!(answer("/nowhere", "", None, true, "").status, 404);
}

#[test]
fn correlation_ids_are_adopted_or_made() {
    assert_eq!(choose_correlation_id(Some("mine"), "fresh".to_string()), "mine");
    assert_eq!(choose_correlation_id(Some("bad\u{1}"), "fresh".to_string()), "fresh");
    assert_eq!(choose_correlation_id(None, "fresh".to_string()), "fresh");
    let id = correlation_id_from(None);
    assert_eq!(id.len(), 36);
    assert_ne!(id, correlation_id_from(None));
}

fn token() -> ChainToken {
    ChainToken {
        cid: "c\"1".to_string(),
        route_id: "r".to_string(),
        resume_index: 3,
        hop: 1,
        expires_at_unix: 100,
    }
}

#[test]
fn a_signed_token_is_exact() {
    assert_eq!(
        token().sign(b"secret"),
        "eyJjaWQiOiJjXCIxIiwicm91dGVfaWQiOiJyIiwicmVzdW1lX2luZGV4IjozLCJob3AiOjEsImV4cGlyZXNfYXRfdW5peCI6MTAwfQ.1yoUSHC0dQDUoX2CNizSzTIc9S3fyu_RsEldnk7eXNY"
    );
}

#[test]
fn acceptance_ends_with_expiry() {
    let signed = token().sign(b"secret");
    assert_eq!(ChainToken::verify(&signed, b"secret", 99), Ok(token()));
    assert_eq!(ChainToken::verify(&signed, b"secret", 100), Err(TokenError::Expired));
    assert_eq!(ChainToken::decode(&signed, b"secret"), Ok(token()));
}

#[test]
fn an_altered_code_is_refused() {
    let signed = token().sign(b"secret");
    let (payload, code) = signed.split_once('.').unwrap();
    let flipped = if code.starts_with('A') { "B" } else { "A" };
    let altered = format!("{payload}.{flipped}{}", &code[1..]);
    assert_eq!(ChainToken::decode(&altered, b"secret"), Err(TokenError::BadMac));
    assert_eq!(ChainToken::decode(&format!("{payload}."), b"secret"), Err(TokenError::BadMac));
    assert_eq!(ChainToken::decode(payload, b"secret"), Err(TokenError::BadFormat));
}

#[test]
fn token_errors_have_texts() {
    assert_eq!(TokenError::BadFormat.message(), "chain token is malformed");
    assert_eq!(TokenError::BadMac.message(), "chain token MAC verification failed");
    assert_eq!(TokenError::Expired.message(), "chain token has expired");
}
