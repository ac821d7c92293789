use sluice::directive::{apply_ops, Directive, Op, OpError};
use sluice::http_msg::{HeaderMap, HttpMsg};
use sluice::json::{parse, Json, JsonMap};

fn j(text: &str) -> Json {
    parse(text.as_bytes()).unwrap()
}

fn directive(text: &str) -> Directive {
    Directive::parse(text.as_bytes()).unwrap()
}

fn msg() -> HttpMsg {
    HttpMsg {
        method: "POST".into(),
        path: "/v1/messages".into(),
        headers: HeaderMap::new(),
        body_b64: String::new(),
    }
}

#[test]
fn parses_continue_with_ops() {
    let d = directive(
        r#"{"action":"continue","ops":[{"op":"set_header","name":"x-tag","value":"seen"}]}"#,
    );
    match d {
        Directive::Continue { ops } => assert_eq!(ops.len(), 1),
        other => panic!("expected continue, got {other:?}"),
    }
}

#[test]
fn parses_continue_without_ops() {
    let d = directive(r#"{"action":"continue"}"#);
    assert!(matches!(d, Directive::Continue { ops } if ops.is_empty()));
}

#[test]
fn parses_short_circuit() {
    let d = directive(
        r#"{"action":"short_circuit","response":{"status":200,"body_b64":"aGk="}}"#,
    );
    match d {
        Directive::ShortCircuit { response } => assert_eq!(response.status, 200),
        other => panic!("expected short_circuit, got {other:?}"),
    }
}

#[test]
fn parses_emit_with_chunk_and_ops() {
    let d = directive(
        r#"{"action":"emit","chunk":{"data_b64":"aGk="},"ops":[{"op":"set_context","value":{"n":1}}]}"#,
    );
    match d {
        Directive::Emit { chunk, ops } => {
            assert_eq!(chunk.data_b64, "aGk=");
            assert_eq!(ops.len(), 1);
        }
        other => panic!("expected emit, got {other:?}"),
    }
}

#[test]
fn parses_emit_without_ops_defaults_empty() {
    let d = directive(r#"{"action":"emit","chunk":{"data_b64":"aGk="}}"#);
    assert!(matches!(d, Directive::Emit { ops, .. } if ops.is_empty()));
}

#[test]
fn parses_emit_ignores_extra_chunk_fields() {
    let d = directive(
        r#"{"action":"emit","chunk":{"data_b64":"aGk=","seq":3,"final":false,"delta":null}}"#,
    );
    assert!(matches!(d, Directive::Emit { chunk, .. } if chunk.data_b64 == "aGk="));
}

#[test]
fn parses_drop_without_ops() {
    let d = directive(r#"{"action":"drop"}"#);
    assert!(matches!(d, Directive::Drop { ops } if ops.is_empty()));
}

#[test]
fn parses_drop_with_ops() {
    let d = directive(
        r#"{"action":"drop","ops":[{"op":"set_context","value":{"dropped":true}}]}"#,
    );
    match d {
        Directive::Drop { ops } => assert_eq!(ops.len(), 1),
        other => panic!("expected drop, got {other:?}"),
    }
}

#[test]
fn apply_set_and_delete_header() {
    let mut m = msg();
    m.set_header("x-old", "1");
    let mut ctx = JsonMap::new();
    let ops = vec![
        Op::SetHeader {
            name: "X-Tag".into(),
            value: "seen".into(),
        },
        Op::DeleteHeader {
            name: "x-old".into(),
        },
    ];
    apply_ops(&mut m, &mut ctx, "s", &ops, 65536).unwrap();
    assert_eq!(m.headers.get("x-tag").map(String::as_str), Some("seen"));
    assert!(!m.headers.contains_key("x-old"));
}

#[test]
fn apply_set_body_and_path() {
    let mut m = msg();
    let mut ctx = JsonMap::new();
    apply_ops(
        &mut m,
        &mut ctx,
        "s",
        &[
            Op::SetBody {
                body_b64: "aGk=".into(),
            },
            Op::SetPath { path: "/v2".into() },
        ],
        65536,
    )
    .unwrap();
    assert_eq!(m.body_bytes().unwrap(), b"hi");
    assert_eq!(m.path, "/v2");
}

#[test]
fn set_context_writes_under_self_namespace() {
    let mut m = msg();
    let mut ctx = JsonMap::new();
    apply_ops(
        &mut m,
        &mut ctx,
        "redact",
        &[Op::SetContext {
            value: j(r#"{"count":3}"#),
        }],
        65536,
    )
    .unwrap();
    assert_eq!(ctx.get("redact").unwrap().get("count").unwrap().as_u64(), Some(3));
}

#[test]
fn rejects_protected_header() {
    let mut m = msg();
    let mut ctx = JsonMap::new();
    let err = apply_ops(
        &mut m,
        &mut ctx,
        "s",
        &[Op::SetHeader {
            name: "Content-Length".into(),
            value: "5".into(),
        }],
        65536,
    )
    .unwrap_err();
    assert_eq!(err, OpError::ProtectedHeader("content-length".into()));
}

#[test]
fn set_context_under_cap_succeeds() {
    let mut m = msg();
    let mut ctx = JsonMap::new();
    apply_ops(
        &mut m,
        &mut ctx,
        "redact",
        &[Op::SetContext {
            value: j(r#"{"count":3}"#),
        }],
        10_000,
    )
    .unwrap();
    assert_eq!(ctx.get("redact").unwrap().get("count").unwrap().as_u64(), Some(3));
}

#[test]
fn set_context_over_cap_rejected_and_leaves_context_unchanged() {
    let mut m = msg();
    let mut ctx = JsonMap::new();
    let big_value = j(&format!(r#"{{"data":"{}"}}"#, "x".repeat(100)));
    let err = apply_ops(
        &mut m,
        &mut ctx,
        "redact",
        &[Op::SetContext { value: big_value }],
        10,
    )
    .unwrap_err();
    match err {
        OpError::ContextTooLarge {
            namespace,
            size,
            cap,
        } => {
            assert_eq!(namespace, "redact");
            assert!(size > cap);
            assert_eq!(cap, 10);
        }
        other => panic!("expected ContextTooLarge, got {other:?}"),
    }
    assert!(!ctx.contains_key("redact"));
}
