use sluice::json::{parse, Json};
use sluice::llm::canonical::{
    CanonicalRequest, CanonicalStreamEvent, ContentBlock, RequestCtx, Role, Sampling, StopReason, ToolChoice, Usage,
};
use sluice::llm::delta::{Delta, DeltaKind};

fn j(text: &str) -> Json {
    parse(text.as_bytes()).unwrap()
}

#[test]
fn tagged_forms_are_exact() {
    assert_eq!(ToolChoice::Never.to_json(), j(r#""none""#));
    assert_eq!(ToolChoice::Tool("f".to_string()).to_json(), j(r#"{"tool":"f"}"#));
    assert_eq!(StopReason::StopSequence.to_json(), j(r#""stop_sequence""#));
    assert_eq!(StopReason::Other("x".to_string()).to_json(), j(r#"{"other":"x"}"#));
    assert_eq!(
        ContentBlock::Image { media_type: "a".to_string(), data: "b".to_string() }.to_json(),
        j(r#"{"type":"image","media_type":"a","data":"b"}"#)
    );
    assert_eq!(CanonicalStreamEvent::MessageStop.to_json(), j(r#"{"type":"message_stop"}"#));
    assert_eq!(
        RequestCtx { path: "/p".to_string(), method: "GET".to_string() }.to_json(),
        j(r#"{"path":"/p","method":"GET"}"#)
    );
    assert_eq!(
        Delta::text("t".to_string()).to_json(),
        j(r#"{"kind":"text","text":"t","tool_call":null,"usage":null,"finish":null}"#)
    );
}

#[test]
fn malformed_forms_are_refused() {
    assert_eq!(Role::from_json(&j(r#""robot""#)), None);
    assert_eq!(Role::from_json(&j("1")), None);
    assert_eq!(ToolChoice::from_json(&j(r#"{"tool":"f","more":1}"#)), None);
    assert_eq!(ToolChoice::from_json(&j(r#"{"tool":1}"#)), None);
    assert_eq!(StopReason::from_json(&j("null")), None);
    assert_eq!(ContentBlock::from_json(&j(r#"{"type":"video"}"#)), None);
    assert_eq!(ContentBlock::from_json(&j(r#"{"text":"a"}"#)), None);
    assert_eq!(Usage::from_json(&j("[]")), None);
    assert_eq!(Sampling::from_json(&j("{}")), None);
    assert_eq!(RequestCtx::from_json(&j(r#"{"path":"/p"}"#)), None);
    assert_eq!(CanonicalRequest::from_json(&j("{}")), None);
    assert_eq!(CanonicalStreamEvent::from_json(&j(r#"{"type":"content_block_stop"}"#)), None);
    assert_eq!(DeltaKind::from_json(&j(r#""other""#)), Some(DeltaKind::Other));
}

#[test]
fn absent_and_null_options_read_alike() {
    assert_eq!(
        Usage::from_json(&j("{}")),
        Some(Usage { input_tokens: None, output_tokens: None })
    );
    assert_eq!(
        Usage::from_json(&j(r#"{"input_tokens":null,"output_tokens":4}"#)),
        Some(Usage { input_tokens: None, output_tokens: Some(4) })
    );
    assert_eq!(Usage::from_json(&j(r#"{"input_tokens":-1}"#)), None);
}
