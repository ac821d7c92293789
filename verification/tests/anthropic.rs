use serde_json::Value;
use sluice::json::{parse, Double, Json};
use sluice::llm::adapter::{Adapter, AdapterError};
use sluice::llm::delta::DeltaKind;
use sluice::llm::anthropic::{
    parse_body, parse_delta, parse_response_body, render_request_body, render_response_body, AnthropicAdapter,
};
use sluice::llm::{
    CanonicalMessage, CanonicalRequest, CanonicalResponse, CanonicalTool, ContentBlock, RequestCtx, Role, Sampling, StopReason, ToolChoice, TranslationReport, CanonicalUsage,
};
use sluice::sse::SseEvent;

fn val(text: &str) -> Value {
    serde_json::from_str(text).unwrap()
}

fn j(text: &str) -> Json {
    parse(text.as_bytes()).unwrap()
}

fn d(x: f64) -> Double {
    Double { bits: x.to_bits() }
}

fn ctx() -> RequestCtx {
    RequestCtx {
        path: "/v1/messages".to_string(),
        method: "POST".to_string(),
    }
}

#[test]
fn anthropic_parses_string_content() {
    let body = br#"{
        "model": "opus-4-1-20250805",
        "messages": [{"role": "user", "content": "hello there"}]
    }"#;
    let req = parse_body(body).unwrap();
    assert_eq!(req.model, "opus-4-1-20250805");
    assert_eq!(req.messages.len(), 1);
    assert_eq!(req.messages[0].role, Role::User);
    assert_eq!(
        req.messages[0].content,
        vec![ContentBlock::Text {
            text: "hello there".to_string()
        }]
    );
    assert_eq!(req.sampling.max_tokens, None);
    assert!(!req.stream);
    assert!(req.tools.is_empty());
}

#[test]
fn parses_block_array_content_preserving_non_text_blocks() {
    let body = br#"{
        "model": "opus-4-1-20250805",
        "messages": [{
            "role": "user",
            "content": [
                {"type": "text", "text": "first part"},
                {"type": "image", "source": {"type": "base64", "media_type": "image/png", "data": "abc"}},
                {"type": "text", "text": "second part"}
            ]
        }]
    }"#;
    let req = parse_body(body).unwrap();
    assert_eq!(req.messages.len(), 1);
    assert_eq!(
        req.messages[0].content,
        vec![
            ContentBlock::Text {
                text: "first part".to_string()
            },
            ContentBlock::Image {
                media_type: "image/png".to_string(),
                data: "abc".to_string(),
            },
            ContentBlock::Text {
                text: "second part".to_string()
            },
        ]
    );
}

#[test]
fn parses_tool_use_and_tool_result_blocks() {
    let body = br#"{
        "model": "opus-4-1-20250805",
        "messages": [
            {"role": "assistant", "content": [
                {"type": "tool_use", "id": "call_1", "name": "get_weather", "input": {"location": "NYC"}}
            ]},
            {"role": "user", "content": [
                {"type": "tool_result", "tool_use_id": "call_1", "content": "72F and sunny", "is_error": false}
            ]}
        ]
    }"#;
    let req = parse_body(body).unwrap();
    assert_eq!(
        req.messages[0].content,
        vec![ContentBlock::ToolUse {
            id: "call_1".to_string(),
            name: "get_weather".to_string(),
            input: j(r#"{"location":"NYC"}"#),
        }]
    );
    assert_eq!(
        req.messages[1].content,
        vec![ContentBlock::ToolResult {
            id: "call_1".to_string(),
            content: "72F and sunny".to_string(),
            is_error: false,
        }]
    );
}

#[test]
fn parses_top_level_system_string() {
    let body = br#"{
        "model": "opus-4-1-20250805",
        "system": "You are a helpful assistant.",
        "messages": []
    }"#;
    let req = parse_body(body).unwrap();
    assert_eq!(req.system.as_deref(), Some("You are a helpful assistant."));
}

#[test]
fn parses_structured_system_blocks() {
    let body = br#"{
        "model": "opus-4-1-20250805",
        "system": [{"type": "text", "text": "part one"}, {"type": "text", "text": "part two"}],
        "messages": []
    }"#;
    let req = parse_body(body).unwrap();
    assert_eq!(req.system.as_deref(), Some("part one\npart two"));
}

#[test]
fn missing_system_is_none() {
    let body = br#"{"model": "opus-4-1-20250805", "messages": []}"#;
    let req = parse_body(body).unwrap();
    assert_eq!(req.system, None);
}

#[test]
fn parses_tools_with_input_schema_and_description() {
    let body = br#"{
        "model": "opus-4-1-20250805",
        "messages": [],
        "tools": [
            {"name": "get_weather", "description": "...", "input_schema": {"type": "object"}},
            {"name": "search"}
        ]
    }"#;
    let req = parse_body(body).unwrap();
    assert_eq!(req.tools.len(), 2);
    assert_eq!(req.tools[0].name, "get_weather");
    assert_eq!(req.tools[0].description.as_deref(), Some("..."));
    assert_eq!(
        req.tools[0].input_schema,
        j(r#"{"type":"object"}"#)
    );
    assert_eq!(req.tools[1].name, "search");
    assert_eq!(req.tools[1].description, None);
    assert_eq!(req.tools[1].input_schema, Json::Null);
}

#[test]
fn anthropic_parses_tool_choice_variants() {
    for (json, expected) in [
        (r#"{"type": "auto"}"#, ToolChoice::Auto),
        (r#"{"type": "any"}"#, ToolChoice::Any),
        (r#"{"type": "none"}"#, ToolChoice::Never),
        (
            r#"{"type": "tool", "name": "get_weather"}"#,
            ToolChoice::Tool("get_weather".to_string()),
        ),
    ] {
        let body = format!(r#"{{"model": "m", "messages": [], "tool_choice": {json}}}"#);
        let req = parse_body(body.as_bytes()).unwrap();
        assert_eq!(req.tool_choice, Some(expected));
    }
}

#[test]
fn missing_tool_choice_is_none() {
    let body = br#"{"model": "opus-4-1-20250805", "messages": []}"#;
    let req = parse_body(body).unwrap();
    assert_eq!(req.tool_choice, None);
}

#[test]
fn parses_sampling_fields() {
    let body = br#"{
        "model": "opus-4-1-20250805",
        "messages": [],
        "max_tokens": 1024,
        "temperature": 0.7,
        "top_p": 0.9,
        "top_k": 40,
        "stop_sequences": ["STOP", "END"]
    }"#;
    let req = parse_body(body).unwrap();
    assert_eq!(req.sampling.max_tokens, Some(1024));
    assert_eq!(req.sampling.temperature, Some(d(0.7)));
    assert_eq!(req.sampling.top_p, Some(d(0.9)));
    assert_eq!(req.sampling.top_k, Some(40));
    assert_eq!(
        req.sampling.stop,
        vec!["STOP".to_string(), "END".to_string()]
    );
}

#[test]
fn anthropic_parses_stream_flag_true() {
    let body = br#"{
        "model": "opus-4-1-20250805",
        "messages": [],
        "stream": true
    }"#;
    let req = parse_body(body).unwrap();
    assert!(req.stream);
}

#[test]
fn anthropic_missing_stream_defaults_to_false() {
    let body = br#"{"model": "opus-4-1-20250805", "messages": []}"#;
    let req = parse_body(body).unwrap();
    assert!(!req.stream);
}

#[test]
fn anthropic_missing_max_tokens_is_none() {
    let body = br#"{"model": "opus-4-1-20250805", "messages": []}"#;
    let req = parse_body(body).unwrap();
    assert_eq!(req.sampling.max_tokens, None);
}

#[test]
fn present_max_tokens_is_parsed() {
    let body = br#"{"model": "opus-4-1-20250805", "messages": [], "max_tokens": 1024}"#;
    let req = parse_body(body).unwrap();
    assert_eq!(req.sampling.max_tokens, Some(1024));
}

#[test]
fn anthropic_unknown_top_level_fields_land_in_extra() {
    let body = br#"{
        "model": "opus-4-1-20250805",
        "messages": [],
        "metadata": {"user_id": "u_123"}
    }"#;
    let req = parse_body(body).unwrap();
    assert_eq!(
        req.extra.get("anthropic.metadata"),
        Some(&j(r#"{"user_id":"u_123"}"#))
    );
}

#[test]
fn no_unknown_fields_leaves_extra_empty() {
    let body = br#"{"model": "opus-4-1-20250805", "messages": []}"#;
    let req = parse_body(body).unwrap();
    assert!(req.extra.is_empty());
}

#[test]
fn anthropic_invalid_json_is_malformed_error() {
    let err = parse_body(b"not json at all").unwrap_err();
    assert!(matches!(err, AdapterError::Malformed(_)));
}

#[test]
fn anthropic_missing_model_is_malformed_error() {
    let body = br#"{"messages": []}"#;
    let err = parse_body(body).unwrap_err();
    assert!(matches!(err, AdapterError::Malformed(_)));
}

#[test]
fn anthropic_missing_messages_defaults_to_empty() {
    let body = br#"{"model": "opus-4-1-20250805"}"#;
    let req = parse_body(body).unwrap();
    assert!(req.messages.is_empty());
}

#[test]
fn anthropic_adapter_trait_impl_reports_provider_and_parses() {
    let adapter = AnthropicAdapter;
    assert_eq!(adapter.provider(), "anthropic");
    let body = br#"{"model": "opus-4-1-20250805", "messages": []}"#;
    assert!(adapter.parse_request(body, &ctx()).is_ok());
}

#[test]
fn parses_response_content_and_stop_reason_and_usage() {
    let body = br#"{
        "id": "msg_1",
        "type": "message",
        "role": "assistant",
        "model": "opus-4-1-20250805",
        "content": [{"type": "text", "text": "hello there"}],
        "stop_reason": "end_turn",
        "usage": {"input_tokens": 10, "output_tokens": 20}
    }"#;
    let resp = parse_response_body(body).unwrap();
    assert_eq!(resp.model, "opus-4-1-20250805");
    assert_eq!(
        resp.content,
        vec![ContentBlock::Text {
            text: "hello there".to_string()
        }]
    );
    assert_eq!(resp.stop_reason, Some(StopReason::EndTurn));
    assert_eq!(
        resp.usage,
        Some(CanonicalUsage {
            input_tokens: Some(10),
            output_tokens: Some(20),
        })
    );
}

#[test]
fn parses_response_tool_use_content() {
    let body = br#"{
        "model": "opus-4-1-20250805",
        "content": [{"type": "tool_use", "id": "call_1", "name": "get_weather", "input": {"location": "NYC"}}],
        "stop_reason": "tool_use"
    }"#;
    let resp = parse_response_body(body).unwrap();
    assert_eq!(
        resp.content,
        vec![ContentBlock::ToolUse {
            id: "call_1".to_string(),
            name: "get_weather".to_string(),
            input: j(r#"{"location":"NYC"}"#),
        }]
    );
    assert_eq!(resp.stop_reason, Some(StopReason::ToolUse));
}

#[test]
fn unrecognized_stop_reason_becomes_other() {
    let body = br#"{"model": "m", "content": [], "stop_reason": "refusal"}"#;
    let resp = parse_response_body(body).unwrap();
    assert_eq!(
        resp.stop_reason,
        Some(StopReason::Other("refusal".to_string()))
    );
}

#[test]
fn missing_stop_reason_is_none() {
    let body = br#"{"model": "m", "content": []}"#;
    let resp = parse_response_body(body).unwrap();
    assert_eq!(resp.stop_reason, None);
}

#[test]
fn anthropic_response_unknown_fields_land_in_extra() {
    let body = br#"{"id": "msg_1", "type": "message", "model": "m", "content": []}"#;
    let resp = parse_response_body(body).unwrap();
    assert_eq!(
        resp.extra.get("anthropic.id"),
        Some(&j(r#""msg_1""#))
    );
    assert_eq!(
        resp.extra.get("anthropic.type"),
        Some(&j(r#""message""#))
    );
}

#[test]
fn anthropic_response_invalid_json_is_malformed_error() {
    let err = parse_response_body(b"not json at all").unwrap_err();
    assert!(matches!(err, AdapterError::Malformed(_)));
}

#[test]
fn anthropic_adapter_trait_impl_parses_response() {
    let adapter = AnthropicAdapter;
    let body = br#"{"model": "m", "content": []}"#;
    assert!(adapter.parse_response(body).is_ok());
}

fn event(data: &str) -> SseEvent {
    SseEvent {
        data: data.to_string(),
    }
}

#[test]
fn anthropic_parses_text_delta() {
    let data = event(
        r#"{"type":"content_block_delta","index":0,"delta":{"type":"text_delta","text":"Hello"}}"#,
    );
    let delta = parse_delta(&data).expect("must parse");
    assert_eq!(delta.kind, DeltaKind::Text);
    assert_eq!(delta.text.as_deref(), Some("Hello"));
}

#[test]
fn parses_tool_call_input_json_delta() {
    let data = event(
        r#"{"type":"content_block_delta","index":1,"delta":{"type":"input_json_delta","partial_json":"{\"loc"}}"#,
    );
    let delta = parse_delta(&data).expect("must parse");
    assert_eq!(delta.kind, DeltaKind::ToolCall);
    let tool_call = delta.tool_call.expect("tool_call must be set");
    assert_eq!(tool_call.arguments_fragment.as_deref(), Some(r#"{"loc"#));
}

#[test]
fn parses_message_delta_usage() {
    let data = event(
        r#"{"type":"message_delta","delta":{"stop_reason":"end_turn"},"usage":{"output_tokens":42}}"#,
    );
    let delta = parse_delta(&data).expect("must parse");
    assert_eq!(delta.kind, DeltaKind::Usage);
    let usage = delta.usage.expect("usage must be set");
    assert_eq!(usage.output_tokens, Some(42));
}

#[test]
fn parses_message_stop_as_finish() {
    let data = event(r#"{"type":"message_stop"}"#);
    let delta = parse_delta(&data).expect("must parse");
    assert_eq!(delta.kind, DeltaKind::Finish);
}

#[test]
fn unrecognized_event_type_is_none() {
    let data = event(r#"{"type":"content_block_start","index":0}"#);
    assert!(parse_delta(&data).is_none());
}

#[test]
fn anthropic_malformed_json_is_none() {
    let data = event("not json");
    assert!(parse_delta(&data).is_none());
}

#[test]
fn anthropic_adapter_parse_delta_dispatches_to_free_function() {
    let adapter = AnthropicAdapter;
    let data = event(
        r#"{"type":"content_block_delta","index":0,"delta":{"type":"text_delta","text":"hi"}}"#,
    );
    let delta = adapter.parse_delta(&data).expect("must parse");
    assert_eq!(delta.text.as_deref(), Some("hi"));
}

fn sample_request() -> CanonicalRequest {
    CanonicalRequest {
        model: "opus-4-1-20250805".to_string(),
        messages: vec![CanonicalMessage {
            role: Role::User,
            content: vec![ContentBlock::Text {
                text: "hi".to_string(),
            }],
        }],
        system: Some("You are helpful.".to_string()),
        tools: vec![CanonicalTool {
            name: "get_weather".to_string(),
            description: Some("Look up the weather".to_string()),
            input_schema: j(r#"{"type":"object"}"#),
        }],
        tool_choice: Some(ToolChoice::Auto),
        sampling: Sampling {
            temperature: Some(d(0.7)),
            top_p: Some(d(0.9)),
            top_k: Some(40),
            max_tokens: Some(1024),
            stop: vec!["STOP".to_string()],
        },
        stream: false,
        extra: Default::default(),
    }
}

#[test]
fn anthropic_render_request_round_trips_through_parse() {
    let req = sample_request();
    let mut report = TranslationReport::default();
    let body = render_request_body(&req, &mut report).unwrap();
    assert!(report.dropped.is_empty());

    let reparsed = parse_body(&body).unwrap();
    assert_eq!(reparsed, req);
}

#[test]
fn render_request_writes_system_and_tools_and_sampling() {
    let req = sample_request();
    let mut report = TranslationReport::default();
    let body = render_request_body(&req, &mut report).unwrap();
    let value: Value = serde_json::from_slice(&body).unwrap();

    assert_eq!(value["system"], val(r#""You are helpful.""#));
    assert_eq!(value["tools"][0]["name"], val(r#""get_weather""#));
    assert_eq!(value["max_tokens"], val(r#"1024"#));
    assert_eq!(value["top_k"], val(r#"40"#));
    assert_eq!(value["tool_choice"], val(r#"{"type":"auto"}"#));
}

#[test]
fn render_request_downgrades_tool_role_message_with_note() {
    let mut req = sample_request();
    req.messages = vec![CanonicalMessage {
        role: Role::Tool,
        content: vec![ContentBlock::ToolResult {
            id: "call_1".to_string(),
            content: "72F and sunny".to_string(),
            is_error: false,
        }],
    }];
    let mut report = TranslationReport::default();
    let body = render_request_body(&req, &mut report).unwrap();
    let value: Value = serde_json::from_slice(&body).unwrap();

    assert_eq!(value["messages"][0]["role"], val(r#""user""#));
    assert!(!report.notes.is_empty());
}

#[test]
fn anthropic_render_request_drops_cross_provider_extra_fields() {
    let mut req = sample_request();
    req.extra.insert(
        "openai.metadata".to_string(),
        j(r#"{"user_id":"u_1"}"#),
    );
    let mut report = TranslationReport::default();
    render_request_body(&req, &mut report).unwrap();

    assert_eq!(report.dropped.len(), 1);
    assert_eq!(report.dropped[0].path, "extra.metadata");
    assert!(report.dropped[0].reason.contains("openai"));
}

#[test]
fn anthropic_render_request_preserves_same_provider_extra_field_on_round_trip() {
    let mut req = sample_request();
    req.extra.insert(
        "anthropic.metadata".to_string(),
        j(r#"{"user_id":"u_1"}"#),
    );
    let mut report = TranslationReport::default();
    let body = render_request_body(&req, &mut report).unwrap();
    assert!(
        report.dropped.is_empty(),
        "same-provider extra must survive: {:?}",
        report.dropped
    );

    let value: Value = serde_json::from_slice(&body).unwrap();
    assert_eq!(value["metadata"], val(r#"{"user_id":"u_1"}"#));

    let reparsed = parse_body(&body).unwrap();
    assert_eq!(reparsed, req);
}

#[test]
fn anthropic_render_response_round_trips_through_parse() {
    let resp = CanonicalResponse {
        model: "opus-4-1-20250805".to_string(),
        content: vec![ContentBlock::Text {
            text: "hello there".to_string(),
        }],
        stop_reason: Some(StopReason::EndTurn),
        usage: Some(CanonicalUsage {
            input_tokens: Some(10),
            output_tokens: Some(20),
        }),
        extra: Default::default(),
    };
    let mut report = TranslationReport::default();
    let body = render_response_body(&resp, &mut report).unwrap();
    assert!(report.dropped.is_empty());

    let reparsed = parse_response_body(&body).unwrap();
    let mut expected = resp.clone();
    expected
        .extra
        .insert("anthropic.type".to_string(), j(r#""message""#));
    expected
        .extra
        .insert("anthropic.role".to_string(), j(r#""assistant""#));
    expected
        .extra
        .insert("anthropic.id".to_string(), j(r#""msg_translated""#));
    assert_eq!(reparsed, expected);
}

#[test]
fn anthropic_render_response_preserves_same_provider_extra_field_on_round_trip() {
    let mut resp = CanonicalResponse {
        model: "opus-4-1-20250805".to_string(),
        content: vec![ContentBlock::Text {
            text: "hello there".to_string(),
        }],
        stop_reason: Some(StopReason::EndTurn),
        usage: None,
        extra: Default::default(),
    };
    resp.extra
        .insert("anthropic.id".to_string(), j(r#""msg_1""#));

    let mut report = TranslationReport::default();
    let body = render_response_body(&resp, &mut report).unwrap();
    assert!(
        report.dropped.is_empty(),
        "same-provider extra must survive: {:?}",
        report.dropped
    );

    let value: Value = serde_json::from_slice(&body).unwrap();
    assert_eq!(value["id"], val(r#""msg_1""#));

    let reparsed = parse_response_body(&body).unwrap();
    let mut expected = resp.clone();
    expected
        .extra
        .insert("anthropic.type".to_string(), j(r#""message""#));
    expected
        .extra
        .insert("anthropic.role".to_string(), j(r#""assistant""#));
    assert_eq!(reparsed, expected);
}

#[test]
fn anthropic_render_response_synthesizes_discriminators_for_cross_provider_translation() {
    let mut resp = CanonicalResponse {
        model: "opus-4-1-20250805".to_string(),
        content: vec![ContentBlock::Text {
            text: "hello there".to_string(),
        }],
        stop_reason: Some(StopReason::EndTurn),
        usage: None,
        extra: Default::default(),
    };
    resp.extra
        .insert("openai.id".to_string(), j(r#""chatcmpl_1""#));

    let mut report = TranslationReport::default();
    let body = render_response_body(&resp, &mut report).unwrap();

    let value: Value = serde_json::from_slice(&body).unwrap();
    assert_eq!(value["type"], val(r#""message""#));
    assert_eq!(value["role"], val(r#""assistant""#));
    assert!(value["id"].is_string());

    for field in ["type", "role", "id"] {
        assert!(
            !report.dropped.iter().any(|d| d.path == field),
            "{field} must not be reported as dropped: {:?}",
            report.dropped
        );
    }
}

#[test]
fn render_response_prefers_real_same_provider_type_and_id_over_synthesized() {
    let mut resp = CanonicalResponse {
        model: "opus-4-1-20250805".to_string(),
        content: vec![ContentBlock::Text {
            text: "hello there".to_string(),
        }],
        stop_reason: Some(StopReason::EndTurn),
        usage: None,
        extra: Default::default(),
    };
    resp.extra
        .insert("anthropic.type".to_string(), j(r#""message""#));
    resp.extra
        .insert("anthropic.id".to_string(), j(r#""msg_real_0123""#));

    let mut report = TranslationReport::default();
    let body = render_response_body(&resp, &mut report).unwrap();
    assert!(report.dropped.is_empty(), "{:?}", report.dropped);

    let value: Value = serde_json::from_slice(&body).unwrap();
    assert_eq!(value["id"], val(r#""msg_real_0123""#));
    assert_ne!(value["id"], val(r#""msg_translated""#));
    assert_eq!(value["type"], val(r#""message""#));
    assert_eq!(value["role"], val(r#""assistant""#));
}

#[test]
fn render_response_preserves_other_stop_reason_verbatim() {
    let resp = CanonicalResponse {
        model: "m".to_string(),
        content: vec![],
        stop_reason: Some(StopReason::Other("refusal".to_string())),
        usage: None,
        extra: Default::default(),
    };
    let mut report = TranslationReport::default();
    let body = render_response_body(&resp, &mut report).unwrap();
    let value: Value = serde_json::from_slice(&body).unwrap();
    assert_eq!(value["stop_reason"], val(r#""refusal""#));
}

#[test]
fn anthropic_adapter_trait_render_request_dispatches_to_free_function() {
    let adapter = AnthropicAdapter;
    let mut report = TranslationReport::default();
    let body = adapter
        .render_request(&sample_request(), &mut report)
        .unwrap();
    assert!(!body.is_empty());
}
