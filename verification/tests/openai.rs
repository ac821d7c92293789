use serde_json::Value;
use sluice::json::{parse, Double, Json};
use sluice::llm::adapter::{Adapter, AdapterError};
use sluice::llm::delta::DeltaKind;
use sluice::llm::openai::{
    parse_body, parse_delta, parse_response_body, render_request_body, render_response_body, OpenAiAdapter, render_content_parts,
};
use sluice::llm::{
    CanonicalMessage, CanonicalRequest, CanonicalResponse, CanonicalTool, ContentBlock, RequestCtx, Role, Sampling, StopReason, ToolChoice, TranslationReport, CanonicalUsage,
};
use sluice::sse::SseEvent;

fn val(text: &str) -> Value {
    serde_json::from_str(text).unwrap()
}

fn j(text: &str) -> Json {
    parse(text.as_bytes()).unwrap()
}

fn d(x: f64) -> Double {
    Double { bits: x.to_bits() }
}

fn ctx() -> RequestCtx {
    RequestCtx {
        path: "/v1/chat/completions".to_string(),
        method: "POST".to_string(),
    }
}

#[test]
fn openai_parses_string_content() {
    let body = br#"{
        "model": "gpt-4o",
        "messages": [{"role": "user", "content": "hello there"}]
    }"#;
    let req = parse_body(body).unwrap();
    assert_eq!(req.model, "gpt-4o");
    assert_eq!(req.messages.len(), 1);
    assert_eq!(req.messages[0].role, Role::User);
    assert_eq!(
        req.messages[0].content,
        vec![ContentBlock::Text {
            text: "hello there".to_string()
        }]
    );
    assert_eq!(req.sampling.max_tokens, None);
    assert!(!req.stream);
    assert!(req.tools.is_empty());
}

#[test]
fn parses_part_array_content_preserving_image_parts() {
    let body = br#"{
        "model": "gpt-4o",
        "messages": [{
            "role": "user",
            "content": [
                {"type": "text", "text": "first part"},
                {"type": "image_url", "image_url": {"url": "data:image/png;base64,abc"}},
                {"type": "text", "text": "second part"}
            ]
        }]
    }"#;
    let req = parse_body(body).unwrap();
    assert_eq!(req.messages.len(), 1);
    assert_eq!(
        req.messages[0].content,
        vec![
            ContentBlock::Text {
                text: "first part".to_string()
            },
            ContentBlock::Image {
                media_type: "image/png".to_string(),
                data: "abc".to_string(),
            },
            ContentBlock::Text {
                text: "second part".to_string()
            },
        ]
    );
}

#[test]
fn plain_url_image_preserved_without_media_type() {
    let body = br#"{
        "model": "gpt-4o",
        "messages": [{
            "role": "user",
            "content": [{"type": "image_url", "image_url": {"url": "https://example.com/x.png"}}]
        }]
    }"#;
    let req = parse_body(body).unwrap();
    assert_eq!(
        req.messages[0].content,
        vec![ContentBlock::Image {
            media_type: String::new(),
            data: "https://example.com/x.png".to_string(),
        }]
    );
}

#[test]
fn system_message_folds_out_into_system_field() {
    let body = br#"{
        "model": "gpt-4o",
        "messages": [
            {"role": "system", "content": "You are helpful."},
            {"role": "user", "content": "hi"}
        ]
    }"#;
    let req = parse_body(body).unwrap();
    assert_eq!(req.system.as_deref(), Some("You are helpful."));
    assert_eq!(req.messages.len(), 1);
    assert_eq!(req.messages[0].role, Role::User);
}

#[test]
fn missing_system_message_is_none() {
    let body = br#"{"model": "gpt-4o", "messages": [{"role": "user", "content": "hi"}]}"#;
    let req = parse_body(body).unwrap();
    assert_eq!(req.system, None);
}

#[test]
fn project_llm_reproduces_leading_system_message_for_openai() {
    let body = br#"{
        "model": "gpt-4o",
        "messages": [
            {"role": "system", "content": "You are helpful."},
            {"role": "user", "content": "hi"}
        ]
    }"#;
    let req = parse_body(body).unwrap();

    let llm = sluice::llm::project_llm(&req, "openai");

    assert_eq!(llm.messages.len(), 2);
    assert_eq!(llm.messages[0].role, "system");
    assert_eq!(llm.messages[0].content, "You are helpful.");
    assert_eq!(llm.messages[1].role, "user");
    assert_eq!(llm.messages[1].content, "hi");
}

#[test]
fn assistant_tool_calls_become_tool_use_blocks() {
    let body = br#"{
        "model": "gpt-4o",
        "messages": [{
            "role": "assistant",
            "content": null,
            "tool_calls": [{"id": "call_1", "type": "function", "function": {"name": "get_weather", "arguments": "{\"location\":\"NYC\"}"}}]
        }]
    }"#;
    let req = parse_body(body).unwrap();
    assert_eq!(
        req.messages[0].content,
        vec![ContentBlock::ToolUse {
            id: "call_1".to_string(),
            name: "get_weather".to_string(),
            input: j(r#"{"location":"NYC"}"#),
        }]
    );
}

#[test]
fn tool_role_message_becomes_tool_result_block() {
    let body = br#"{
        "model": "gpt-4o",
        "messages": [{"role": "tool", "tool_call_id": "call_1", "content": "72F and sunny"}]
    }"#;
    let req = parse_body(body).unwrap();
    assert_eq!(req.messages[0].role, Role::Tool);
    assert_eq!(
        req.messages[0].content,
        vec![ContentBlock::ToolResult {
            id: "call_1".to_string(),
            content: "72F and sunny".to_string(),
            is_error: false,
        }]
    );
}

#[test]
fn parses_tool_function_names_and_schema() {
    let body = br#"{
        "model": "gpt-4o",
        "messages": [],
        "tools": [
            {"type": "function", "function": {"name": "get_weather", "description": "...", "parameters": {"type": "object"}}},
            {"type": "function", "function": {"name": "search"}}
        ]
    }"#;
    let req = parse_body(body).unwrap();
    assert_eq!(req.tools.len(), 2);
    assert_eq!(req.tools[0].name, "get_weather");
    assert_eq!(req.tools[0].description.as_deref(), Some("..."));
    assert_eq!(
        req.tools[0].input_schema,
        j(r#"{"type":"object"}"#)
    );
    assert_eq!(req.tools[1].name, "search");
}

#[test]
fn parses_legacy_functions_when_tools_absent() {
    let body = br#"{
        "model": "gpt-4o",
        "messages": [],
        "functions": [{"name": "get_weather", "parameters": {"type": "object"}}]
    }"#;
    let req = parse_body(body).unwrap();
    assert_eq!(req.tools.len(), 1);
    assert_eq!(req.tools[0].name, "get_weather");
    assert_eq!(
        req.tools[0].input_schema,
        j(r#"{"type":"object"}"#)
    );
}

#[test]
fn openai_parses_tool_choice_variants() {
    for (json, expected) in [
        (r#""auto""#, ToolChoice::Auto),
        (r#""none""#, ToolChoice::Never),
        (r#""required""#, ToolChoice::Any),
        (
            r#"{"type": "function", "function": {"name": "get_weather"}}"#,
            ToolChoice::Tool("get_weather".to_string()),
        ),
    ] {
        let body = format!(r#"{{"model": "m", "messages": [], "tool_choice": {json}}}"#);
        let req = parse_body(body.as_bytes()).unwrap();
        assert_eq!(req.tool_choice, Some(expected));
    }
}

#[test]
fn parses_sampling_fields_and_stop_array() {
    let body = br#"{
        "model": "gpt-4o",
        "messages": [],
        "temperature": 0.7,
        "top_p": 0.9,
        "stop": ["STOP", "END"]
    }"#;
    let req = parse_body(body).unwrap();
    assert_eq!(req.sampling.temperature, Some(d(0.7)));
    assert_eq!(req.sampling.top_p, Some(d(0.9)));
    assert_eq!(
        req.sampling.stop,
        vec!["STOP".to_string(), "END".to_string()]
    );
}

#[test]
fn parses_stop_as_bare_string() {
    let body = br#"{"model": "gpt-4o", "messages": [], "stop": "STOP"}"#;
    let req = parse_body(body).unwrap();
    assert_eq!(req.sampling.stop, vec!["STOP".to_string()]);
}

#[test]
fn max_tokens_is_parsed() {
    let body = br#"{"model": "gpt-4o", "messages": [], "max_tokens": 512}"#;
    let req = parse_body(body).unwrap();
    assert_eq!(req.sampling.max_tokens, Some(512));
}

#[test]
fn max_completion_tokens_alias_is_parsed() {
    let body = br#"{"model": "gpt-4o", "messages": [], "max_completion_tokens": 256}"#;
    let req = parse_body(body).unwrap();
    assert_eq!(req.sampling.max_tokens, Some(256));
}

#[test]
fn max_tokens_takes_priority_over_alias_when_both_present() {
    let body = br#"{
        "model": "gpt-4o",
        "messages": [],
        "max_tokens": 512,
        "max_completion_tokens": 256
    }"#;
    let req = parse_body(body).unwrap();
    assert_eq!(req.sampling.max_tokens, Some(512));
}

#[test]
fn openai_missing_max_tokens_is_none() {
    let body = br#"{"model": "gpt-4o", "messages": []}"#;
    let req = parse_body(body).unwrap();
    assert_eq!(req.sampling.max_tokens, None);
}

#[test]
fn openai_parses_stream_flag_true() {
    let body = br#"{"model": "gpt-4o", "messages": [], "stream": true}"#;
    let req = parse_body(body).unwrap();
    assert!(req.stream);
}

#[test]
fn openai_missing_stream_defaults_to_false() {
    let body = br#"{"model": "gpt-4o", "messages": []}"#;
    let req = parse_body(body).unwrap();
    assert!(!req.stream);
}

#[test]
fn openai_unknown_top_level_fields_land_in_extra() {
    let body = br#"{"model": "gpt-4o", "messages": [], "user": "u_123"}"#;
    let req = parse_body(body).unwrap();
    assert_eq!(
        req.extra.get("openai.user"),
        Some(&j(r#""u_123""#))
    );
}

#[test]
fn openai_invalid_json_is_malformed_error() {
    let err = parse_body(b"not json at all").unwrap_err();
    assert!(matches!(err, AdapterError::Malformed(_)));
}

#[test]
fn openai_missing_model_is_malformed_error() {
    let body = br#"{"messages": []}"#;
    let err = parse_body(body).unwrap_err();
    assert!(matches!(err, AdapterError::Malformed(_)));
}

#[test]
fn non_string_model_is_malformed_error() {
    let body = br#"{"model": 123, "messages": []}"#;
    let err = parse_body(body).unwrap_err();
    assert!(matches!(err, AdapterError::Malformed(_)));
}

#[test]
fn openai_missing_messages_defaults_to_empty() {
    let body = br#"{"model": "gpt-4o"}"#;
    let req = parse_body(body).unwrap();
    assert!(req.messages.is_empty());
}

#[test]
fn openai_adapter_trait_impl_reports_provider_and_parses() {
    let adapter = OpenAiAdapter;
    assert_eq!(adapter.provider(), "openai");
    let body = br#"{"model": "gpt-4o", "messages": []}"#;
    assert!(adapter.parse_request(body, &ctx()).is_ok());
}

#[test]
fn parses_response_message_content_and_finish_reason_and_usage() {
    let body = br#"{
        "id": "chatcmpl-1",
        "model": "gpt-4o",
        "choices": [{
            "index": 0,
            "message": {"role": "assistant", "content": "hello there"},
            "finish_reason": "stop"
        }],
        "usage": {"prompt_tokens": 10, "completion_tokens": 20, "total_tokens": 30}
    }"#;
    let resp = parse_response_body(body).unwrap();
    assert_eq!(resp.model, "gpt-4o");
    assert_eq!(
        resp.content,
        vec![ContentBlock::Text {
            text: "hello there".to_string()
        }]
    );
    assert_eq!(resp.stop_reason, Some(StopReason::EndTurn));
    assert_eq!(
        resp.usage,
        Some(CanonicalUsage {
            input_tokens: Some(10),
            output_tokens: Some(20),
        })
    );
}

#[test]
fn parses_response_tool_calls() {
    let body = br#"{
        "model": "gpt-4o",
        "choices": [{
            "index": 0,
            "message": {
                "role": "assistant",
                "content": null,
                "tool_calls": [{"id": "call_1", "type": "function", "function": {"name": "get_weather", "arguments": "{\"location\":\"NYC\"}"}}]
            },
            "finish_reason": "tool_calls"
        }]
    }"#;
    let resp = parse_response_body(body).unwrap();
    assert_eq!(
        resp.content,
        vec![ContentBlock::ToolUse {
            id: "call_1".to_string(),
            name: "get_weather".to_string(),
            input: j(r#"{"location":"NYC"}"#),
        }]
    );
    assert_eq!(resp.stop_reason, Some(StopReason::ToolUse));
}

#[test]
fn openai_unrecognized_finish_reason_becomes_other() {
    let body = br#"{
        "model": "m",
        "choices": [{"index": 0, "message": {"role": "assistant", "content": "x"}, "finish_reason": "content_filter"}]
    }"#;
    let resp = parse_response_body(body).unwrap();
    assert_eq!(
        resp.stop_reason,
        Some(StopReason::Other("content_filter".to_string()))
    );
}

#[test]
fn missing_choices_yields_empty_content_and_no_stop_reason() {
    let body = br#"{"model": "m", "choices": []}"#;
    let resp = parse_response_body(body).unwrap();
    assert!(resp.content.is_empty());
    assert_eq!(resp.stop_reason, None);
}

#[test]
fn openai_response_unknown_fields_land_in_extra() {
    let body =
        br#"{"id": "chatcmpl-1", "object": "chat.completion", "model": "m", "choices": []}"#;
    let resp = parse_response_body(body).unwrap();
    assert_eq!(
        resp.extra.get("openai.id"),
        Some(&j(r#""chatcmpl-1""#))
    );
    assert_eq!(
        resp.extra.get("openai.object"),
        Some(&j(r#""chat.completion""#))
    );
}

#[test]
fn openai_response_invalid_json_is_malformed_error() {
    let err = parse_response_body(b"not json at all").unwrap_err();
    assert!(matches!(err, AdapterError::Malformed(_)));
}

#[test]
fn openai_adapter_trait_impl_parses_response() {
    let adapter = OpenAiAdapter;
    let body = br#"{"model": "m", "choices": []}"#;
    assert!(adapter.parse_response(body).is_ok());
}

fn event(data: &str) -> SseEvent {
    SseEvent {
        data: data.to_string(),
    }
}

#[test]
fn openai_parses_text_delta() {
    let data =
        event(r#"{"choices":[{"index":0,"delta":{"content":"Hello"},"finish_reason":null}]}"#);
    let delta = parse_delta(&data).expect("must parse");
    assert_eq!(delta.kind, DeltaKind::Text);
    assert_eq!(delta.text.as_deref(), Some("Hello"));
}

#[test]
fn parses_tool_call_argument_fragment() {
    let data = event(
        r#"{"choices":[{"index":0,"delta":{"tool_calls":[{"index":0,"id":"call_1","function":{"name":"get_weather","arguments":"{\"loc"}}]},"finish_reason":null}]}"#,
    );
    let delta = parse_delta(&data).expect("must parse");
    assert_eq!(delta.kind, DeltaKind::ToolCall);
    let tool_call = delta.tool_call.expect("tool_call must be set");
    assert_eq!(tool_call.id.as_deref(), Some("call_1"));
    assert_eq!(tool_call.name.as_deref(), Some("get_weather"));
    assert_eq!(tool_call.arguments_fragment.as_deref(), Some(r#"{"loc"#));
}

#[test]
fn parses_top_level_usage() {
    let data = event(
        r#"{"choices":[],"usage":{"prompt_tokens":12,"completion_tokens":34,"total_tokens":46}}"#,
    );
    let delta = parse_delta(&data).expect("must parse");
    assert_eq!(delta.kind, DeltaKind::Usage);
    let usage = delta.usage.expect("usage must be set");
    assert_eq!(usage.input_tokens, Some(12));
    assert_eq!(usage.output_tokens, Some(34));
}

#[test]
fn openai_parses_finish_reason() {
    let data = event(r#"{"choices":[{"index":0,"delta":{},"finish_reason":"stop"}]}"#);
    let delta = parse_delta(&data).expect("must parse");
    assert_eq!(delta.kind, DeltaKind::Finish);
    assert_eq!(delta.finish.unwrap().reason.as_deref(), Some("stop"));
}

#[test]
fn done_sentinel_is_none() {
    let data = event("[DONE]");
    assert!(parse_delta(&data).is_none());
}

#[test]
fn openai_malformed_json_is_none() {
    let data = event("not json");
    assert!(parse_delta(&data).is_none());
}

#[test]
fn openai_adapter_parse_delta_dispatches_to_free_function() {
    let adapter = OpenAiAdapter;
    let data =
        event(r#"{"choices":[{"index":0,"delta":{"content":"hi"},"finish_reason":null}]}"#);
    let delta = adapter.parse_delta(&data).expect("must parse");
    assert_eq!(delta.text.as_deref(), Some("hi"));
}

fn sample_request() -> CanonicalRequest {
    CanonicalRequest {
        model: "gpt-4o".to_string(),
        messages: vec![CanonicalMessage {
            role: Role::User,
            content: vec![ContentBlock::Text {
                text: "hi".to_string(),
            }],
        }],
        system: Some("You are helpful.".to_string()),
        tools: vec![CanonicalTool {
            name: "get_weather".to_string(),
            description: Some("Look up the weather".to_string()),
            input_schema: j(r#"{"type":"object"}"#),
        }],
        tool_choice: Some(ToolChoice::Auto),
        sampling: Sampling {
            temperature: Some(d(0.7)),
            top_p: Some(d(0.9)),
            top_k: None,
            max_tokens: Some(1024),
            stop: vec!["STOP".to_string()],
        },
        stream: false,
        extra: Default::default(),
    }
}

#[test]
fn openai_render_request_round_trips_through_parse() {
    let req = sample_request();
    let mut report = TranslationReport::default();
    let body = render_request_body(&req, &mut report).unwrap();
    assert!(report.dropped.is_empty());

    let reparsed = parse_body(&body).unwrap();
    assert_eq!(reparsed, req);
}

#[test]
fn render_request_writes_leading_system_message_and_tools() {
    let req = sample_request();
    let mut report = TranslationReport::default();
    let body = render_request_body(&req, &mut report).unwrap();
    let value: Value = serde_json::from_slice(&body).unwrap();

    assert_eq!(value["messages"][0]["role"], val(r#""system""#));
    assert_eq!(value["messages"][0]["content"], val(r#""You are helpful.""#));
    assert_eq!(value["messages"][1]["role"], val(r#""user""#));
    assert_eq!(
        value["tools"][0],
        val(r#"{ "type": "function", "function": { "name": "get_weather", "description": "Look up the weather", "parameters": {"type": "object"} } }"#)
    );
    assert_eq!(value["max_completion_tokens"], val(r#"1024"#));
    assert!(value.get("max_tokens").is_none());
}

#[test]
fn render_request_drops_top_k_with_report_note() {
    let mut req = sample_request();
    req.sampling.top_k = Some(40);
    let mut report = TranslationReport::default();
    let body = render_request_body(&req, &mut report).unwrap();
    let value: Value = serde_json::from_slice(&body).unwrap();

    assert!(value.get("top_k").is_none());
    assert_eq!(report.dropped.len(), 1);
    assert_eq!(report.dropped[0].path, "sampling.top_k");
}

#[test]
fn render_request_splits_tool_result_into_separate_tool_message() {
    let mut req = sample_request();
    req.messages = vec![
        CanonicalMessage {
            role: Role::Assistant,
            content: vec![ContentBlock::ToolUse {
                id: "call_1".to_string(),
                name: "get_weather".to_string(),
                input: j(r#"{"location":"NYC"}"#),
            }],
        },
        CanonicalMessage {
            role: Role::Tool,
            content: vec![ContentBlock::ToolResult {
                id: "call_1".to_string(),
                content: "72F and sunny".to_string(),
                is_error: false,
            }],
        },
    ];
    let mut report = TranslationReport::default();
    let body = render_request_body(&req, &mut report).unwrap();
    let value: Value = serde_json::from_slice(&body).unwrap();

    assert_eq!(
        value["messages"][1]["tool_calls"][0]["function"]["name"],
        val(r#""get_weather""#)
    );
    assert_eq!(value["messages"][2]["role"], val(r#""tool""#));
    assert_eq!(value["messages"][2]["tool_call_id"], val(r#""call_1""#));
    assert_eq!(value["messages"][2]["content"], val(r#""72F and sunny""#));
}

#[test]
fn tool_role_message_with_tool_use_block_renders_as_assistant_with_tool_calls() {
    let mut req = sample_request();
    req.messages = vec![CanonicalMessage {
        role: Role::Tool,
        content: vec![ContentBlock::ToolUse {
            id: "call_1".to_string(),
            name: "get_weather".to_string(),
            input: j(r#"{"location":"NYC"}"#),
        }],
    }];
    let mut report = TranslationReport::default();
    let body = render_request_body(&req, &mut report).unwrap();
    let value: Value = serde_json::from_slice(&body).unwrap();

    let rendered = &value["messages"][1];
    assert_eq!(rendered["role"], val(r#""assistant""#));
    assert_eq!(
        rendered["tool_calls"][0]["function"]["name"],
        val(r#""get_weather""#)
    );
    for message in value["messages"].as_array().unwrap() {
        if message["role"] == val(r#""tool""#) {
            assert!(
                message.get("tool_call_id").is_some(),
                "a role:\"tool\" message must always carry tool_call_id: {message:?}"
            );
        }
    }
    assert!(!report.notes.is_empty());

    let reparsed = parse_body(&body).unwrap();
    assert_eq!(
        reparsed.messages.iter().find(|m| m.role == Role::Assistant),
        Some(&CanonicalMessage {
            role: Role::Assistant,
            content: vec![ContentBlock::ToolUse {
                id: "call_1".to_string(),
                name: "get_weather".to_string(),
                input: j(r#"{"location":"NYC"}"#),
            }],
        })
    );
}

#[test]
fn render_content_parts_returns_error_instead_of_panicking_on_tool_blocks() {
    let block = ContentBlock::ToolUse {
        id: "call_1".to_string(),
        name: "get_weather".to_string(),
        input: j(r#"{}"#),
    };
    let blocks: Vec<&ContentBlock> = vec![&block];
    let err = render_content_parts(&blocks).unwrap_err();
    assert!(matches!(err, AdapterError::Malformed(_)));
}

#[test]
fn openai_render_request_drops_cross_provider_extra_fields() {
    let mut req = sample_request();
    req.extra
        .insert("anthropic.user".to_string(), j(r#""u_123""#));
    let mut report = TranslationReport::default();
    render_request_body(&req, &mut report).unwrap();

    assert_eq!(report.dropped.len(), 1);
    assert_eq!(report.dropped[0].path, "extra.user");
    assert!(report.dropped[0].reason.contains("anthropic"));
}

#[test]
fn openai_render_request_preserves_same_provider_extra_field_on_round_trip() {
    let mut req = sample_request();
    req.extra
        .insert("openai.user".to_string(), j(r#""u_123""#));
    let mut report = TranslationReport::default();
    let body = render_request_body(&req, &mut report).unwrap();
    assert!(
        report.dropped.is_empty(),
        "same-provider extra must survive: {:?}",
        report.dropped
    );

    let value: Value = serde_json::from_slice(&body).unwrap();
    assert_eq!(value["user"], val(r#""u_123""#));

    let reparsed = parse_body(&body).unwrap();
    assert_eq!(reparsed, req);
}

#[test]
fn openai_render_response_round_trips_through_parse() {
    let resp = CanonicalResponse {
        model: "gpt-4o".to_string(),
        content: vec![ContentBlock::Text {
            text: "hello there".to_string(),
        }],
        stop_reason: Some(StopReason::EndTurn),
        usage: Some(CanonicalUsage {
            input_tokens: Some(10),
            output_tokens: Some(20),
        }),
        extra: Default::default(),
    };
    let mut report = TranslationReport::default();
    let body = render_response_body(&resp, &mut report).unwrap();
    assert!(report.dropped.is_empty());

    let reparsed = parse_response_body(&body).unwrap();
    let mut expected = resp.clone();
    expected
        .extra
        .insert("openai.object".to_string(), j(r#""chat.completion""#));
    expected
        .extra
        .insert("openai.id".to_string(), j(r#""chatcmpl-translated""#));
    expected
        .extra
        .insert("openai.created".to_string(), j(r#"0"#));
    assert_eq!(reparsed, expected);
}

#[test]
fn openai_render_response_preserves_same_provider_extra_field_on_round_trip() {
    let mut resp = CanonicalResponse {
        model: "gpt-4o".to_string(),
        content: vec![ContentBlock::Text {
            text: "hello there".to_string(),
        }],
        stop_reason: Some(StopReason::EndTurn),
        usage: None,
        extra: Default::default(),
    };
    resp.extra.insert(
        "openai.object".to_string(),
        j(r#""chat.completion""#),
    );

    let mut report = TranslationReport::default();
    let body = render_response_body(&resp, &mut report).unwrap();
    assert!(
        report.dropped.is_empty(),
        "same-provider extra must survive: {:?}",
        report.dropped
    );

    let value: Value = serde_json::from_slice(&body).unwrap();
    assert_eq!(value["object"], val(r#""chat.completion""#));

    let reparsed = parse_response_body(&body).unwrap();
    let mut expected = resp.clone();
    expected
        .extra
        .insert("openai.id".to_string(), j(r#""chatcmpl-translated""#));
    expected
        .extra
        .insert("openai.created".to_string(), j(r#"0"#));
    assert_eq!(reparsed, expected);
}

#[test]
fn openai_render_response_synthesizes_discriminators_for_cross_provider_translation() {
    let mut resp = CanonicalResponse {
        model: "gpt-4o".to_string(),
        content: vec![ContentBlock::Text {
            text: "hello there".to_string(),
        }],
        stop_reason: Some(StopReason::EndTurn),
        usage: None,
        extra: Default::default(),
    };
    resp.extra
        .insert("anthropic.id".to_string(), j(r#""msg_1""#));

    let mut report = TranslationReport::default();
    let body = render_response_body(&resp, &mut report).unwrap();

    let value: Value = serde_json::from_slice(&body).unwrap();
    assert_eq!(value["object"], val(r#""chat.completion""#));
    assert!(value["id"].is_string());
    assert!(value["created"].is_i64() || value["created"].is_u64());

    for field in ["object", "id", "created"] {
        assert!(
            !report.dropped.iter().any(|d| d.path == field),
            "{field} must not be reported as dropped: {:?}",
            report.dropped
        );
    }
}

#[test]
fn render_response_prefers_real_same_provider_id_and_created_over_synthesized() {
    let mut resp = CanonicalResponse {
        model: "gpt-4o".to_string(),
        content: vec![ContentBlock::Text {
            text: "hello there".to_string(),
        }],
        stop_reason: Some(StopReason::EndTurn),
        usage: None,
        extra: Default::default(),
    };
    resp.extra
        .insert("openai.id".to_string(), j(r#""chatcmpl-real0123""#));
    resp.extra
        .insert("openai.created".to_string(), j("1700000000"));

    let mut report = TranslationReport::default();
    let body = render_response_body(&resp, &mut report).unwrap();
    assert!(report.dropped.is_empty(), "{:?}", report.dropped);

    let value: Value = serde_json::from_slice(&body).unwrap();
    assert_eq!(value["id"], val(r#""chatcmpl-real0123""#));
    assert_ne!(value["id"], val(r#""chatcmpl-translated""#));
    assert_eq!(value["created"], val("1700000000"));
    assert_eq!(value["object"], val(r#""chat.completion""#));
}

#[test]
fn render_response_maps_tool_use_to_tool_calls_and_finish_reason() {
    let resp = CanonicalResponse {
        model: "gpt-4o".to_string(),
        content: vec![ContentBlock::ToolUse {
            id: "call_1".to_string(),
            name: "get_weather".to_string(),
            input: j(r#"{"location":"NYC"}"#),
        }],
        stop_reason: Some(StopReason::ToolUse),
        usage: None,
        extra: Default::default(),
    };
    let mut report = TranslationReport::default();
    let body = render_response_body(&resp, &mut report).unwrap();
    let value: Value = serde_json::from_slice(&body).unwrap();

    assert_eq!(
        value["choices"][0]["message"]["tool_calls"][0]["function"]["name"],
        val(r#""get_weather""#)
    );
    assert_eq!(value["choices"][0]["finish_reason"], val(r#""tool_calls""#));
}

#[test]
fn render_response_downgrades_stop_sequence_with_note() {
    let resp = CanonicalResponse {
        model: "m".to_string(),
        content: vec![],
        stop_reason: Some(StopReason::StopSequence),
        usage: None,
        extra: Default::default(),
    };
    let mut report = TranslationReport::default();
    let body = render_response_body(&resp, &mut report).unwrap();
    let value: Value = serde_json::from_slice(&body).unwrap();

    assert_eq!(value["choices"][0]["finish_reason"], val(r#""stop""#));
    assert!(!report.notes.is_empty());
}

#[test]
fn openai_adapter_trait_render_request_dispatches_to_free_function() {
    let adapter = OpenAiAdapter;
    let mut report = TranslationReport::default();
    let body = adapter
        .render_request(&sample_request(), &mut report)
        .unwrap();
    assert!(!body.is_empty());
}
