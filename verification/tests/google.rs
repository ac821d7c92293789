use serde_json::Value;
use sluice::json::{parse, Double, Json};
use sluice::llm::adapter::{Adapter, AdapterError};
use sluice::llm::delta::DeltaKind;
use sluice::llm::google::{
    parse_body, parse_delta, parse_response_body, render_request_body, render_response_body, GoogleAdapter, model_from_path,
};
use sluice::llm::{
    CanonicalMessage, CanonicalRequest, CanonicalResponse, CanonicalTool, ContentBlock, RequestCtx, Role, Sampling, StopReason, TranslationReport, CanonicalUsage,
};
use sluice::sse::SseEvent;

fn val(text: &str) -> Value {
    serde_json::from_str(text).unwrap()
}

fn j(text: &str) -> Json {
    parse(text.as_bytes()).unwrap()
}

fn d(x: f64) -> Double {
    Double { bits: x.to_bits() }
}

fn ctx(path: &str) -> RequestCtx {
    RequestCtx {
        path: path.to_string(),
        method: "POST".to_string(),
    }
}

#[test]
fn parses_contents_into_messages() {
    let body = br#"{
        "contents": [
            {"role": "user", "parts": [{"text": "hello there"}]}
        ]
    }"#;
    let req = parse_body(body, &ctx("/v1beta/models/gemini-1.5-pro:generateContent")).unwrap();
    assert_eq!(req.messages.len(), 1);
    assert_eq!(req.messages[0].role, Role::User);
    assert_eq!(
        req.messages[0].content,
        vec![ContentBlock::Text {
            text: "hello there".to_string()
        }]
    );
}

#[test]
fn maps_model_role_to_assistant() {
    let body = br#"{"contents": [{"role": "model", "parts": [{"text": "hi"}]}]}"#;
    let req = parse_body(body, &ctx("/v1beta/models/gemini-1.5-pro:generateContent")).unwrap();
    assert_eq!(req.messages[0].role, Role::Assistant);
}

#[test]
fn joins_multiple_text_parts() {
    let body = br#"{
        "contents": [
            {"role": "user", "parts": [{"text": "first part"}, {"text": "second part"}]}
        ]
    }"#;
    let req = parse_body(body, &ctx("/v1beta/models/gemini-1.5-pro:generateContent")).unwrap();
    assert_eq!(
        req.messages[0].content,
        vec![
            ContentBlock::Text {
                text: "first part".to_string()
            },
            ContentBlock::Text {
                text: "second part".to_string()
            },
        ]
    );
}

#[test]
fn parses_inline_data_as_image_block() {
    let body = br#"{
        "contents": [
            {"role": "user", "parts": [{"inlineData": {"mimeType": "image/png", "data": "abc"}}]}
        ]
    }"#;
    let req = parse_body(body, &ctx("/v1beta/models/gemini-1.5-pro:generateContent")).unwrap();
    assert_eq!(
        req.messages[0].content,
        vec![ContentBlock::Image {
            media_type: "image/png".to_string(),
            data: "abc".to_string(),
        }]
    );
}

#[test]
fn parses_function_call_as_tool_use_block() {
    let body = br#"{
        "contents": [
            {"role": "model", "parts": [{"functionCall": {"name": "get_weather", "args": {"location": "NYC"}}}]}
        ]
    }"#;
    let req = parse_body(body, &ctx("/v1beta/models/gemini-1.5-pro:generateContent")).unwrap();
    assert_eq!(
        req.messages[0].content,
        vec![ContentBlock::ToolUse {
            id: "get_weather".to_string(),
            name: "get_weather".to_string(),
            input: j(r#"{"location":"NYC"}"#),
        }]
    );
}

#[test]
fn parses_function_response_as_tool_result_block() {
    let body = br#"{
        "contents": [
            {"role": "function", "parts": [{"functionResponse": {"name": "get_weather", "response": {"result": "sunny"}}}]}
        ]
    }"#;
    let req = parse_body(body, &ctx("/v1beta/models/gemini-1.5-pro:generateContent")).unwrap();
    assert_eq!(req.messages[0].role, Role::Tool);
    assert_eq!(
        req.messages[0].content,
        vec![ContentBlock::ToolResult {
            id: "get_weather".to_string(),
            content: serde_json::to_string(&val(r#"{"result":"sunny"}"#)).unwrap(),
            is_error: false,
        }]
    );
}

#[test]
fn model_comes_from_path_segment() {
    let body = br#"{"contents": []}"#;
    let req = parse_body(body, &ctx("/v1beta/models/gemini-1.5-pro:generateContent")).unwrap();
    assert_eq!(req.model, "gemini-1.5-pro");
}

#[test]
fn model_from_path_wins_over_body_model_field() {
    let body = br#"{"model": "body-model", "contents": []}"#;
    let req = parse_body(body, &ctx("/v1beta/models/gemini-1.5-pro:generateContent")).unwrap();
    assert_eq!(req.model, "gemini-1.5-pro");
}

#[test]
fn falls_back_to_body_model_field_when_path_has_no_model_segment() {
    let body = br#"{"model": "gemini-1.5-pro", "contents": []}"#;
    let req = parse_body(body, &ctx("/some/other/path")).unwrap();
    assert_eq!(req.model, "gemini-1.5-pro");
}

#[test]
fn missing_model_in_both_path_and_body_defaults_to_empty_string() {
    let body = br#"{"contents": []}"#;
    let req = parse_body(body, &ctx("/some/other/path")).unwrap();
    assert_eq!(req.model, "");
}

#[test]
fn model_from_path_handles_streaming_method_segment() {
    assert_eq!(
        model_from_path("/v1beta/models/gemini-1.5-pro:streamGenerateContent"),
        Some("gemini-1.5-pro".to_string())
    );
}

#[test]
fn model_from_path_none_when_no_models_segment() {
    assert_eq!(model_from_path("/v1beta/foo/bar"), None);
}

#[test]
fn model_from_path_handles_trailing_query_string() {
    assert_eq!(
        model_from_path("/v1beta/models/gemini-2.5-pro:generateContent?key=abc"),
        Some("gemini-2.5-pro".to_string())
    );
}

#[test]
fn parses_system_instruction() {
    let body = br#"{
        "contents": [],
        "systemInstruction": {"role": "system", "parts": [{"text": "You are helpful."}]}
    }"#;
    let req = parse_body(body, &ctx("/v1beta/models/gemini-1.5-pro:generateContent")).unwrap();
    assert_eq!(req.system.as_deref(), Some("You are helpful."));
}

#[test]
fn missing_system_instruction_is_none() {
    let body = br#"{"contents": []}"#;
    let req = parse_body(body, &ctx("/v1beta/models/gemini-1.5-pro:generateContent")).unwrap();
    assert_eq!(req.system, None);
}

#[test]
fn parses_function_declaration_names_and_schema() {
    let body = br#"{
        "contents": [],
        "tools": [
            {"functionDeclarations": [
                {"name": "get_weather", "description": "...", "parameters": {"type": "object"}},
                {"name": "search"}
            ]}
        ]
    }"#;
    let req = parse_body(body, &ctx("/v1beta/models/gemini-1.5-pro:generateContent")).unwrap();
    assert_eq!(req.tools.len(), 2);
    assert_eq!(req.tools[0].name, "get_weather");
    assert_eq!(req.tools[0].description.as_deref(), Some("..."));
    assert_eq!(
        req.tools[0].input_schema,
        j(r#"{"type":"object"}"#)
    );
    assert_eq!(req.tools[1].name, "search");
}

#[test]
fn parses_generation_config_sampling() {
    let body = br#"{
        "contents": [],
        "generationConfig": {
            "temperature": 0.7,
            "topP": 0.9,
            "topK": 40,
            "maxOutputTokens": 2048,
            "stopSequences": ["STOP"]
        }
    }"#;
    let req = parse_body(body, &ctx("/v1beta/models/gemini-1.5-pro:generateContent")).unwrap();
    assert_eq!(req.sampling.temperature, Some(d(0.7)));
    assert_eq!(req.sampling.top_p, Some(d(0.9)));
    assert_eq!(req.sampling.top_k, Some(40));
    assert_eq!(req.sampling.max_tokens, Some(2048));
    assert_eq!(req.sampling.stop, vec!["STOP".to_string()]);
}

#[test]
fn missing_generation_config_is_default_sampling() {
    let body = br#"{"contents": []}"#;
    let req = parse_body(body, &ctx("/v1beta/models/gemini-1.5-pro:generateContent")).unwrap();
    assert_eq!(req.sampling, Sampling::default());
}

#[test]
fn stream_defaults_to_false() {
    let body = br#"{"contents": []}"#;
    let req = parse_body(body, &ctx("/v1beta/models/gemini-1.5-pro:generateContent")).unwrap();
    assert!(!req.stream);
}

#[test]
fn stream_defaults_to_false_even_on_stream_generate_content_path() {
    let body = br#"{"contents": []}"#;
    let req = parse_body(
        body,
        &ctx("/v1beta/models/gemini-1.5-pro:streamGenerateContent"),
    )
    .unwrap();
    assert!(!req.stream);
}

#[test]
fn missing_contents_defaults_to_empty_messages() {
    let body = br#"{}"#;
    let req = parse_body(body, &ctx("/v1beta/models/gemini-1.5-pro:generateContent")).unwrap();
    assert!(req.messages.is_empty());
}

#[test]
fn google_unknown_top_level_fields_land_in_extra() {
    let body = br#"{"contents": [], "safetySettings": ["x"]}"#;
    let req = parse_body(body, &ctx("/v1beta/models/gemini-1.5-pro:generateContent")).unwrap();
    assert_eq!(
        req.extra.get("google.safetySettings"),
        Some(&j(r#"["x"]"#))
    );
}

#[test]
fn google_invalid_json_is_malformed_error() {
    let err =
        parse_body(b"not json at all", &ctx("/v1beta/models/x:generateContent")).unwrap_err();
    assert!(matches!(err, AdapterError::Malformed(_)));
}

#[test]
fn google_adapter_trait_impl_reports_provider_and_parses() {
    let adapter = GoogleAdapter;
    assert_eq!(adapter.provider(), "google");
    let body = br#"{"contents": []}"#;
    assert!(adapter
        .parse_request(body, &ctx("/v1beta/models/gemini-1.5-pro:generateContent"))
        .is_ok());
}

#[test]
fn parses_response_content_finish_reason_and_usage() {
    let body = br#"{
        "candidates": [{
            "content": {"parts": [{"text": "hello there"}], "role": "model"},
            "finishReason": "STOP",
            "index": 0
        }],
        "usageMetadata": {"promptTokenCount": 10, "candidatesTokenCount": 20, "totalTokenCount": 30},
        "modelVersion": "gemini-1.5-pro"
    }"#;
    let resp = parse_response_body(body).unwrap();
    assert_eq!(resp.model, "gemini-1.5-pro");
    assert_eq!(
        resp.content,
        vec![ContentBlock::Text {
            text: "hello there".to_string()
        }]
    );
    assert_eq!(resp.stop_reason, Some(StopReason::EndTurn));
    assert_eq!(
        resp.usage,
        Some(CanonicalUsage {
            input_tokens: Some(10),
            output_tokens: Some(20),
        })
    );
}

#[test]
fn missing_model_version_defaults_to_empty_string() {
    let body = br#"{"candidates": []}"#;
    let resp = parse_response_body(body).unwrap();
    assert_eq!(resp.model, "");
}

#[test]
fn google_unrecognized_finish_reason_becomes_other() {
    let body = br#"{"candidates": [{"content": {"parts": [], "role": "model"}, "finishReason": "SAFETY", "index": 0}]}"#;
    let resp = parse_response_body(body).unwrap();
    assert_eq!(
        resp.stop_reason,
        Some(StopReason::Other("SAFETY".to_string()))
    );
}

#[test]
fn no_candidates_yields_empty_content_and_no_stop_reason() {
    let body = br#"{"candidates": []}"#;
    let resp = parse_response_body(body).unwrap();
    assert!(resp.content.is_empty());
    assert_eq!(resp.stop_reason, None);
}

#[test]
fn google_response_unknown_fields_land_in_extra() {
    let body = br#"{"candidates": [], "promptFeedback": {"blockReason": "SAFETY"}}"#;
    let resp = parse_response_body(body).unwrap();
    assert_eq!(
        resp.extra.get("google.promptFeedback"),
        Some(&j(r#"{"blockReason":"SAFETY"}"#))
    );
}

#[test]
fn google_response_invalid_json_is_malformed_error() {
    let err = parse_response_body(b"not json at all").unwrap_err();
    assert!(matches!(err, AdapterError::Malformed(_)));
}

#[test]
fn google_adapter_trait_impl_parses_response() {
    let adapter = GoogleAdapter;
    let body = br#"{"candidates": []}"#;
    assert!(adapter.parse_response(body).is_ok());
}

fn event(data: &str) -> SseEvent {
    SseEvent {
        data: data.to_string(),
    }
}

#[test]
fn google_parses_text_delta() {
    let data = event(
        r#"{"candidates":[{"content":{"parts":[{"text":"Hello"}],"role":"model"},"index":0}]}"#,
    );
    let delta = parse_delta(&data).expect("must parse");
    assert_eq!(delta.kind, DeltaKind::Text);
    assert_eq!(delta.text.as_deref(), Some("Hello"));
}

#[test]
fn parses_usage_metadata() {
    let data = event(
        r#"{"candidates":[],"usageMetadata":{"promptTokenCount":10,"candidatesTokenCount":20,"totalTokenCount":30}}"#,
    );
    let delta = parse_delta(&data).expect("must parse");
    assert_eq!(delta.kind, DeltaKind::Usage);
    let usage = delta.usage.expect("usage must be set");
    assert_eq!(usage.input_tokens, Some(10));
    assert_eq!(usage.output_tokens, Some(20));
}

#[test]
fn google_parses_finish_reason() {
    let data = event(
        r#"{"candidates":[{"content":{"parts":[],"role":"model"},"finishReason":"STOP","index":0}]}"#,
    );
    let delta = parse_delta(&data).expect("must parse");
    assert_eq!(delta.kind, DeltaKind::Finish);
    assert_eq!(delta.finish.unwrap().reason.as_deref(), Some("STOP"));
}

#[test]
fn usage_metadata_takes_priority_over_finish_reason_when_both_present() {
    let data = event(
        r#"{"candidates":[{"finishReason":"STOP","index":0}],"usageMetadata":{"promptTokenCount":1,"candidatesTokenCount":2}}"#,
    );
    let delta = parse_delta(&data).expect("must parse");
    assert_eq!(delta.kind, DeltaKind::Usage);
}

#[test]
fn no_candidates_is_none() {
    let data = event(r#"{"candidates":[]}"#);
    assert!(parse_delta(&data).is_none());
}

#[test]
fn google_malformed_json_is_none() {
    let data = event("not json");
    assert!(parse_delta(&data).is_none());
}

#[test]
fn google_adapter_parse_delta_dispatches_to_free_function() {
    let adapter = GoogleAdapter;
    let data = event(
        r#"{"candidates":[{"content":{"parts":[{"text":"hi"}],"role":"model"},"index":0}]}"#,
    );
    let delta = adapter.parse_delta(&data).expect("must parse");
    assert_eq!(delta.text.as_deref(), Some("hi"));
}

fn sample_request() -> CanonicalRequest {
    CanonicalRequest {
        model: "gemini-1.5-pro".to_string(),
        messages: vec![CanonicalMessage {
            role: Role::User,
            content: vec![ContentBlock::Text {
                text: "hi".to_string(),
            }],
        }],
        system: Some("You are helpful.".to_string()),
        tools: vec![CanonicalTool {
            name: "get_weather".to_string(),
            description: Some("Look up the weather".to_string()),
            input_schema: j(r#"{"type":"object"}"#),
        }],
        tool_choice: None,
        sampling: Sampling {
            temperature: Some(d(0.7)),
            top_p: Some(d(0.9)),
            top_k: Some(40),
            max_tokens: Some(1024),
            stop: vec!["STOP".to_string()],
        },
        stream: false,
        extra: Default::default(),
    }
}

#[test]
fn google_render_request_round_trips_through_parse() {
    let req = sample_request();
    let mut report = TranslationReport::default();
    let body = render_request_body(&req, &mut report).unwrap();
    assert!(report.dropped.is_empty());

    let reparsed =
        parse_body(&body, &ctx("/v1beta/models/gemini-1.5-pro:generateContent")).unwrap();
    assert_eq!(reparsed, req);
}

#[test]
fn render_request_writes_system_instruction_and_function_declarations() {
    let req = sample_request();
    let mut report = TranslationReport::default();
    let body = render_request_body(&req, &mut report).unwrap();
    let value: Value = serde_json::from_slice(&body).unwrap();

    assert_eq!(
        value["systemInstruction"]["parts"][0]["text"],
        val(r#""You are helpful.""#)
    );
    assert_eq!(
        value["tools"][0]["functionDeclarations"][0]["name"],
        val(r#""get_weather""#)
    );
    assert_eq!(value["generationConfig"]["maxOutputTokens"], val(r#"1024"#));
    assert_eq!(value["generationConfig"]["topK"], val(r#"40"#));
}

#[test]
fn render_request_drops_tool_choice() {
    let mut req = sample_request();
    req.tool_choice = Some(sluice::llm::ToolChoice::Auto);
    let mut report = TranslationReport::default();
    render_request_body(&req, &mut report).unwrap();

    assert_eq!(report.dropped.len(), 1);
    assert_eq!(report.dropped[0].path, "tool_choice");
}

#[test]
fn render_request_drops_stream_true_with_note() {
    let mut req = sample_request();
    req.stream = true;
    let mut report = TranslationReport::default();
    let body = render_request_body(&req, &mut report).unwrap();
    let value: Value = serde_json::from_slice(&body).unwrap();

    assert!(value.get("stream").is_none());
    assert_eq!(report.dropped.len(), 1);
    assert_eq!(report.dropped[0].path, "stream");
}

#[test]
fn google_render_request_drops_cross_provider_extra_fields() {
    let mut req = sample_request();
    req.extra.insert(
        "anthropic.safetySettings".to_string(),
        j(r#"["x"]"#),
    );
    let mut report = TranslationReport::default();
    render_request_body(&req, &mut report).unwrap();

    assert_eq!(report.dropped.len(), 1);
    assert_eq!(report.dropped[0].path, "extra.safetySettings");
    assert!(report.dropped[0].reason.contains("anthropic"));
}

#[test]
fn google_render_request_preserves_same_provider_extra_field_on_round_trip() {
    let mut req = sample_request();
    req.extra.insert(
        "google.safetySettings".to_string(),
        j(r#"["x"]"#),
    );
    let mut report = TranslationReport::default();
    let body = render_request_body(&req, &mut report).unwrap();
    assert!(
        report.dropped.is_empty(),
        "same-provider extra must survive: {:?}",
        report.dropped
    );

    let value: Value = serde_json::from_slice(&body).unwrap();
    assert_eq!(value["safetySettings"], val(r#"["x"]"#));

    let reparsed =
        parse_body(&body, &ctx("/v1beta/models/gemini-1.5-pro:generateContent")).unwrap();
    assert_eq!(reparsed, req);
}

#[test]
fn render_request_drops_tool_use_id_when_it_diverges_from_name() {
    let mut req = sample_request();
    req.messages = vec![CanonicalMessage {
        role: Role::Assistant,
        content: vec![ContentBlock::ToolUse {
            id: "call_1".to_string(),
            name: "get_weather".to_string(),
            input: j(r#"{"location":"NYC"}"#),
        }],
    }];
    let mut report = TranslationReport::default();
    let body = render_request_body(&req, &mut report).unwrap();
    let value: Value = serde_json::from_slice(&body).unwrap();

    assert_eq!(
        value["contents"][0]["parts"][0]["functionCall"]["name"],
        val(r#""get_weather""#)
    );
    assert!(report
        .dropped
        .iter()
        .any(|d| d.path == "messages[0].content.tool_use.id"));
}

#[test]
fn google_render_response_round_trips_through_parse() {
    let resp = CanonicalResponse {
        model: "gemini-1.5-pro".to_string(),
        content: vec![ContentBlock::Text {
            text: "hello there".to_string(),
        }],
        stop_reason: Some(StopReason::EndTurn),
        usage: Some(CanonicalUsage {
            input_tokens: Some(10),
            output_tokens: Some(20),
        }),
        extra: Default::default(),
    };
    let mut report = TranslationReport::default();
    let body = render_response_body(&resp, &mut report).unwrap();
    assert!(report.dropped.is_empty());

    let reparsed = parse_response_body(&body).unwrap();
    assert_eq!(reparsed, resp);
}

#[test]
fn google_render_response_preserves_same_provider_extra_field_on_round_trip() {
    let mut resp = CanonicalResponse {
        model: "gemini-1.5-pro".to_string(),
        content: vec![ContentBlock::Text {
            text: "hello there".to_string(),
        }],
        stop_reason: Some(StopReason::EndTurn),
        usage: None,
        extra: Default::default(),
    };
    resp.extra.insert(
        "google.promptFeedback".to_string(),
        j(r#"{"blockReason":"SAFETY"}"#),
    );

    let mut report = TranslationReport::default();
    let body = render_response_body(&resp, &mut report).unwrap();
    assert!(
        report.dropped.is_empty(),
        "same-provider extra must survive: {:?}",
        report.dropped
    );

    let value: Value = serde_json::from_slice(&body).unwrap();
    assert_eq!(value["promptFeedback"], val(r#"{"blockReason":"SAFETY"}"#));

    let reparsed = parse_response_body(&body).unwrap();
    assert_eq!(reparsed, resp);
}

#[test]
fn render_response_downgrades_tool_use_stop_reason_with_note() {
    let resp = CanonicalResponse {
        model: "m".to_string(),
        content: vec![],
        stop_reason: Some(StopReason::ToolUse),
        usage: None,
        extra: Default::default(),
    };
    let mut report = TranslationReport::default();
    let body = render_response_body(&resp, &mut report).unwrap();
    let value: Value = serde_json::from_slice(&body).unwrap();

    assert_eq!(value["candidates"][0]["finishReason"], val(r#""STOP""#));
    assert!(!report.notes.is_empty());
}

#[test]
fn google_adapter_trait_render_request_dispatches_to_free_function() {
    let adapter = GoogleAdapter;
    let mut report = TranslationReport::default();
    let body = adapter
        .render_request(&sample_request(), &mut report)
        .unwrap();
    assert!(!body.is_empty());
}
