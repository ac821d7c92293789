use sluice::json::{parse, Double, Json, JsonMap};
use sluice::llm::adapter::{adapter_for, collect_extra, emit_or_drop_extra, Adapter, AdapterError, ProviderAdapter};
use sluice::llm::google::model_from_path;
use sluice::llm::openai::{parse_image_url, render_image_url};
use sluice::llm::{
    CanonicalMessage, CanonicalRequest, CanonicalResponse, CanonicalTool, CanonicalUsage, ContentBlock, RequestCtx,
    Role, Sampling, StopReason, ToolChoice, TranslationReport,
};

fn j(text: &str) -> Json {
    parse(text.as_bytes()).unwrap()
}

fn d(x: f64) -> Double {
    Double { bits: x.to_bits() }
}

fn adapter(name: &str) -> ProviderAdapter {
    adapter_for(name).unwrap()
}

fn ctx() -> RequestCtx {
    RequestCtx { path: "/v1beta/models/m:generateContent".to_string(), method: "POST".to_string() }
}

fn text(s: &str) -> ContentBlock {
    ContentBlock::Text { text: s.to_string() }
}

fn message(role: Role, content: Vec<ContentBlock>) -> CanonicalMessage {
    CanonicalMessage { role, content }
}

fn request() -> CanonicalRequest {
    CanonicalRequest {
        model: "m".to_string(),
        messages: vec![
            message(Role::User, vec![text("hi")]),
            message(Role::Assistant, vec![text("ho")]),
        ],
        system: Some("be kind".to_string()),
        tools: vec![CanonicalTool {
            name: "f".to_string(),
            description: None,
            input_schema: j(r#"{"type":"object"}"#),
        }],
        tool_choice: None,
        sampling: Sampling {
            temperature: Some(d(0.5)),
            top_p: None,
            top_k: None,
            max_tokens: Some(9),
            stop: vec!["A".to_string(), "B".to_string()],
        },
        stream: false,
        extra: JsonMap::new(),
    }
}

fn written(name: &str, req: &CanonicalRequest) -> (Vec<u8>, TranslationReport) {
    let mut report = TranslationReport::default();
    let body = adapter(name).render_request(req, &mut report).unwrap();
    (body, report)
}

#[test]
fn a_request_survives_every_dialect() {
    for name in ["anthropic", "openai", "google"] {
        let (body, report) = written(name, &request());
        assert!(report.dropped.is_empty() && report.notes.is_empty(), "{name}: {report:?}");
        assert_eq!(adapter(name).parse_request(&body, &ctx()).unwrap(), request(), "{name}");
    }
}

#[test]
fn a_response_survives_the_google_dialect() {
    let resp = CanonicalResponse {
        model: "m".to_string(),
        content: vec![text("a"), ContentBlock::Image { media_type: "image/png".to_string(), data: "QQ==".to_string() }],
        stop_reason: Some(StopReason::MaxTokens),
        usage: Some(CanonicalUsage { input_tokens: Some(1), output_tokens: None }),
        extra: JsonMap::new(),
    };
    let mut report = TranslationReport::default();
    let body = adapter("google").render_response(&resp, &mut report).unwrap();
    assert_eq!(adapter("google").parse_response(&body).unwrap(), resp);
    assert!(report.dropped.is_empty() && report.notes.is_empty());
}

#[test]
fn the_anthropic_body_is_exact() {
    let (body, _) = written("anthropic", &request());
    assert_eq!(
        String::from_utf8(body).unwrap(),
        r#"{"max_tokens":9,"messages":[{"content":[{"text":"hi","type":"text"}],"role":"user"},{"content":[{"text":"ho","type":"text"}],"role":"assistant"}],"model":"m","stop_sequences":["A","B"],"stream":false,"system":"be kind","temperature":0.5,"tools":[{"input_schema":{"type":"object"},"name":"f"}]}"#
    );
}

#[test]
fn the_openai_body_is_exact() {
    let (body, _) = written("openai", &request());
    assert_eq!(
        String::from_utf8(body).unwrap(),
        r#"{"max_completion_tokens":9,"messages":[{"content":"be kind","role":"system"},{"content":"hi","role":"user"},{"content":"ho","role":"assistant"}],"model":"m","stop":["A","B"],"stream":false,"temperature":0.5,"tools":[{"function":{"name":"f","parameters":{"type":"object"}},"type":"function"}]}"#
    );
}

#[test]
fn the_google_body_is_exact() {
    let (body, _) = written("google", &request());
    assert_eq!(
        String::from_utf8(body).unwrap(),
        r#"{"contents":[{"parts":[{"text":"hi"}],"role":"user"},{"parts":[{"text":"ho"}],"role":"model"}],"generationConfig":{"maxOutputTokens":9,"stopSequences":["A","B"],"temperature":0.5},"model":"m","systemInstruction":{"parts":[{"text":"be kind"}]},"tools":[{"functionDeclarations":[{"name":"f","parameters":{"type":"object"}}]}]}"#
    );
}

#[test]
fn a_request_crosses_from_anthropic_to_openai() {
    let body = br#"{"model":"m","system":"s","max_tokens":5,"metadata":{"u":1},
        "messages":[{"role":"user","content":[{"type":"tool_result","tool_use_id":"c","content":"ok","is_error":true}]}]}"#;
    let req = adapter("anthropic").parse_request(body, &ctx()).unwrap();
    let (out, report) = written("openai", &req);
    assert_eq!(
        String::from_utf8(out).unwrap(),
        r#"{"max_completion_tokens":5,"messages":[{"content":"s","role":"system"},{"content":"ok","role":"tool","tool_call_id":"c"}],"model":"m","stream":false}"#
    );
    let paths: Vec<&str> = report.dropped.iter().map(|f| f.path.as_str()).collect();
    assert_eq!(paths, vec!["messages[0].content.tool_result.is_error", "extra.metadata"]);
    assert_eq!(report.dropped[1].reason, "anthropic-specific field not representable in openai");
}

#[test]
fn what_openai_cannot_carry_is_reported() {
    let mut req = request();
    req.sampling.top_k = Some(3);
    let (_, report) = written("openai", &req);
    assert_eq!(report.dropped.len(), 1);
    assert_eq!(report.dropped[0].path, "sampling.top_k");
    assert_eq!(report.dropped[0].reason, "openai has no top_k");
}

#[test]
fn what_google_cannot_carry_is_reported() {
    let mut req = request();
    req.tool_choice = Some(ToolChoice::Any);
    req.stream = true;
    req.messages = vec![message(
        Role::Assistant,
        vec![
            ContentBlock::ToolUse { id: "c".to_string(), name: "f".to_string(), input: j("{}") },
            ContentBlock::ToolResult { id: "c".to_string(), content: "plain".to_string(), is_error: true },
        ],
    )];
    let (body, report) = written("google", &req);
    let paths: Vec<&str> = report.dropped.iter().map(|f| f.path.as_str()).collect();
    assert_eq!(
        paths,
        vec![
            "messages[0].content.tool_use.id",
            "messages[0].content.tool_result.is_error",
            "tool_choice",
            "stream",
        ]
    );
    assert_eq!(
        report.notes,
        vec![
            "messages[0].content.tool_result.content: not a JSON object, wrapped as {\"result\": ...} for google functionResponse"
                .to_string()
        ]
    );
    assert!(String::from_utf8(body).unwrap().contains(
        r#"{"functionResponse":{"name":"c","response":{"result":"plain"}}}"#
    ));
}

#[test]
fn system_messages_join_the_system_prompt() {
    let mut req = request();
    req.messages = vec![message(
        Role::System,
        vec![text("more"), ContentBlock::Image { media_type: "image/png".to_string(), data: "QQ==".to_string() }],
    )];
    for name in ["anthropic", "google"] {
        let (body, report) = written(name, &req);
        let back = adapter(name).parse_request(&body, &ctx()).unwrap();
        assert_eq!(back.system.as_deref(), Some("be kind\nmore"), "{name}");
        assert!(back.messages.is_empty(), "{name}");
        assert_eq!(report.dropped.len(), 1, "{name}");
        assert_eq!(report.dropped[0].path, "messages[0].content", "{name}");
    }
}

#[test]
fn a_report_keeps_what_it_had() {
    let mut report = TranslationReport::default();
    report.drop("a".to_string(), "b".to_string());
    report.notes.push("c".to_string());
    let before = report.clone();
    let mut req = request();
    req.sampling.top_k = Some(1);
    req.extra.insert("google.x".to_string(), j("1"));
    for name in ["anthropic", "openai", "google"] {
        adapter(name).render_request(&req, &mut report).unwrap();
        assert_eq!(report.dropped[0], before.dropped[0], "{name}");
        assert_eq!(report.notes[0], before.notes[0], "{name}");
    }
    assert_eq!(report.dropped.len(), 1 + 1 + 2);
}

#[test]
fn openai_drops_a_tool_message_without_a_call() {
    let mut req = request();
    req.messages = vec![message(Role::Tool, vec![text("orphan")])];
    req.system = None;
    let (body, report) = written("openai", &req);
    assert!(String::from_utf8(body).unwrap().contains(r#""messages":[]"#));
    assert_eq!(report.dropped.len(), 1);
    assert_eq!(report.dropped[0].path, "messages[0]");
}

#[test]
fn anthropic_tool_role_becomes_the_users_with_a_note() {
    let mut req = request();
    req.messages = vec![message(Role::Tool, vec![text("t")])];
    let (_, report) = written("anthropic", &req);
    assert_eq!(
        report.notes,
        vec!["messages[0]: role \"tool\" has no Anthropic equivalent, downgraded to \"user\"".to_string()]
    );
}

#[test]
fn extra_fields_are_tagged_and_untagged() {
    let value = j(r#"{"model":"m","seed":7,"user":"u"}"#);
    let extra = collect_extra(&value, &["model"], "openai");
    assert_eq!(extra.len(), 2);
    assert_eq!(extra.get("openai.seed"), Some(&j("7")));
    assert_eq!(extra.get("openai.user"), Some(&j("\"u\"")));

    let mut out = JsonMap::new();
    let mut report = TranslationReport::default();
    emit_or_drop_extra("openai", &extra, &mut out, &mut report);
    assert_eq!(Json::Object(out), j(r#"{"seed":7,"user":"u"}"#));
    assert!(report.dropped.is_empty() && report.notes.is_empty());
}

#[test]
fn an_extra_field_yields_to_a_typed_one() {
    let mut extra = JsonMap::new();
    extra.insert("openai.model".to_string(), j("\"other\""));
    let mut out = JsonMap::new();
    out.insert("model".to_string(), j("\"m\""));
    let mut report = TranslationReport::default();
    emit_or_drop_extra("openai", &extra, &mut out, &mut report);
    assert_eq!(out.get("model"), Some(&j("\"m\"")));
    assert_eq!(
        report.notes,
        vec![
            "extra.model: collides with a field this renderer already set; the renderer's own value was kept, extra value dropped"
                .to_string()
        ]
    );
}

#[test]
fn an_extra_field_without_a_tag_is_dropped() {
    let mut extra = JsonMap::new();
    extra.insert("plain".to_string(), Json::Null);
    let mut out = JsonMap::new();
    let mut report = TranslationReport::default();
    emit_or_drop_extra("google", &extra, &mut out, &mut report);
    assert!(out.is_empty());
    assert_eq!(report.dropped[0].path, "extra.plain");
    assert_eq!(report.dropped[0].reason, "-specific field not representable in google");
}

#[test]
fn malformed_bodies_say_why() {
    for name in ["anthropic", "openai", "google"] {
        match adapter(name).parse_request(b"{", &ctx()) {
            Err(AdapterError::Malformed(why)) => assert!(why.contains("EOF"), "{name}: {why}"),
            other => panic!("{name}: {other:?}"),
        }
    }
    let err = adapter("anthropic").parse_request(b"{}", &ctx()).unwrap_err();
    assert!(err.message().contains("model"), "{}", err.message());
}

#[test]
fn numbers_keep_their_kind() {
    let body = br#"{"model":"m","temperature":1,"max_tokens":18446744073709551615,"n":-5,"x":1.25}"#;
    let req = adapter("openai").parse_request(body, &ctx()).unwrap();
    assert_eq!(req.sampling.temperature, Some(d(1.0)));
    assert_eq!(req.sampling.max_tokens, Some(u64::MAX));
    assert_eq!(req.extra.get("openai.n"), Some(&j("-5")));
    assert_eq!(req.extra.get("openai.x").unwrap().to_text(), "1.25");
}

#[test]
fn an_image_of_the_system_is_reported() {
    let mut req = request();
    req.messages.push(message(
        Role::System,
        vec![text("x"), ContentBlock::Image { media_type: "image/png".to_string(), data: "QQ==".to_string() }],
    ));
    for (name, reason) in [
        (
            "anthropic",
            "anthropic system prompt is plain text; non-text content in a system-role message has no representation there",
        ),
        (
            "google",
            "google systemInstruction is text-only; non-text content in a system-role message has no representation there",
        ),
    ] {
        let (_, report) = written(name, &req);
        assert_eq!(report.dropped.len(), 1, "{name}");
        assert_eq!(report.dropped[0].path, "messages[2].content");
        assert_eq!(report.dropped[0].reason, reason);
    }
}

#[test]
fn what_a_response_cannot_carry_is_reported() {
    let extra = JsonMap::new().set("anthropic.container", j("1"));
    let resp = CanonicalResponse {
        model: "m".to_string(),
        content: vec![ContentBlock::ToolResult {
            id: "c".to_string(),
            content: "{}".to_string(),
            is_error: true,
        }],
        stop_reason: Some(StopReason::StopSequence),
        usage: None,
        extra,
    };
    for (name, path, reason, note) in [
        (
            "openai",
            "content",
            "openai response message cannot carry a tool_result content block",
            "stop_reason: StopSequence has no distinct OpenAI finish_reason, mapped to \"stop\"",
        ),
        (
            "google",
            "content.tool_result.is_error",
            "google functionResponse has no is_error field",
            "stop_reason: StopSequence has no distinct google finishReason, mapped to \"STOP\"",
        ),
    ] {
        let mut report = TranslationReport::default();
        adapter(name).render_response(&resp, &mut report).unwrap();
        assert_eq!(report.dropped.len(), 2, "{name}");
        assert_eq!(report.dropped[0].path, path);
        assert_eq!(report.dropped[0].reason, reason);
        assert_eq!(report.dropped[1].path, "extra.container");
        assert_eq!(
            report.dropped[1].reason,
            format!("anthropic-specific field not representable in {name}")
        );
        assert_eq!(report.notes, vec![note.to_string()]);
    }
}

#[test]
fn an_image_url_survives_being_written_and_read() {
    for (media_type, data) in
        [("image/png", "QQ=="), ("image/png", "a,b;base64,c"), ("", "https://x/y.png"), ("", "")]
    {
        let url = render_image_url(media_type, data);
        assert_eq!(parse_image_url(&url), (media_type.to_string(), data.to_string()), "{url}");
    }
    assert_eq!(render_image_url("image/png", "QQ=="), "data:image/png;base64,QQ==");
    assert_eq!(parse_image_url("https://x/y.png"), (String::new(), "https://x/y.png".to_string()));
}

#[test]
fn google_contents_give_no_system_message() {
    let body = br#"{"contents":[
        {"role":"system","parts":[{"text":"a"}]},
        {"role":"model","parts":[]},
        {"role":"function","parts":[]},
        {"parts":[]}]}"#;
    let req = adapter("google").parse_request(body, &ctx()).unwrap();
    let roles: Vec<Role> = req.messages.iter().map(|m| m.role).collect();
    assert_eq!(roles, vec![Role::User, Role::Assistant, Role::Tool, Role::User]);
}

#[test]
fn a_google_path_names_its_model_up_to_the_colon() {
    for (path, model) in [
        ("/v1beta/models/g-1:generateContent", Some("g-1")),
        ("/v1/models/a/models/b:x", Some("a/models/b")),
        ("/v1/models/a", Some("a")),
        ("/v1/models/:x", None),
        ("/v1/other/a:x", None),
    ] {
        assert_eq!(model_from_path(path).as_deref(), model, "{path}");
    }
}
