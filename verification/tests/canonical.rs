use sluice::json::{parse, Double, Json, JsonMap};
use sluice::llm::canonical::{
    project_llm, CanonicalMessage, CanonicalRequest, CanonicalResponse, CanonicalStreamEvent, CanonicalTool,
    ContentBlock, DroppedField, RequestCtx, Role, Sampling, StopReason, ToolChoice, TranslationReport, Usage,
};
use sluice::llm::{Llm, Message, Tool};

fn j(text: &str) -> Json {
    parse(text.as_bytes()).unwrap()
}

fn d(x: f64) -> Double {
    Double { bits: x.to_bits() }
}

fn sample_ctx() -> RequestCtx {
    RequestCtx {
        path: "/v1/messages".to_string(),
        method: "POST".to_string(),
    }
}

#[test]
fn role_round_trips_and_matches_message_role_strings() {
    for (role, expected) in [
        (Role::System, "system"),
        (Role::User, "user"),
        (Role::Assistant, "assistant"),
        (Role::Tool, "tool"),
    ] {
        assert_eq!(role.as_str(), expected);
        let json = role.to_json().to_text();
        assert_eq!(json, format!("\"{expected}\""));
        let back = Role::from_json(&j(&json)).unwrap();
        assert_eq!(role, back);
    }
}

#[test]
fn content_block_text_round_trips() {
    let block = ContentBlock::Text {
        text: "hello".to_string(),
    };
    let json = block.to_json().to_text();
    let back = ContentBlock::from_json(&j(&json)).unwrap();
    assert_eq!(block, back);
}

#[test]
fn content_block_tool_use_round_trips() {
    let block = ContentBlock::ToolUse {
        id: "call_1".to_string(),
        name: "get_weather".to_string(),
        input: j(r#"{"location":"NYC"}"#),
    };
    let json = block.to_json().to_text();
    let back = ContentBlock::from_json(&j(&json)).unwrap();
    assert_eq!(block, back);
}

#[test]
fn content_block_tool_result_round_trips() {
    let block = ContentBlock::ToolResult {
        id: "call_1".to_string(),
        content: "72F and sunny".to_string(),
        is_error: false,
    };
    let json = block.to_json().to_text();
    let back = ContentBlock::from_json(&j(&json)).unwrap();
    assert_eq!(block, back);
}

#[test]
fn content_block_image_round_trips() {
    let block = ContentBlock::Image {
        media_type: "image/png".to_string(),
        data: "base64data".to_string(),
    };
    let json = block.to_json().to_text();
    let back = ContentBlock::from_json(&j(&json)).unwrap();
    assert_eq!(block, back);
}

#[test]
fn canonical_message_round_trips() {
    let msg = CanonicalMessage {
        role: Role::User,
        content: vec![ContentBlock::Text {
            text: "hi".to_string(),
        }],
    };
    let json = msg.to_json().to_text();
    let back = CanonicalMessage::from_json(&j(&json)).unwrap();
    assert_eq!(msg, back);
}

#[test]
fn canonical_tool_round_trips() {
    let tool = CanonicalTool {
        name: "get_weather".to_string(),
        description: Some("Look up the weather".to_string()),
        input_schema: j(r#"{"type":"object"}"#),
    };
    let json = tool.to_json().to_text();
    let back = CanonicalTool::from_json(&j(&json)).unwrap();
    assert_eq!(tool, back);
}

#[test]
fn tool_choice_variants_round_trip() {
    for choice in [
        ToolChoice::Auto,
        ToolChoice::Any,
        ToolChoice::Never,
        ToolChoice::Tool("get_weather".to_string()),
    ] {
        let json = choice.to_json().to_text();
        let back = ToolChoice::from_json(&j(&json)).unwrap();
        assert_eq!(choice, back);
    }
}

#[test]
fn stop_reason_variants_round_trip() {
    for reason in [
        StopReason::EndTurn,
        StopReason::MaxTokens,
        StopReason::ToolUse,
        StopReason::StopSequence,
        StopReason::Other("safety".to_string()),
    ] {
        let json = reason.to_json().to_text();
        let back = StopReason::from_json(&j(&json)).unwrap();
        assert_eq!(reason, back);
    }
}

#[test]
fn sampling_round_trips() {
    let sampling = Sampling {
        temperature: Some(d(0.7)),
        top_p: Some(d(0.9)),
        top_k: Some(40),
        max_tokens: Some(1024),
        stop: vec!["STOP".to_string()],
    };
    let json = sampling.to_json().to_text();
    let back = Sampling::from_json(&j(&json)).unwrap();
    assert_eq!(sampling, back);
}

#[test]
fn sampling_default_is_all_empty() {
    let sampling = Sampling::default();
    assert_eq!(sampling.temperature, None);
    assert_eq!(sampling.top_p, None);
    assert_eq!(sampling.top_k, None);
    assert_eq!(sampling.max_tokens, None);
    assert!(sampling.stop.is_empty());
}

#[test]
fn usage_round_trips() {
    let usage = Usage {
        input_tokens: Some(10),
        output_tokens: Some(20),
    };
    let json = usage.to_json().to_text();
    let back = Usage::from_json(&j(&json)).unwrap();
    assert_eq!(usage, back);
}

#[test]
fn dropped_field_round_trips() {
    let field = DroppedField {
        path: "tool_choice".to_string(),
        reason: "provider has no equivalent".to_string(),
    };
    let json = field.to_json().to_text();
    let back = DroppedField::from_json(&j(&json)).unwrap();
    assert_eq!(field, back);
}

#[test]
fn translation_report_round_trips() {
    let mut report = TranslationReport::default();
    report.drop("tool_choice".to_string(), "provider has no equivalent".to_string());
    report
        .notes
        .push("downgraded tool_choice: any to auto".to_string());
    let json = report.to_json().to_text();
    let back = TranslationReport::from_json(&j(&json)).unwrap();
    assert_eq!(report, back);
}

#[test]
fn request_ctx_round_trips() {
    let ctx = sample_ctx();
    let json = ctx.to_json().to_text();
    let back = RequestCtx::from_json(&j(&json)).unwrap();
    assert_eq!(ctx, back);
}

#[test]
fn canonical_request_round_trips() {
    let req = CanonicalRequest {
        model: "opus-4-1-20250805".to_string(),
        messages: vec![CanonicalMessage {
            role: Role::User,
            content: vec![ContentBlock::Text {
                text: "hi".to_string(),
            }],
        }],
        tools: vec![CanonicalTool {
            name: "get_weather".to_string(),
            description: None,
            input_schema: Json::Null,
        }],
        tool_choice: Some(ToolChoice::Auto),
        sampling: Sampling::default(),
        stream: false,
        system: None,
        extra: Default::default(),
    };
    let json = req.to_json().to_text();
    let back = CanonicalRequest::from_json(&j(&json)).unwrap();
    assert_eq!(req, back);
}

#[test]
fn canonical_request_system_and_extra_round_trip() {
    let mut extra = JsonMap::new();
    extra.insert("safety_settings".to_string(), j(r#"["x"]"#));
    let req = CanonicalRequest {
        model: "opus-4-1-20250805".to_string(),
        messages: vec![],
        tools: vec![],
        tool_choice: None,
        sampling: Sampling::default(),
        stream: false,
        system: Some("You are a helpful assistant.".to_string()),
        extra,
    };
    let json = req.to_json().to_text();
    assert!(json.contains("\"system\":\"You are a helpful assistant.\""));
    assert!(json.contains("\"safety_settings\""));
    let back = CanonicalRequest::from_json(&j(&json)).unwrap();
    assert_eq!(req, back);
}

#[test]
fn canonical_request_empty_system_and_extra_serialize_cleanly() {
    let req = CanonicalRequest {
        model: "m".to_string(),
        messages: vec![],
        tools: vec![],
        tool_choice: None,
        sampling: Sampling::default(),
        stream: false,
        system: None,
        extra: Default::default(),
    };
    let json = req.to_json().to_text();
    assert!(!json.contains("\"system\""));
    assert!(!json.contains("\"extra\""));
    let back = CanonicalRequest::from_json(&j(&json)).unwrap();
    assert_eq!(req, back);
}

#[test]
fn canonical_response_empty_extra_serializes_cleanly() {
    let resp = CanonicalResponse {
        model: "m".to_string(),
        content: vec![],
        stop_reason: None,
        usage: None,
        extra: Default::default(),
    };
    let json = resp.to_json().to_text();
    assert!(!json.contains("\"extra\""));
    let back = CanonicalResponse::from_json(&j(&json)).unwrap();
    assert_eq!(resp, back);
}

#[test]
fn canonical_response_round_trips() {
    let resp = CanonicalResponse {
        model: "opus-4-1-20250805".to_string(),
        content: vec![ContentBlock::Text {
            text: "hello there".to_string(),
        }],
        stop_reason: Some(StopReason::EndTurn),
        usage: Some(Usage {
            input_tokens: Some(10),
            output_tokens: Some(20),
        }),
        extra: Default::default(),
    };
    let json = resp.to_json().to_text();
    let back = CanonicalResponse::from_json(&j(&json)).unwrap();
    assert_eq!(resp, back);
}

#[test]
fn canonical_stream_event_variants_round_trip() {
    let events = vec![
        CanonicalStreamEvent::MessageStart {
            model: "opus-4-1-20250805".to_string(),
            role: Role::Assistant,
        },
        CanonicalStreamEvent::ContentBlockStart {
            index: 0,
            block: ContentBlock::Text {
                text: String::new(),
            },
        },
        CanonicalStreamEvent::ContentBlockDelta {
            index: 0,
            text: Some("Hello".to_string()),
            partial_json: None,
        },
        CanonicalStreamEvent::ContentBlockStop { index: 0 },
        CanonicalStreamEvent::MessageDelta {
            stop_reason: Some(StopReason::EndTurn),
            usage: Some(Usage {
                input_tokens: None,
                output_tokens: Some(20),
            }),
        },
        CanonicalStreamEvent::MessageStop,
    ];
    for event in events {
        let json = event.to_json().to_text();
        let back = CanonicalStreamEvent::from_json(&j(&json)).unwrap();
        assert_eq!(event, back);
    }
}

#[test]
fn project_llm_flattens_mixed_content_blocks_like_existing_adapters() {
    let req = CanonicalRequest {
        model: "opus-4-1-20250805".to_string(),
        messages: vec![CanonicalMessage {
            role: Role::User,
            content: vec![
                ContentBlock::Text {
                    text: "first part".to_string(),
                },
                ContentBlock::Image {
                    media_type: "image/png".to_string(),
                    data: "...".to_string(),
                },
                ContentBlock::Text {
                    text: "second part".to_string(),
                },
            ],
        }],
        tools: vec![CanonicalTool {
            name: "get_weather".to_string(),
            description: Some("...".to_string()),
            input_schema: Json::Null,
        }],
        tool_choice: None,
        sampling: Sampling {
            max_tokens: Some(1024),
            ..Sampling::default()
        },
        stream: true,
        system: None,
        extra: Default::default(),
    };

    let llm = project_llm(&req, "anthropic");

    assert_eq!(
        llm,
        Llm {
            provider: "anthropic".to_string(),
            model: "opus-4-1-20250805".to_string(),
            messages: vec![Message {
                role: "user".to_string(),
                content: "first part\nsecond part".to_string(),
            }],
            tools: vec![Tool {
                name: "get_weather".to_string(),
            }],
            max_tokens: Some(1024),
            stream: true,
            facts: None,
        }
    );
}

#[test]
fn project_llm_maps_all_roles_to_lowercase_strings() {
    let req = CanonicalRequest {
        model: "m".to_string(),
        messages: vec![
            CanonicalMessage {
                role: Role::System,
                content: vec![],
            },
            CanonicalMessage {
                role: Role::User,
                content: vec![],
            },
            CanonicalMessage {
                role: Role::Assistant,
                content: vec![],
            },
            CanonicalMessage {
                role: Role::Tool,
                content: vec![],
            },
        ],
        tools: vec![],
        tool_choice: None,
        sampling: Sampling::default(),
        stream: false,
        system: None,
        extra: Default::default(),
    };

    let llm = project_llm(&req, "openai");
    let roles: Vec<&str> = llm.messages.iter().map(|m| m.role.as_str()).collect();
    assert_eq!(roles, vec!["system", "user", "assistant", "tool"]);
}

#[test]
fn project_llm_empty_content_flattens_to_empty_string() {
    let req = CanonicalRequest {
        model: "m".to_string(),
        messages: vec![CanonicalMessage {
            role: Role::User,
            content: vec![],
        }],
        tools: vec![],
        tool_choice: None,
        sampling: Sampling::default(),
        stream: false,
        system: None,
        extra: Default::default(),
    };

    let llm = project_llm(&req, "google");
    assert_eq!(llm.messages[0].content, "");
}

#[test]
fn project_llm_sets_provider_from_argument_not_request() {
    let req = CanonicalRequest {
        model: "m".to_string(),
        messages: vec![],
        tools: vec![],
        tool_choice: None,
        sampling: Sampling::default(),
        stream: false,
        system: None,
        extra: Default::default(),
    };
    assert_eq!(project_llm(&req, "anthropic").provider, "anthropic");
    assert_eq!(project_llm(&req, "openai").provider, "openai");
}

#[test]
fn project_llm_facts_always_none() {
    let req = CanonicalRequest {
        model: "m".to_string(),
        messages: vec![],
        tools: vec![],
        tool_choice: None,
        sampling: Sampling::default(),
        stream: false,
        system: None,
        extra: Default::default(),
    };
    assert!(project_llm(&req, "anthropic").facts.is_none());
}

#[test]
fn project_llm_openai_prepends_system_message_from_system_field() {
    let req = CanonicalRequest {
        model: "gpt-4o".to_string(),
        messages: vec![CanonicalMessage {
            role: Role::User,
            content: vec![ContentBlock::Text {
                text: "hi".to_string(),
            }],
        }],
        tools: vec![],
        tool_choice: None,
        sampling: Sampling::default(),
        stream: false,
        system: Some("You are helpful.".to_string()),
        extra: Default::default(),
    };

    let llm = project_llm(&req, "openai");

    assert_eq!(llm.messages.len(), 2);
    assert_eq!(llm.messages[0].role, "system");
    assert_eq!(llm.messages[0].content, "You are helpful.");
    assert_eq!(llm.messages[1].role, "user");
    assert_eq!(llm.messages[1].content, "hi");
}

#[test]
fn project_llm_anthropic_does_not_prepend_system_message() {
    let req = CanonicalRequest {
        model: "opus-4-1-20250805".to_string(),
        messages: vec![CanonicalMessage {
            role: Role::User,
            content: vec![ContentBlock::Text {
                text: "hi".to_string(),
            }],
        }],
        tools: vec![],
        tool_choice: None,
        sampling: Sampling::default(),
        stream: false,
        system: Some("You are helpful.".to_string()),
        extra: Default::default(),
    };

    let llm = project_llm(&req, "anthropic");

    assert_eq!(llm.messages.len(), 1);
    assert_eq!(llm.messages[0].role, "user");
}

#[test]
fn project_llm_google_does_not_prepend_system_message() {
    let req = CanonicalRequest {
        model: "gemini-1.5-pro".to_string(),
        messages: vec![],
        tools: vec![],
        tool_choice: None,
        sampling: Sampling::default(),
        stream: false,
        system: Some("You are helpful.".to_string()),
        extra: Default::default(),
    };

    let llm = project_llm(&req, "google");

    assert!(llm.messages.is_empty());
}

#[test]
fn project_llm_openai_no_system_field_no_prepend() {
    let req = CanonicalRequest {
        model: "gpt-4o".to_string(),
        messages: vec![CanonicalMessage {
            role: Role::User,
            content: vec![],
        }],
        tools: vec![],
        tool_choice: None,
        sampling: Sampling::default(),
        stream: false,
        system: None,
        extra: Default::default(),
    };

    let llm = project_llm(&req, "openai");

    assert_eq!(llm.messages.len(), 1);
    assert_eq!(llm.messages[0].role, "user");
}

#[test]
fn project_llm_max_tokens_comes_from_sampling() {
    let mut req = CanonicalRequest {
        model: "m".to_string(),
        messages: vec![],
        tools: vec![],
        tool_choice: None,
        sampling: Sampling::default(),
        stream: false,
        system: None,
        extra: Default::default(),
    };
    assert_eq!(project_llm(&req, "anthropic").max_tokens, None);
    req.sampling.max_tokens = Some(512);
    assert_eq!(project_llm(&req, "anthropic").max_tokens, Some(512));
}
