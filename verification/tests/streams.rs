use sluice::json::{parse, Json};
use sluice::llm::anthropic::stream_block;
use sluice::llm::adapter::{adapter_for, Adapter, ProviderAdapter};
use sluice::llm::{
    CanonicalStreamEvent, CanonicalUsage, ContentBlock, Role, StopReason, StreamParseState, StreamRenderState,
    TranslationReport,
};
use sluice::sse::SseEvent;

fn j(text: &str) -> Json {
    parse(text.as_bytes()).unwrap()
}

fn adapter(name: &str) -> ProviderAdapter {
    adapter_for(name).unwrap()
}

fn read(name: &str, st: &mut StreamParseState, data: &str) -> Option<CanonicalStreamEvent> {
    adapter(name).parse_stream_event(&SseEvent { data: data.to_string() }, st).unwrap()
}

fn write(
    name: &str,
    st: &mut StreamRenderState,
    report: &mut TranslationReport,
    event: &CanonicalStreamEvent,
) -> String {
    String::from_utf8(adapter(name).render_stream_event(event, st, report).unwrap()).unwrap()
}

fn text_delta(index: u64, text: &str) -> CanonicalStreamEvent {
    CanonicalStreamEvent::ContentBlockDelta {
        index,
        text: Some(text.to_string()),
        partial_json: None,
    }
}

fn json_delta(index: u64, json: &str) -> CanonicalStreamEvent {
    CanonicalStreamEvent::ContentBlockDelta {
        index,
        text: None,
        partial_json: Some(json.to_string()),
    }
}

fn call_start(index: u64, id: &str, name: &str, input: Json) -> CanonicalStreamEvent {
    CanonicalStreamEvent::ContentBlockStart {
        index,
        block: ContentBlock::ToolUse { id: id.to_string(), name: name.to_string(), input },
    }
}

fn counts(input: Option<u64>, output: Option<u64>) -> CanonicalUsage {
    CanonicalUsage { input_tokens: input, output_tokens: output }
}

fn event_of(frame: &str) -> String {
    let at = frame.rfind("data: ").unwrap();
    frame[at + "data: ".len()..].trim().to_string()
}

#[test]
fn anthropic_events_are_read_one_for_one() {
    let mut st = StreamParseState::default();
    assert_eq!(
        read(
            "anthropic",
            &mut st,
            r#"{"type":"message_start","message":{"model":"m","role":"assistant"}}"#
        ),
        Some(CanonicalStreamEvent::MessageStart { model: "m".to_string(), role: Role::Assistant })
    );
    assert_eq!(
        read(
            "anthropic",
            &mut st,
            r#"{"type":"content_block_start","index":3,"content_block":{"type":"tool_use","id":"c","name":"f","input":{}}}"#
        ),
        Some(call_start(3, "c", "f", j("{}")))
    );
    assert_eq!(
        read(
            "anthropic",
            &mut st,
            r#"{"type":"content_block_delta","index":3,"delta":{"type":"input_json_delta","partial_json":"{\"a"}}"#
        ),
        Some(json_delta(3, r#"{"a"#))
    );
    assert_eq!(
        read("anthropic", &mut st, r#"{"type":"content_block_stop","index":3}"#),
        Some(CanonicalStreamEvent::ContentBlockStop { index: 3 })
    );
    assert_eq!(
        read(
            "anthropic",
            &mut st,
            r#"{"type":"message_delta","delta":{"stop_reason":"tool_use"},"usage":{"output_tokens":7}}"#
        ),
        Some(CanonicalStreamEvent::MessageDelta {
            stop_reason: Some(StopReason::ToolUse),
            usage: Some(counts(None, Some(7))),
        })
    );
    assert_eq!(
        read("anthropic", &mut st, r#"{"type":"message_stop"}"#),
        Some(CanonicalStreamEvent::MessageStop)
    );
}

#[test]
fn anthropic_events_without_canonical_meaning_are_skipped() {
    let mut st = StreamParseState::default();
    for data in [
        "",
        "   ",
        "not json",
        r#"{"type":"ping"}"#,
        r#"{"no":"type"}"#,
        r#"{"type":"content_block_delta","index":0,"delta":{"type":"thinking_delta"}}"#,
    ] {
        assert_eq!(read("anthropic", &mut st, data), None, "{data}");
    }
}

#[test]
fn anthropic_missing_parts_have_defaults() {
    let mut st = StreamParseState::default();
    assert_eq!(
        read("anthropic", &mut st, r#"{"type":"message_start"}"#),
        Some(CanonicalStreamEvent::MessageStart { model: String::new(), role: Role::Assistant })
    );
    assert_eq!(
        read("anthropic", &mut st, r#"{"type":"content_block_start"}"#),
        Some(CanonicalStreamEvent::ContentBlockStart {
            index: 0,
            block: ContentBlock::Text { text: String::new() },
        })
    );
    assert_eq!(
        read("anthropic", &mut st, r#"{"type":"content_block_delta","delta":{"type":"text_delta"}}"#),
        Some(text_delta(0, ""))
    );
}

#[test]
fn anthropic_stream_of_a_coarse_source_gets_its_lifecycle() {
    let mut st = StreamRenderState::default();
    let mut report = TranslationReport::default();
    assert_eq!(
        write("anthropic", &mut st, &mut report, &text_delta(0, "Hi")),
        concat_lines(&[
            "event: message_start",
            r#"data: {"message":{"content":[],"model":"","role":"assistant","stop_reason":null,"type":"message","usage":{"input_tokens":0,"output_tokens":0}},"type":"message_start"}"#,
            "",
            "event: content_block_start",
            r#"data: {"content_block":{"text":"","type":"text"},"index":0,"type":"content_block_start"}"#,
            "",
            "event: content_block_delta",
            r#"data: {"delta":{"text":"Hi","type":"text_delta"},"index":0,"type":"content_block_delta"}"#,
            "",
        ])
    );
    assert_eq!(
        write("anthropic", &mut st, &mut report, &call_start(1, "c", "f", Json::Null)),
        concat_lines(&[
            "event: content_block_stop",
            r#"data: {"index":0,"type":"content_block_stop"}"#,
            "",
            "event: content_block_start",
            r#"data: {"content_block":{"id":"c","input":{},"name":"f","type":"tool_use"},"index":1,"type":"content_block_start"}"#,
            "",
        ])
    );
    assert_eq!(
        write(
            "anthropic",
            &mut st,
            &mut report,
            &CanonicalStreamEvent::MessageDelta {
                stop_reason: Some(StopReason::ToolUse),
                usage: Some(counts(Some(1), None)),
            }
        ),
        concat_lines(&[
            "event: content_block_stop",
            r#"data: {"index":1,"type":"content_block_stop"}"#,
            "",
            "event: message_delta",
            r#"data: {"delta":{"stop_reason":"tool_use"},"type":"message_delta","usage":{"input_tokens":1}}"#,
            "",
        ])
    );
    assert_eq!(
        write("anthropic", &mut st, &mut report, &CanonicalStreamEvent::MessageStop),
        "event: message_stop\ndata: {\"type\":\"message_stop\"}\n\n"
    );
    assert_eq!(write("anthropic", &mut st, &mut report, &CanonicalStreamEvent::MessageStop), "");
    assert!(report.dropped.is_empty() && report.notes.is_empty());
}

fn concat_lines(lines: &[&str]) -> String {
    let mut out = String::new();
    for line in lines {
        out.push_str(line);
        out.push('\n');
    }
    out
}

#[test]
fn anthropic_delta_with_nothing_in_it_only_opens_its_block() {
    let mut st = StreamRenderState::default();
    let mut report = TranslationReport::default();
    let event = CanonicalStreamEvent::ContentBlockDelta { index: 4, text: None, partial_json: None };
    let out = write("anthropic", &mut st, &mut report, &event);
    assert!(out.contains("event: message_start\n"));
    assert!(out.contains("event: content_block_start\n"));
    assert!(!out.contains("event: content_block_delta\n"));
    assert_eq!(write("anthropic", &mut st, &mut report, &event), "");
}

#[test]
fn anthropic_stream_events_survive_being_written_and_read() {
    let events = [
        CanonicalStreamEvent::MessageStart { model: "m".to_string(), role: Role::Assistant },
        CanonicalStreamEvent::ContentBlockStart {
            index: 0,
            block: ContentBlock::Text { text: "a".to_string() },
        },
        text_delta(0, "b"),
        CanonicalStreamEvent::ContentBlockStop { index: 0 },
        call_start(1, "c", "f", j("{}")),
        json_delta(1, "{}"),
        CanonicalStreamEvent::MessageDelta {
            stop_reason: Some(StopReason::Other("refusal".to_string())),
            usage: None,
        },
        CanonicalStreamEvent::MessageStop,
    ];
    let mut reader = StreamParseState::default();
    let mut writer = StreamRenderState::default();
    let mut report = TranslationReport::default();
    for event in events.iter() {
        let out = write("anthropic", &mut writer, &mut report, event);
        assert_eq!(read("anthropic", &mut reader, &event_of(&out)).as_ref(), Some(event));
    }
}

#[test]
fn openai_stream_events_are_read() {
    let mut st = StreamParseState::default();
    assert_eq!(
        read("openai", &mut st, r#"{"choices":[{"index":0,"delta":{"role":"assistant"},"finish_reason":null}]}"#),
        None
    );
    assert_eq!(
        read("openai", &mut st, r#"{"choices":[{"delta":{"content":"Hi"}}]}"#),
        Some(text_delta(0, "Hi"))
    );
    assert_eq!(
        read(
            "openai",
            &mut st,
            r#"{"choices":[{"delta":{"tool_calls":[{"index":5,"id":"c","function":{"name":"f","arguments":""}}]}}]}"#
        ),
        Some(call_start(1, "c", "f", Json::Null))
    );
    assert_eq!(
        read(
            "openai",
            &mut st,
            r#"{"choices":[{"delta":{"tool_calls":[{"index":5,"function":{"arguments":"{\"a"}}]}}]}"#
        ),
        Some(json_delta(1, r#"{"a"#))
    );
    assert_eq!(
        read("openai", &mut st, r#"{"choices":[{"delta":{"content":"!"}}]}"#),
        Some(text_delta(0, "!"))
    );
    assert_eq!(
        read("openai", &mut st, r#"{"choices":[{"delta":{},"finish_reason":"length"}],"usage":null}"#),
        Some(CanonicalStreamEvent::MessageDelta { stop_reason: Some(StopReason::MaxTokens), usage: None })
    );
    assert_eq!(
        read("openai", &mut st, r#"{"choices":[],"usage":{"prompt_tokens":1,"completion_tokens":2}}"#),
        Some(CanonicalStreamEvent::MessageDelta {
            stop_reason: None,
            usage: Some(counts(Some(1), Some(2))),
        })
    );
    assert_eq!(read("openai", &mut st, " [DONE] "), Some(CanonicalStreamEvent::MessageStop));
    assert!(st.drain_pending().is_empty());
}

#[test]
fn openai_stream_text_is_exact() {
    let mut st = StreamRenderState::default();
    let mut report = TranslationReport::default();
    assert_eq!(
        write(
            "openai",
            &mut st,
            &mut report,
            &CanonicalStreamEvent::MessageStart { model: "m".to_string(), role: Role::Assistant }
        ),
        "data: {\"choices\":[{\"delta\":{\"role\":\"assistant\"},\"finish_reason\":null,\"index\":0}],\"model\":\"m\",\"object\":\"chat.completion.chunk\"}\n\n"
    );
    assert_eq!(
        write("openai", &mut st, &mut report, &call_start(0, "c", "f", Json::Null)),
        "data: {\"choices\":[{\"delta\":{\"tool_calls\":[{\"function\":{\"arguments\":\"\",\"name\":\"f\"},\"id\":\"c\",\"index\":0,\"type\":\"function\"}]},\"finish_reason\":null,\"index\":0}],\"model\":\"m\",\"object\":\"chat.completion.chunk\"}\n\n"
    );
    assert_eq!(
        write("openai", &mut st, &mut report, &json_delta(0, "{}")),
        "data: {\"choices\":[{\"delta\":{\"tool_calls\":[{\"function\":{\"arguments\":\"{}\"},\"index\":0}]},\"finish_reason\":null,\"index\":0}],\"model\":\"m\",\"object\":\"chat.completion.chunk\"}\n\n"
    );
    assert_eq!(
        write("openai", &mut st, &mut report, &CanonicalStreamEvent::ContentBlockStop { index: 0 }),
        ""
    );
    assert_eq!(
        write(
            "openai",
            &mut st,
            &mut report,
            &CanonicalStreamEvent::MessageDelta {
                stop_reason: Some(StopReason::StopSequence),
                usage: Some(counts(None, Some(3))),
            }
        ),
        "data: {\"choices\":[{\"delta\":{},\"finish_reason\":\"stop\",\"index\":0}],\"model\":\"m\",\"object\":\"chat.completion.chunk\"}\n\ndata: {\"choices\":[],\"model\":\"m\",\"object\":\"chat.completion.chunk\",\"usage\":{\"completion_tokens\":3}}\n\n"
    );
    assert_eq!(report.notes.len(), 1);
    assert_eq!(
        write("openai", &mut st, &mut report, &CanonicalStreamEvent::MessageStop),
        "data: [DONE]\n\n"
    );
    assert_eq!(write("openai", &mut st, &mut report, &CanonicalStreamEvent::MessageStop), "");
}

#[test]
fn openai_text_before_a_start_brings_the_role_first() {
    let mut st = StreamRenderState::default();
    let mut report = TranslationReport::default();
    let out = write("openai", &mut st, &mut report, &text_delta(9, "x"));
    let role = out.find(r#"{"role":"assistant"}"#).unwrap();
    let text = out.find(r#"{"content":"x"}"#).unwrap();
    assert!(role < text);
    assert!(!write("openai", &mut st, &mut report, &text_delta(9, "y")).contains("role"));
}

#[test]
fn openai_unannounced_calls_take_slots_in_order() {
    let mut st = StreamRenderState::default();
    let mut report = TranslationReport::default();
    assert!(write("openai", &mut st, &mut report, &json_delta(7, "a")).contains(r#""index":0}]}"#));
    assert!(write("openai", &mut st, &mut report, &json_delta(8, "b")).contains(r#""index":1}]}"#));
    assert!(write("openai", &mut st, &mut report, &json_delta(7, "c")).contains(r#""index":0}]}"#));
}

#[test]
fn google_terminal_chunk_keeps_its_content() {
    let mut st = StreamParseState::default();
    let first = read(
        "google",
        &mut st,
        r#"{"candidates":[{"content":{"parts":[{"text":"end"}]},"finishReason":"STOP"}],"usageMetadata":{"promptTokenCount":4,"candidatesTokenCount":5}}"#,
    );
    assert_eq!(first, Some(text_delta(0, "end")));
    assert_eq!(
        st.drain_pending(),
        vec![CanonicalStreamEvent::MessageDelta {
            stop_reason: Some(StopReason::EndTurn),
            usage: Some(counts(Some(4), Some(5))),
        }]
    );
    assert!(st.drain_pending().is_empty());
}

#[test]
fn google_calls_get_fresh_indices() {
    let mut st = StreamParseState::default();
    let call = r#"{"candidates":[{"content":{"parts":[{"functionCall":{"name":"f","args":{"a":1}}}]}}]}"#;
    assert_eq!(read("google", &mut st, call), Some(call_start(0, "f", "f", j(r#"{"a":1}"#))));
    assert_eq!(read("google", &mut st, call), Some(call_start(1, "f", "f", j(r#"{"a":1}"#))));
    assert_eq!(
        read("google", &mut st, r#"{"candidates":[{"content":{"parts":[{"text":"t"}]}}]}"#),
        Some(text_delta(2, "t"))
    );
    assert_eq!(read("google", &mut st, r#"{"candidates":[]}"#), None);
}

#[test]
fn google_fragments_of_a_call_are_joined() {
    let mut st = StreamRenderState::default();
    let mut report = TranslationReport::default();
    assert_eq!(write("google", &mut st, &mut report, &call_start(0, "c", "f", Json::Null)), "");
    assert_eq!(write("google", &mut st, &mut report, &json_delta(0, r#"{"a""#)), "");
    assert_eq!(write("google", &mut st, &mut report, &json_delta(0, ":1}")), "");
    assert_eq!(
        write("google", &mut st, &mut report, &CanonicalStreamEvent::ContentBlockStop { index: 0 }),
        "data: {\"candidates\":[{\"content\":{\"parts\":[{\"functionCall\":{\"args\":{\"a\":1},\"name\":\"f\"}}],\"role\":\"model\"},\"index\":0}]}\n\n"
    );
    assert_eq!(
        write("google", &mut st, &mut report, &CanonicalStreamEvent::ContentBlockStop { index: 0 }),
        ""
    );
}

#[test]
fn google_arguments_that_are_no_json_become_an_empty_object() {
    let mut st = StreamRenderState::default();
    let mut report = TranslationReport::default();
    write("google", &mut st, &mut report, &json_delta(0, "{oops"));
    let out = write("google", &mut st, &mut report, &CanonicalStreamEvent::ContentBlockStop { index: 0 });
    assert!(out.contains(r#"{"functionCall":{"args":{},"name":""}}"#), "{out}");
}

#[test]
fn google_stream_text_is_exact() {
    let mut st = StreamRenderState::default();
    let mut report = TranslationReport::default();
    assert_eq!(
        write(
            "google",
            &mut st,
            &mut report,
            &CanonicalStreamEvent::MessageStart { model: "m".to_string(), role: Role::Assistant }
        ),
        ""
    );
    assert_eq!(
        write("google", &mut st, &mut report, &text_delta(0, "Hi")),
        "data: {\"candidates\":[{\"content\":{\"parts\":[{\"text\":\"Hi\"}],\"role\":\"model\"},\"index\":0}]}\n\n"
    );
    assert_eq!(
        write(
            "google",
            &mut st,
            &mut report,
            &CanonicalStreamEvent::MessageDelta {
                stop_reason: Some(StopReason::ToolUse),
                usage: Some(counts(Some(1), Some(2))),
            }
        ),
        "data: {\"candidates\":[{\"content\":{\"parts\":[],\"role\":\"model\"},\"finishReason\":\"STOP\",\"index\":0}],\"usageMetadata\":{\"candidatesTokenCount\":2,\"promptTokenCount\":1}}\n\n"
    );
    assert_eq!(report.notes.len(), 1);
    assert_eq!(write("google", &mut st, &mut report, &CanonicalStreamEvent::MessageStop), "");
}

#[test]
fn a_stream_crosses_from_openai_to_anthropic() {
    let mut reader = StreamParseState::default();
    let mut writer = StreamRenderState::default();
    let mut report = TranslationReport::default();
    let mut kinds: Vec<String> = vec![];
    for data in [
        r#"{"choices":[{"delta":{"content":"Hel"}}]}"#,
        r#"{"choices":[{"delta":{"content":"lo"}}]}"#,
        r#"{"choices":[{"delta":{},"finish_reason":"stop"}]}"#,
        "[DONE]",
    ] {
        let event = read("openai", &mut reader, data).unwrap();
        let out = write("anthropic", &mut writer, &mut report, &event);
        for line in out.lines() {
            if let Some(kind) = line.strip_prefix("event: ") {
                kinds.push(kind.to_string());
            }
        }
    }
    assert_eq!(
        kinds,
        vec![
            "message_start",
            "content_block_start",
            "content_block_delta",
            "content_block_delta",
            "content_block_stop",
            "message_delta",
            "message_stop",
        ]
    );
}

#[test]
fn a_whole_call_opens_empty_and_its_input_follows() {
    let block = ContentBlock::ToolUse { id: "c".to_string(), name: "f".to_string(), input: j(r#"{"a":1}"#) };
    assert_eq!(stream_block(&block), j(r#"{"type":"tool_use","id":"c","name":"f","input":{}}"#));
    let mut writer = StreamRenderState::default();
    let mut report = TranslationReport::default();
    let start = CanonicalStreamEvent::MessageStart { model: "m".to_string(), role: Role::Assistant };
    write("anthropic", &mut writer, &mut report, &start);
    let out = write("anthropic", &mut writer, &mut report, &call_start(1, "c", "f", j(r#"{"a":1}"#)));
    assert_eq!(
        out,
        concat_lines(&[
            "event: content_block_start",
            r#"data: {"content_block":{"id":"c","input":{},"name":"f","type":"tool_use"},"index":1,"type":"content_block_start"}"#,
            "",
            "event: content_block_delta",
            r#"data: {"delta":{"partial_json":"{\"a\":1}","type":"input_json_delta"},"index":1,"type":"content_block_delta"}"#,
            "",
        ])
    );
    let mut reader = StreamParseState::default();
    let read_back: Vec<_> = out
        .lines()
        .filter_map(|line| line.strip_prefix("data: "))
        .map(|data| read("anthropic", &mut reader, data))
        .collect();
    assert_eq!(
        read_back,
        vec![Some(call_start(1, "c", "f", j("{}"))), Some(json_delta(1, r#"{"a":1}"#))]
    );
}

#[test]
fn a_call_crosses_whole_from_google_to_anthropic() {
    let mut reader = StreamParseState::default();
    let mut writer = StreamRenderState::default();
    let mut report = TranslationReport::default();
    let event = read(
        "google",
        &mut reader,
        r#"{"candidates":[{"content":{"parts":[{"functionCall":{"name":"f","args":{"q":"x"}}}]}}]}"#,
    )
    .unwrap();
    let out = write("anthropic", &mut writer, &mut report, &event);
    assert!(out.contains(r#""content_block":{"id":"f","input":{},"name":"f","type":"tool_use"}"#));
    assert!(out.contains(r#""partial_json":"{\"q\":\"x\"}""#));
}

#[test]
fn openai_whole_call_keeps_its_arguments() {
    let mut seen = StreamParseState::default();
    let mut events = vec![];
    if let Some(e) = read(
        "google",
        &mut seen,
        r#"{"candidates":[{"content":{"role":"model","parts":[{"functionCall":{"name":"f","args":{"a":1}}}]}}]}"#,
    ) {
        events.push(e);
    }
    events.extend(seen.drain_pending());
    let mut st = StreamRenderState::default();
    let mut report = TranslationReport::default();
    let out: String = events.iter().map(|e| write("openai", &mut st, &mut report, e)).collect();
    assert!(out.contains(r#"{"function":{"arguments":"","name":"f"}"#), "{out}");
    assert!(out.contains(r#"{"function":{"arguments":"{\"a\":1}"},"index":0}"#), "{out}");
}

#[test]
fn google_call_that_opens_with_an_empty_object_is_written_once() {
    let mut seen = StreamParseState::default();
    let mut st = StreamRenderState::default();
    let mut report = TranslationReport::default();
    let mut out = String::new();
    for data in [
        r#"{"type":"content_block_start","index":0,"content_block":{"type":"tool_use","id":"c","name":"f","input":{}}}"#,
        r#"{"type":"content_block_delta","index":0,"delta":{"type":"input_json_delta","partial_json":"{\"a\":1}"}}"#,
        r#"{"type":"content_block_stop","index":0}"#,
    ] {
        let event = read("anthropic", &mut seen, data).unwrap();
        out.push_str(&write("google", &mut st, &mut report, &event));
    }
    assert_eq!(
        out,
        "data: {\"candidates\":[{\"content\":{\"parts\":[{\"functionCall\":{\"args\":{\"a\":1},\"name\":\"f\"}}],\"role\":\"model\"},\"index\":0}]}\n\n"
    );
}
