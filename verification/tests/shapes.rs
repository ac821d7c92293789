use sluice::config::read::read_config;
use sluice::config::{Hook, OnError, Oversize, StepType};
use sluice::json::{parse, Json};
use sluice::llm::canonical::{
    CanonicalMessage, CanonicalRequest, CanonicalStreamEvent, ContentBlock, Role, Sampling, StopReason, ToolChoice,
    Usage,
};
use sluice::llm::delta::{Delta, DeltaKind};
use sluice::shape::{find_tag, find_word, gives_word, only_member, picks};

fn j(text: &str) -> Json {
    parse(text.as_bytes()).unwrap()
}

#[test]
fn a_record_may_be_an_array() {
    assert_eq!(
        Usage::from_json(&j("[1,null]")),
        Some(Usage { input_tokens: Some(1), output_tokens: None })
    );
    assert_eq!(Usage::from_json(&j("[1]")), None);
    assert_eq!(Usage::from_json(&j("[1,2,3]")), None);
    assert_eq!(
        CanonicalMessage::from_json(&j(r#"["user",[["text","hi"],{"type":"image","media_type":"m","data":"d"}]]"#)),
        Some(CanonicalMessage {
            role: Role::User,
            content: vec![
                ContentBlock::Text { text: "hi".to_string() },
                ContentBlock::Image { media_type: "m".to_string(), data: "d".to_string() },
            ],
        })
    );
    let read = Sampling::from_json(&j(r#"[null,null,3,4,["x"]]"#)).unwrap();
    assert_eq!((read.top_k, read.max_tokens, read.stop), (Some(3), Some(4), vec!["x".to_string()]));
    let delta = Delta::from_json(&j(r#"[{"text":null},"t",null,null,null]"#)).unwrap();
    assert_eq!((delta.kind, delta.text.as_deref()), (DeltaKind::Text, Some("t")));
}

#[test]
fn trailing_fields_with_a_default_may_be_left_out() {
    let short = r#"["m",[],null,[],null,[null,null,null,null,[]],false]"#;
    let read = CanonicalRequest::from_json(&j(short)).unwrap();
    assert_eq!(read.model, "m");
    assert!(read.extra.is_empty());
    let long = r#"["m",[],null,[],{"any":null},[null,null,null,null,[]],true,{"k":1}]"#;
    let read = CanonicalRequest::from_json(&j(long)).unwrap();
    assert_eq!(read.tool_choice, Some(ToolChoice::Any));
    assert!(read.stream && read.extra.contains_key("k"));
    assert_eq!(CanonicalRequest::from_json(&j(r#"["m",[],null,[],null,[null,null,null,null,[]]]"#)), None);
}

#[test]
fn a_word_may_be_the_one_member_of_an_object() {
    assert_eq!(Role::from_json(&j(r#"{"user":null}"#)), Some(Role::User));
    assert_eq!(Role::from_json(&j(r#"{"user":{}}"#)), None);
    assert_eq!(Role::from_json(&j(r#"{"user":null,"tool":null}"#)), None);
    assert_eq!(Role::from_json(&j(r#"{"robot":null}"#)), None);
    assert_eq!(ToolChoice::from_json(&j(r#"{"none":null}"#)), Some(ToolChoice::Never));
    assert_eq!(ToolChoice::from_json(&j(r#""tool""#)), None);
    assert_eq!(ToolChoice::from_json(&j(r#"{"tool":null}"#)), None);
    assert_eq!(StopReason::from_json(&j(r#"{"tool_use":null}"#)), Some(StopReason::ToolUse));
    assert_eq!(DeltaKind::from_json(&j(r#"{"finish":null}"#)), Some(DeltaKind::Finish));
}

#[test]
fn a_tagged_variant_may_be_an_array() {
    assert_eq!(
        CanonicalStreamEvent::from_json(&j(r#"["content_block_stop",4]"#)),
        Some(CanonicalStreamEvent::ContentBlockStop { index: 4 })
    );
    assert_eq!(CanonicalStreamEvent::from_json(&j(r#"["message_stop"]"#)), Some(CanonicalStreamEvent::MessageStop));
    assert_eq!(CanonicalStreamEvent::from_json(&j(r#"["message_stop",1]"#)), None);
    assert_eq!(
        CanonicalStreamEvent::from_json(&j(r#"{"type":"message_stop","more":1}"#)),
        Some(CanonicalStreamEvent::MessageStop)
    );
    assert_eq!(CanonicalStreamEvent::from_json(&j("[]")), None);
    assert_eq!(CanonicalStreamEvent::from_json(&j("[5]")), None);
    assert_eq!(ContentBlock::from_json(&j(r#"[0,"hi"]"#)), None);
    assert_eq!(ContentBlock::from_json(&j(r#"["text"]"#)), None);
    assert_eq!(
        ContentBlock::from_json(&j(r#"["tool_use","i","n",{}]"#)),
        Some(ContentBlock::ToolUse { id: "i".to_string(), name: "n".to_string(), input: j("{}") })
    );
}

#[test]
fn inside_a_tagged_variant_a_place_may_stand_for_a_name() {
    let hi = ContentBlock::Text { text: "hi".to_string() };
    for text in [
        r#"{"type":"content_block_start","index":1,"block":{"type":0,"text":"hi"}}"#,
        r#"{"type":"content_block_start","index":1,"block":[0,"hi"]}"#,
        r#"["content_block_start",1,["text","hi"]]"#,
    ] {
        assert_eq!(
            CanonicalStreamEvent::from_json(&j(text)),
            Some(CanonicalStreamEvent::ContentBlockStart { index: 1, block: hi.clone() }),
            "{text}"
        );
    }
    assert_eq!(
        CanonicalStreamEvent::from_json(&j(r#"{"type":"message_start","model":"m","role":{"user":{}}}"#)),
        Some(CanonicalStreamEvent::MessageStart { model: "m".to_string(), role: Role::User })
    );
    assert_eq!(
        CanonicalStreamEvent::from_json(&j(r#"["message_delta",{"end_turn":null},[1,2]]"#)),
        Some(CanonicalStreamEvent::MessageDelta {
            stop_reason: Some(StopReason::EndTurn),
            usage: Some(Usage { input_tokens: Some(1), output_tokens: Some(2) }),
        })
    );
}

#[test]
fn tags_and_words_are_found() {
    assert_eq!(find_tag(&j(r#"{"op":"x"}"#), "op"), Some(&j(r#""x""#)));
    assert_eq!(find_tag(&j(r#"["x",1]"#), "op"), Some(&j(r#""x""#)));
    assert_eq!(find_tag(&j("[]"), "op"), None);
    assert!(picks(&j(r#""a""#), "a", 3, false) && picks(&j("3"), "a", 3, true));
    assert!(!picks(&j("3"), "a", 3, false) && !picks(&j("4"), "a", 3, true));
    assert!(gives_word(&j(r#"{"a":{}}"#), "a", true) && !gives_word(&j(r#"{"a":{}}"#), "a", false));
    assert!(!gives_word(&j(r#"{"a":[]}"#), "a", true) && !gives_word(&j("[]"), "a", true));
    assert_eq!(find_word(&j(r#"{"a":[]}"#)).map(|w| w.as_str()), Some("a"));
    assert_eq!(find_word(&j(r#"{"a":{}}"#)).map(|w| w.as_str()), Some("a"));
    assert_eq!(find_word(&j(r#"{"a":null}"#)), None);
    assert_eq!(find_word(&j(r#"{"a":[0]}"#)), None);
    let two = j(r#"{"a":1,"b":2}"#);
    assert!(!only_member(two.as_object().unwrap(), "a"));
}

#[test]
fn tables_may_be_lists() {
    let text = r#"
gateway = [1, true, "0.0.0.0:9", ["x-a"]]
route = [["a", "http://up", [["s", "on_response", "url", "http://tool"]], ["openai"], ["openai", "google"]]]
"#;
    let cfg = read_config(text).unwrap();
    assert!(cfg.gateway.allow_scripts);
    assert_eq!(cfg.gateway.listen, "0.0.0.0:9");
    assert_eq!(cfg.gateway.expose_headers, vec!["x-a".to_string()]);
    assert_eq!(cfg.gateway.oversize, Oversize::Reject);
    let route = &cfg.routes[0];
    assert_eq!((route.id.as_str(), route.upstream.as_str()), ("a", "http://up"));
    let step = &route.steps[0];
    assert_eq!((step.name.as_deref(), step.hook, step.type_), (Some("s"), Hook::OnResponse, StepType::Url));
    assert_eq!((step.url.as_deref(), step.timeout_ms), (Some("http://tool"), 1000));
    let adapter = route.adapter.as_ref().unwrap();
    assert_eq!((adapter.ingress.as_deref(), adapter.egress.as_deref()), (Some("openai"), None));
    let translate = route.translate.as_ref().unwrap();
    assert_eq!((translate.from.as_str(), translate.to.as_str(), translate.report_header), ("openai", "google", false));
}

#[test]
fn items_past_the_last_field_of_a_list_are_passed_over() {
    let text = "[[route]]\nid = \"a\"\nupstream = \"u\"\nadapter = [\"openai\", \"google\", 3]\n";
    let cfg = read_config(text).unwrap();
    assert_eq!(cfg.routes[0].adapter.as_ref().unwrap().egress.as_deref(), Some("google"));
    assert!(read_config("route = [[\"a\"]]\n").is_err());
    assert!(read_config("route = [[\"a\", \"u\", [[\"s\", \"on_request\"]]]]\n").is_err());
    assert!(read_config("gateway = [true]\n").is_err());
    assert!(read_config("gateway = []\n").is_ok());
}

#[test]
fn words_may_be_tables_of_one_key() {
    let text = r#"
[gateway]
oversize = { stream_through = {} }
[[route]]
id = "a"
upstream = "u"
[[route.step]]
type = { script = [] }
[route.step.on_error]
fail_open = []
"#;
    let cfg = read_config(text).unwrap();
    assert_eq!(cfg.gateway.oversize, Oversize::StreamThrough);
    assert_eq!(cfg.routes[0].steps[0].type_, StepType::Script);
    assert_eq!(cfg.routes[0].steps[0].on_error, OnError::FailOpen);
    for bad in ["{ reject = 1 }", "{ reject = [1] }", "{}", "{ reject = [], stream_through = [] }", "{ other = [] }"] {
        assert!(read_config(&format!("[gateway]\noversize = {bad}\n")).is_err(), "{bad}");
    }
}
