use serde_json::Value;
use sluice::envelope::{
    build_request_envelope, build_response_envelope, build_stream_envelope, Envelope, ENVELOPE_VERSION,
};
use sluice::http_msg::{HeaderMap, HttpMsg};
use sluice::json::{parse, Double, Json, JsonMap};
use sluice::llm::{Llm, Message, Tool};
use sluice::registry::ModelFacts;

fn val(text: &str) -> Value {
    serde_json::from_str(text).unwrap()
}

fn j(text: &str) -> Json {
    parse(text.as_bytes()).unwrap()
}

fn msg() -> HttpMsg {
    HttpMsg {
        method: "POST".into(),
        path: "/v1/messages".into(),
        headers: HeaderMap::new(),
        body_b64: String::new(),
    }
}

#[test]
fn builds_on_request_envelope_with_version_and_self() {
    let env = build_request_envelope(
        "opus",
        "redact",
        &msg(),
        &JsonMap::new(),
        "corr-1",
        None,
    );
    assert_eq!(env.envelope_version, ENVELOPE_VERSION);
    assert_eq!(env.hook, "on_request");
    assert_eq!(env.route_id, "opus");
    assert_eq!(env.self_.as_deref(), Some("redact"));
    assert!(env.response.is_none());
}

#[test]
fn serializes_self_field_as_self() {
    let env = build_request_envelope(
        "opus",
        "redact",
        &msg(),
        &JsonMap::new(),
        "corr-1",
        None,
    );
    let v = val(&env.to_json().to_text());
    assert_eq!(v["self"], "redact");
    assert_eq!(v["envelope_version"], 1);
}

#[test]
fn clones_provided_context_into_envelope() {
    let mut context = JsonMap::new();
    context.insert("a".to_string(), j(r#"{"x":1}"#));
    let env = build_request_envelope("opus", "redact", &msg(), &context, "corr-1", None);
    assert_eq!(env.context.get("a"), Some(&j(r#"{"x":1}"#)));
}

#[test]
fn carries_correlation_id_into_envelope() {
    let env = build_request_envelope(
        "opus",
        "redact",
        &msg(),
        &JsonMap::new(),
        "corr-xyz",
        None,
    );
    assert_eq!(env.correlation_id, "corr-xyz");
    let v = val(&env.to_json().to_text());
    assert_eq!(v["correlation_id"], "corr-xyz");
}

#[test]
fn clones_provided_llm_into_envelope() {
    let llm = Llm {
        provider: "anthropic".to_string(),
        model: "opus-4-1-20250805".to_string(),
        messages: vec![Message {
            role: "user".to_string(),
            content: "hi".to_string(),
        }],
        tools: vec![],
        max_tokens: Some(1024),
        stream: false,
        facts: None,
    };
    let env = build_request_envelope(
        "opus",
        "redact",
        &msg(),
        &JsonMap::new(),
        "corr-1",
        Some(&llm),
    );
    assert_eq!(env.llm, Some(llm));
}

#[test]
fn defaults_llm_to_none_when_not_provided() {
    let env = build_request_envelope(
        "opus",
        "redact",
        &msg(),
        &JsonMap::new(),
        "corr-1",
        None,
    );
    assert!(env.llm.is_none());
}

#[test]
fn builds_on_response_envelope_with_request_and_response() {
    let req = msg();
    let mut resp = msg();
    resp.method = String::new();
    resp.path = String::new();
    let env = build_response_envelope(
        "opus",
        "cost-tag",
        &req,
        &resp,
        &JsonMap::new(),
        "corr-1",
        None,
    );
    assert_eq!(env.hook, "on_response");
    assert_eq!(env.request, req);
    assert_eq!(env.response, Some(resp));
    assert_eq!(env.self_.as_deref(), Some("cost-tag"));
}

#[test]
fn on_response_envelope_serializes_hook_field() {
    let env = build_response_envelope(
        "opus",
        "cost-tag",
        &msg(),
        &msg(),
        &JsonMap::new(),
        "corr-1",
        None,
    );
    let v = val(&env.to_json().to_text());
    assert_eq!(v["hook"], "on_response");
    assert!(v["response"].is_object());
}

#[test]
fn builds_on_stream_envelope_with_chunk_and_no_response() {
    let chunk = j(r#"{ "data_b64": "aGVsbG8=", "seq": 1, "final": false, "delta": {"kind": "text", "text": "hi", "tool_call": null, "usage": null, "finish": null} }"#);
    let env = build_stream_envelope(
        "opus",
        "watcher",
        &msg(),
        chunk.clone(),
        &JsonMap::new(),
        "corr-1",
        None,
    );
    assert_eq!(env.hook, "on_stream");
    assert_eq!(env.self_.as_deref(), Some("watcher"));
    assert!(env.response.is_none());
    assert_eq!(env.chunk, Some(chunk));
}

#[test]
fn on_stream_envelope_serializes_hook_and_chunk_fields() {
    let chunk = j(r#"{"data_b64":"aGk=","seq":1,"final":true,"delta":null}"#);
    let env = build_stream_envelope(
        "opus",
        "watcher",
        &msg(),
        chunk,
        &JsonMap::new(),
        "corr-1",
        None,
    );
    let v = val(&env.to_json().to_text());
    assert_eq!(v["hook"], "on_stream");
    assert_eq!(v["chunk"]["seq"], 1);
    assert_eq!(v["chunk"]["final"], true);
    assert!(v["response"].is_null());
}

#[test]
fn on_stream_envelope_threads_provided_context() {
    let mut context = JsonMap::new();
    context.insert("guard".to_string(), j(r#"{"count":2}"#));
    let chunk =
        j(r#"{"data_b64":"aGk=","seq":1,"final":false,"delta":null}"#);
    let env = build_stream_envelope("opus", "guard", &msg(), chunk, &context, "corr-1", None);
    assert_eq!(
        env.context.get("guard"),
        Some(&j(r#"{"count":2}"#))
    );
}

#[test]
fn envelopes_survive_their_json() {
    let llm = Llm {
        provider: "openai".into(),
        model: "m".into(),
        messages: vec![Message { role: "user".into(), content: "hi".into() }],
        tools: vec![Tool { name: "t".into() }],
        max_tokens: Some(5),
        stream: true,
        facts: Some(ModelFacts {
            id: "m".into(),
            provider: "openai".into(),
            context: Some(10),
            max_output: None,
            cost_input: Some(Double { bits: 1.5f64.to_bits() }),
            cost_output: None,
            modalities: vec!["text".into()],
            tool_call: true,
            status: None,
        }),
    };
    let context = j(r#"{"a":{"b":1}}"#);
    let mut req = msg();
    req.set_header("X-A", "1");
    let env = build_response_envelope(
        "r",
        "s",
        &req,
        &msg(),
        context.as_object().unwrap(),
        "c",
        Some(&llm),
    );
    assert_eq!(Envelope::from_json(&env.to_json()), Some(env));
    let env = build_stream_envelope("r", "s", &req, j(r#"{"seq":1}"#), &JsonMap::new(), "c", None);
    assert_eq!(Envelope::from_json(&env.to_json()), Some(env));
}

#[test]
fn a_null_chunk_reads_as_none() {
    let env = build_stream_envelope("r", "s", &msg(), Json::Null, &JsonMap::new(), "c", None);
    assert_eq!(env.chunk, Some(Json::Null));
    assert_eq!(Envelope::from_json(&env.to_json()).unwrap().chunk, None);
}

#[test]
fn parts_of_an_envelope_are_read() {
    assert_eq!(Message::from_json(&j(r#"["u","c"]"#)), Some(Message { role: "u".into(), content: "c".into() }));
    assert_eq!(Message::from_json(&j(r#"{"role":"u"}"#)), None);
    assert_eq!(Tool::from_json(&j(r#"{"name":"t","more":1}"#)), Some(Tool { name: "t".into() }));
    assert_eq!(Tool::from_json(&j(r#""t""#)), None);
    let read = HttpMsg::from_json(&j(r#"["GET","/",{"a":"b"},""]"#)).unwrap();
    assert_eq!((read.method.as_str(), read.headers.get("a").map(|s| s.as_str())), ("GET", Some("b")));
    assert_eq!(HttpMsg::from_json(&j(r#"{"method":"GET","path":"/","body_b64":""}"#)), None);
    assert_eq!(HttpMsg::from_json(&j(r#"{"method":"GET","path":"/","headers":{"a":1},"body_b64":""}"#)), None);
    assert_eq!(HttpMsg::from_json(&msg().to_json()), Some(msg()));
    assert_eq!(ModelFacts::from_json(&j(r#"{"id":"m"}"#)), None);
    let plain = j(r#"{"provider":"p","model":"m","messages":[],"tools":[],"stream":false}"#);
    assert_eq!(Llm::from_json(&plain).unwrap().facts, None);
    assert_eq!(Llm::from_json(&j(r#"["p","m",[],[],null,false]"#)), None);
    assert_eq!(Llm::from_json(&j(r#"["p","m",[["u","c"]],[["t"]],7,false,null]"#)).unwrap().max_tokens, Some(7));
    assert_eq!(Envelope::from_json(&j("{}")), None);
    assert_eq!(Envelope::from_json(&j("[]")), None);
    let array = j(r#"[1,"h","r","c",null,["GET","/",{},""],null,null,null,{}]"#);
    assert_eq!(Envelope::from_json(&array).unwrap().envelope_version, 1);
    let big = j(r#"[4294967296,"h","r","c",null,["GET","/",{},""],null,null,null,{}]"#);
    assert_eq!(Envelope::from_json(&big), None);
}
