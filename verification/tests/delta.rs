use sluice::json::{parse, Json};
use sluice::llm::delta::{Delta, Finish, ToolCallDelta, Usage};

fn j(text: &str) -> Json {
    parse(text.as_bytes()).unwrap()
}

#[test]
fn delta_round_trips_through_json() {
    let delta = Delta::text("hello".to_string());
    let json = delta.to_json().to_text();
    let back = Delta::from_json(&j(&json)).unwrap();
    assert_eq!(delta, back);
}

#[test]
fn usage_delta_round_trips_through_json() {
    let delta = Delta::usage(Usage {
        input_tokens: Some(10),
        output_tokens: Some(20),
    });
    let json = delta.to_json().to_text();
    let back = Delta::from_json(&j(&json)).unwrap();
    assert_eq!(delta, back);
}

#[test]
fn tool_call_delta_round_trips_through_json() {
    let delta = Delta::tool_call(ToolCallDelta {
        id: Some("call_1".to_string()),
        name: Some("get_weather".to_string()),
        arguments_fragment: Some(r#"{"loc":"#.to_string()),
    });
    let json = delta.to_json().to_text();
    let back = Delta::from_json(&j(&json)).unwrap();
    assert_eq!(delta, back);
}

#[test]
fn finish_delta_round_trips_through_json() {
    let delta = Delta::finish(Finish {
        reason: Some("stop".to_string()),
    });
    let json = delta.to_json().to_text();
    let back = Delta::from_json(&j(&json)).unwrap();
    assert_eq!(delta, back);
}
