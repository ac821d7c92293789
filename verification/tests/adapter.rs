use sluice::llm::adapter::{adapter_for, Adapter, KNOWN_PROVIDERS};
use sluice::llm::RequestCtx;

#[test]
fn adapter_for_recognizes_known_providers() {
    for name in KNOWN_PROVIDERS.iter() {
        let adapter = adapter_for(name).unwrap_or_else(|| panic!("{name} must be known"));
        assert_eq!(adapter.provider(), *name);
    }
}

#[test]
fn adapter_for_unknown_provider_returns_none() {
    assert!(adapter_for("no-such-provider").is_none());
}

fn ctx(path: &str) -> RequestCtx {
    RequestCtx {
        path: path.to_string(),
        method: "POST".to_string(),
    }
}

#[test]
fn all_known_adapters_parse_their_wire_format_for_real() {
    let anthropic = adapter_for("anthropic").unwrap();
    assert!(anthropic
        .parse_request(
            br#"{"model": "opus-4-1-20250805", "messages": []}"#,
            &ctx("/v1/messages"),
        )
        .is_ok());

    let openai = adapter_for("openai").unwrap();
    assert!(openai
        .parse_request(
            br#"{"model": "gpt-4o", "messages": []}"#,
            &ctx("/v1/chat/completions"),
        )
        .is_ok());

    let google = adapter_for("google").unwrap();
    assert!(google
        .parse_request(
            br#"{"contents": []}"#,
            &ctx("/v1beta/models/gemini-1.5-pro:generateContent"),
        )
        .is_ok());
}
