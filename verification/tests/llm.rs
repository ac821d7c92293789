use sluice::llm::resolve_facts;
use sluice::registry::{ModelFacts, Registry};

fn registry() -> Registry {
    Registry::new(vec![ModelFacts {
        id: "opus-4-1-20250805".to_string(),
        provider: "anthropic".to_string(),
        context: Some(200_000),
        max_output: Some(32_000),
        cost_input: None,
        cost_output: None,
        modalities: vec!["text".to_string()],
        tool_call: true,
        status: None,
    }])
}

#[test]
fn resolve_facts_returns_seeded_models_facts() {
    let reg = registry();
    let facts = resolve_facts(&reg, "anthropic", "opus-4-1-20250805")
        .expect("seeded anthropic model must resolve");
    assert_eq!(facts.provider, "anthropic");
    assert_eq!(facts.id, "opus-4-1-20250805");
}

#[test]
fn resolve_facts_returns_none_for_unknown_model() {
    let reg = registry();
    assert!(resolve_facts(&reg, "anthropic", "no-such-model").is_none());
}
