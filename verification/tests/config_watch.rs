use sluice::config::load::{load_dir, load_str, ConfigError, SourceFile, Surroundings};
use sluice::config::watch::apply_reload;
use sluice::registry::{ModelFacts, Registry};

fn models() -> Registry {
    Registry::new(vec![ModelFacts {
        id: "opus-4-1-20250805".to_string(),
        provider: "anthropic".to_string(),
        context: Some(200_000),
        max_output: Some(32_000),
        cost_input: None,
        cost_output: None,
        modalities: vec!["text".to_string()],
        tool_call: true,
        status: None,
    }])
}

fn env() -> Surroundings {
    Surroundings { models: models(), files: vec![], modules: vec![] }
}

fn route_toml(id: &str) -> String {
    format!(
        r#"
        [[route]]
        id = "{id}"
        upstream = "http://u"
    "#
    )
}

fn route_file(name: &str, id: &str) -> SourceFile {
    SourceFile {
        file_name: name.to_string(),
        path: format!("conf/routes.d/{name}"),
        text: Ok(route_toml(id)),
    }
}

#[test]
fn apply_reload_swaps_live_config_on_valid_source() {
    let mut live = load_str(&route_toml("a"), &env()).unwrap();

    apply_reload(&mut live, load_str(&route_toml("b"), &env())).unwrap();

    assert_eq!(live.routes.len(), 1);
    assert_eq!(live.routes[0].id, "b");
}

#[test]
fn apply_reload_keeps_live_config_on_invalid_source_and_returns_err() {
    let mut live = load_str(&route_toml("b"), &env()).unwrap();

    let err = apply_reload(&mut live, load_str("this is not [ valid toml", &env())).unwrap_err();
    assert!(matches!(err, ConfigError::Parse(_)));

    assert_eq!(live.routes.len(), 1);
    assert_eq!(live.routes[0].id, "b");
}

#[test]
fn apply_reload_dir_source_keeps_live_config_on_invalid_reload() {
    let mut live = load_dir(None, vec![route_file("a.toml", "dir-a")], vec![], &env()).unwrap();

    let again = vec![route_file("a.toml", "dir-a"), route_file("b.toml", "dir-a")];
    let err = apply_reload(&mut live, load_dir(None, again, vec![], &env())).unwrap_err();
    assert!(matches!(err, ConfigError::Invalid(_)));

    assert_eq!(live.routes.len(), 1);
    assert_eq!(live.routes[0].id, "dir-a");
}
