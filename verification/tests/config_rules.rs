use sluice::config::load::{
    config_stem, load_dir, load_file, load_str, paths_to_check, ConfigError, ModuleCheck, SourceFile, Surroundings,
};
use sluice::config::read::{config_from, listener_from, parse_toml, read_config, routes_from, settings_from};
use sluice::config::watch::{source_of, ConfigSource, Found, WatchAction, WatchEvent, WatchState};
use sluice::config::{Config, Gateway};
use sluice::registry::Registry;

fn env() -> Surroundings {
    Surroundings { models: Registry::new(vec![]), files: vec![], modules: vec![] }
}

fn problem(text: &str) -> String {
    match load_str(text, &env()) {
        Err(ConfigError::Invalid(why)) => why,
        other => panic!("{other:?}"),
    }
}

fn route(rest: &str) -> String {
    format!("[[route]]\nid = \"r\"\nupstream = \"http://u\"\n{rest}")
}

fn step(rest: &str) -> String {
    route(&format!("[[route.step]]\n{rest}"))
}

#[test]
fn the_gateway_rules_are_exact() {
    for (settings, why) in [
        ("schema_version = 7", "unsupported schema_version 7: this build supports major version 1"),
        (
            "max_response_bytes = 0",
            "max_response_bytes must be >= 1 (0 would reject every response body)",
        ),
        ("max_inflight = 0", "max_inflight must be >= 1"),
        ("max_event_bytes = 0", "max_event_bytes must be >= 1 (0 would reject every SSE event)"),
        ("listen = \"a\"\nadmin_listen = \"a\"", "admin_listen must differ from listen"),
    ] {
        assert_eq!(problem(&format!("[gateway]\n{settings}\n{}", route(""))), why);
    }
    assert_eq!(
        problem(""),
        "configuration defines no routes; at least one [[route]] is required"
    );
}

#[test]
fn the_route_rules_are_exact() {
    let two = |a: &str, b: &str| {
        format!("[[route]]\nid = \"{a}\"\nupstream = \"x\"\n[[route]]\nid = \"{b}\"\nupstream = \"x\"\n")
    };
    assert_eq!(problem(&two("", "b")), "a route has an empty id");
    assert_eq!(problem(&two("a/b", "b")), "route id 'a/b' must not contain '/'");
    assert_eq!(problem(&two("a", "a")), "duplicate route id 'a' (route ids must be globally unique)");
    assert_eq!(
        problem("[[route]]\nid = \"a\"\nupstream = \"\""),
        "route 'a' has an empty upstream"
    );
    assert_eq!(
        problem(&route("[route.adapter]\ningress = \"x\"")),
        "route 'r' has unknown adapter.ingress 'x' (known: anthropic, openai, google)"
    );
    assert_eq!(
        problem(&route("[route.translate]\nfrom = \"openai\"\nto = \"openai\"")),
        "route 'r': translate.from and translate.to are both 'openai' (a translate that doesn't translate is a config error)"
    );
    assert_eq!(
        problem(&route("[route.translate]\nfrom = \"openai\"\nto = \"google\"\nmodel = \"m\"")),
        "route 'r': translate.model 'm' is not a known model for provider 'google' (translate.to)"
    );
}

#[test]
fn the_step_rules_are_exact() {
    for (text, why) in [
        ("type = \"url\"", "route 'r' step 'url:0' is type=url but has no url"),
        (
            "type = \"url\"\nurl = \"x\"\nmode = \"loopback\"",
            "route 'r' step 'url:0': mode=loopback requires a non-empty loopback_secret",
        ),
        ("type = \"script\"", "route 'r' step 'script:0': script steps require allow_scripts = true"),
        ("type = \"wasm\"", "route 'r' step 'wasm:0' is type=wasm but has no wasm module path"),
        (
            "type = \"url\"\nurl = \"x\"\nis_guardrail = true\non_error = \"fail_open\"",
            "route 'r' step 'url:0': is_guardrail steps cannot use on_error = fail_open (a guardrail must fail closed)",
        ),
    ] {
        assert_eq!(problem(&step(text)), why);
    }
}

#[test]
fn a_scripts_path_has_to_exist() {
    let text = format!("[gateway]\nallow_scripts = true\n{}", step("type = \"script\"\ncmd = [\"./run\"]"));
    assert_eq!(problem(&text), "route 'r' step 'script:0': script cmd[0] './run' does not exist");
    let mut there = env();
    there.files.push("./run".to_string());
    assert!(load_str(&text, &there).is_ok());

    let (files, modules) = paths_to_check(&read_config(&text).unwrap());
    assert_eq!(files, vec!["./run".to_string()]);
    assert!(modules.is_empty());
}

#[test]
fn a_module_has_to_compile() {
    let text = step("type = \"wasm\"\nwasm = \"m.wasm\"");
    let (files, modules) = paths_to_check(&read_config(&text).unwrap());
    assert!(files.is_empty());
    assert_eq!(modules, vec!["m.wasm".to_string()]);
    let with = |error: Option<&str>| {
        let module = ModuleCheck { path: "m.wasm".to_string(), error: error.map(|e| e.to_string()) };
        Surroundings { models: Registry::new(vec![]), files: vec![], modules: vec![module] }
    };
    assert!(load_str(&text, &with(None)).is_ok());
    assert_eq!(
        load_str(&text, &with(Some("bad magic"))).unwrap_err().message(),
        "route 'r' step 'wasm:0': wasm module 'm.wasm' failed to compile: bad magic"
    );
}

#[test]
fn an_empty_document_means_defaults() {
    let cfg = read_config("").unwrap();
    assert_eq!(
        cfg,
        Config { gateway: Gateway::default(), routes: vec![], gateways: vec![] }
    );
}

#[test]
fn an_unknown_key_is_refused() {
    for text in ["bogus = 1", "[gateway]\nbogus = 1", "[[route]]\nid = \"a\"\nupstream = \"u\"\nbogus = 1"] {
        match read_config(text) {
            Err(ConfigError::Parse(why)) => assert!(why.contains("bogus"), "{why}"),
            other => panic!("{text}: {other:?}"),
        }
    }
}

#[test]
fn values_of_the_wrong_kind_are_refused() {
    for text in [
        "gateway = 1",
        "route = 1",
        "[gateway]\nlisten = 1",
        "[gateway]\nmax_hops = -1",
        "[gateway]\nmax_hops = 4294967296",
        "[gateway]\noversize = \"sometimes\"",
        "[gateway]\nexpose_headers = [1]",
        "[[route]]\nid = \"a\"",
        "[[route]]\nid = \"a\"\nupstream = \"u\"\n[[route.step]]\ntype = \"magic\"",
    ] {
        assert!(matches!(read_config(text), Err(ConfigError::Parse(_))), "{text}");
    }
}

#[test]
fn toml_is_read_as_it_stands() {
    let v = parse_toml("a = 1\n[b]\nc = [\"x\", true, -2, 0.5]\n").unwrap();
    assert_eq!(v.to_text(), r#"{"a":1,"b":{"c":["x",true,-2,0.5]}}"#);
    assert!(parse_toml("a = ").is_err());
}

fn file(name: &str, text: &str) -> SourceFile {
    SourceFile {
        file_name: name.to_string(),
        path: format!("d/{name}"),
        text: Ok(text.to_string()),
    }
}

#[test]
fn a_directory_is_read_in_the_order_of_names() {
    let routes = vec![
        file("b.toml", "[[route]]\nid = \"2\"\nupstream = \"u\""),
        file("a.toml", "[[route]]\nid = \"1\"\nupstream = \"u\""),
        file("c.toml", "[[route]]\nid = \"3\"\nupstream = \"u\""),
    ];
    let cfg = load_dir(None, routes, vec![], &env()).unwrap();
    let ids: Vec<&str> = cfg.routes.iter().map(|r| r.id.as_str()).collect();
    assert_eq!(ids, vec!["1", "2", "3"]);
}

#[test]
fn a_bad_file_fails_the_whole_load() {
    let good = || file("a.toml", "[[route]]\nid = \"1\"\nupstream = \"u\"");
    let unreadable = SourceFile {
        file_name: "b.toml".to_string(),
        path: "d/b.toml".to_string(),
        text: Err("denied".to_string()),
    };
    let err = load_dir(None, vec![good(), unreadable], vec![], &env()).unwrap_err();
    assert_eq!(err, ConfigError::Io("denied".to_string()));
    assert_eq!(err.message(), "failed to read file: denied");

    let err = load_dir(Some(file("gateway.toml", "[gateway]\nlisten = 3")), vec![good()], vec![], &env())
        .unwrap_err();
    assert!(err.message().starts_with("failed to parse d/gateway.toml: "), "{}", err.message());
}

#[test]
fn only_toml_files_have_a_stem() {
    assert_eq!(config_stem("public.toml").as_deref(), Some("public"));
    assert_eq!(config_stem("a.b.toml").as_deref(), Some("a.b"));
    assert_eq!(config_stem("x.TOML"), None);
    assert_eq!(config_stem(".toml"), None);
    assert_eq!(config_stem("toml"), None);
}

#[test]
fn a_source_is_reloaded_from_what_was_found() {
    let source = source_of("sluice.toml", None);
    assert_eq!(source, ConfigSource::File("sluice.toml".to_string()));
    assert_eq!(source.watch_path(), "sluice.toml");
    let cfg = source.reload(Found::File(Ok(route(""))), &env()).unwrap();
    assert_eq!(cfg, load_file(Ok(route("")), &env()).unwrap());
    assert_eq!(
        source.reload(Found::File(Err("gone".to_string())), &env()),
        Err(ConfigError::Io("gone".to_string()))
    );

    let dir = source_of("sluice.toml", Some("conf.d"));
    assert_eq!(dir, ConfigSource::Dir("conf.d".to_string()));
    let found = Found::Dir {
        gateway: None,
        routes: vec![file("a.toml", &route(""))],
        listeners: vec![file("g.toml", "listen = \"l\"\nroutes = [\"r\"]")],
    };
    let cfg = dir.reload(found, &env()).unwrap();
    assert_eq!(cfg.gateways[0].name, "g");
}

#[test]
fn a_burst_of_changes_reloads_once() {
    let mut state = WatchState::Idle;
    assert_eq!(state.next(WatchEvent::Failed), WatchAction::Warn);
    assert_eq!(state.next(WatchEvent::Changed), WatchAction::WaitForQuiet);
    assert_eq!(state.next(WatchEvent::Failed), WatchAction::WaitForQuiet);
    assert_eq!(state.next(WatchEvent::Changed), WatchAction::WaitForQuiet);
    assert_eq!(state.next(WatchEvent::Quiet), WatchAction::Reload);
    assert_eq!(state.next(WatchEvent::Quiet), WatchAction::Wait);
    assert_eq!(state.next(WatchEvent::Changed), WatchAction::WaitForQuiet);
    assert_eq!(state.next(WatchEvent::Closed), WatchAction::Stop);
    assert_eq!(state.next(WatchEvent::Changed), WatchAction::Stop);
}

#[test]
fn loopback_of_any_type_needs_a_secret() {
    let script = step("type = \"script\"\ncmd = [\"sh\"]\nmode = \"loopback\"");
    let wasm = step("type = \"wasm\"\nwasm = \"m.wasm\"\nmode = \"loopback\"");
    let mut env = env();
    env.modules.push(ModuleCheck { path: "m.wasm".to_string(), error: None });
    for (text, name) in [(&script, "script:0"), (&wasm, "wasm:0")] {
        let without = format!("[gateway]\nallow_scripts = true\n{text}");
        match load_str(&without, &env) {
            Err(ConfigError::Invalid(why)) => assert_eq!(
                why,
                format!("route 'r' step '{name}': mode=loopback requires a non-empty loopback_secret")
            ),
            other => panic!("{other:?}"),
        }
        let with = format!("[gateway]\nallow_scripts = true\nloopback_secret = \"s\"\n{text}");
        assert!(load_str(&with, &env).is_ok());
    }
}

#[test]
fn what_follows_the_parse_takes_values() {
    let j = |text: &str| sluice::json::parse(text.as_bytes()).unwrap();
    let cfg = config_from(&j(r#"{"route":[{"id":"a","upstream":"u"}]}"#)).unwrap();
    assert_eq!(cfg.routes.len(), 1);
    assert_eq!(cfg.routes[0].upstream, "u");
    assert_eq!(config_from(&j(r#"{"x":1}"#)).unwrap_err(), "unknown field `x`");
    let g = settings_from("g.toml", Ok(j(r#"{"gateway":{"max_hops":3}}"#))).unwrap();
    assert_eq!(g.max_hops, 3);
    assert!(matches!(
        settings_from("g.toml", Err("no".to_string())),
        Err(ConfigError::Invalid(why)) if why == "failed to parse g.toml: no"
    ));
    let routes = routes_from("r.toml", Ok(j(r#"{"route":[{"id":"a","upstream":"u"}]}"#))).unwrap();
    assert_eq!(routes[0].id, "a");
    assert!(routes_from("r.toml", Ok(j(r#"{"gateway":{}}"#))).is_err());
    let l = listener_from("l.toml", Ok(j(r#"{"listen":"x","routes":["a"]}"#))).unwrap();
    assert_eq!((l.listen, l.routes), ("x".to_string(), vec!["a".to_string()]));
    assert!(listener_from("l.toml", Ok(j(r#"{"routes":["a"]}"#))).is_err());
}
