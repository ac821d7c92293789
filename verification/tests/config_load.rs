use sluice::config::load::{load_dir, load_str, ConfigError, ModuleCheck, SourceFile, Surroundings};
use sluice::config::{Config, Oversize, ScriptMode, UrlMode};
use sluice::registry::{ModelFacts, Registry};

fn models() -> Registry {
    Registry::new(vec![ModelFacts {
        id: "opus-4-1-20250805".to_string(),
        provider: "anthropic".to_string(),
        context: Some(200_000),
        max_output: Some(32_000),
        cost_input: None,
        cost_output: None,
        modalities: vec!["text".to_string()],
        tool_call: true,
        status: None,
    }])
}

fn env() -> Surroundings {
    Surroundings { models: models(), files: vec![], modules: vec![] }
}

fn with_module(path: &str, error: Option<&str>) -> Surroundings {
    let module = ModuleCheck { path: path.to_string(), error: error.map(|e| e.to_string()) };
    Surroundings { models: models(), files: vec![], modules: vec![module] }
}

struct Dir {
    settings: Option<String>,
    routes: Vec<(String, String)>,
    listeners: Vec<(String, String)>,
}

fn source(part: &str, name: &str, text: &str) -> SourceFile {
    SourceFile {
        file_name: name.to_string(),
        path: format!("conf/{part}{name}"),
        text: Ok(text.to_string()),
    }
}

impl Dir {
    fn new() -> Dir {
        Dir { settings: None, routes: vec![], listeners: vec![] }
    }

    fn settings(&mut self, text: &str) {
        self.settings = Some(text.to_string());
    }

    fn route(&mut self, name: &str, text: &str) {
        self.routes.push((name.to_string(), text.to_string()));
    }

    fn listener(&mut self, name: &str, text: &str) {
        self.listeners.push((name.to_string(), text.to_string()));
    }

    fn load(&self) -> Result<Config, ConfigError> {
        load_dir(
            self.settings.as_ref().map(|text| source("", "gateway.toml", text)),
            self.routes.iter().map(|(name, text)| source("routes.d/", name, text)).collect(),
            self.listeners.iter().map(|(name, text)| source("gateways.d/", name, text)).collect(),
            &env(),
        )
    }
}

#[test]
fn minimal_config_loads_with_defaults() {
    let cfg = load_str(
        r#"
        [[route]]
        id = "opus"
        upstream = "https://api.anthropic.com"
    "#,
        &env(),
    )
    .unwrap();
    assert_eq!(cfg.gateway.listen, "127.0.0.1:8080");
    assert_eq!(cfg.routes.len(), 1);
    assert_eq!(cfg.routes[0].id, "opus");
}

#[test]
fn rejects_unknown_schema_version() {
    let err = load_str(
        r#"
        [gateway]
        schema_version = 2
        [[route]]
        id = "x"
        upstream = "http://u"
    "#,
        &env(),
    )
    .unwrap_err();
    assert!(err.message().contains("schema_version"));
}

#[test]
fn rejects_duplicate_route_id() {
    let err = load_str(
        r#"
        [[route]]
        id = "dup"
        upstream = "http://a"
        [[route]]
        id = "dup"
        upstream = "http://b"
    "#,
        &env(),
    )
    .unwrap_err();
    assert!(err.message().contains("duplicate route id"));
}

#[test]
fn rejects_duplicate_step_name() {
    let err = load_str(
        r#"
        [[route]]
        id = "r"
        upstream = "http://u"
          [[route.step]]
          name = "s"
          type = "url"
          url = "http://step"
          [[route.step]]
          name = "s"
          type = "url"
          url = "http://step"
    "#,
        &env(),
    )
    .unwrap_err();
    assert!(err.message().contains("duplicate step name"));
}

#[test]
fn rejects_url_step_without_url() {
    let err = load_str(
        r#"
        [[route]]
        id = "r"
        upstream = "http://u"
          [[route.step]]
          type = "url"
    "#,
        &env(),
    )
    .unwrap_err();
    assert!(err.message().contains("no url"));
}

#[test]
fn accepts_oversize_stream_through() {
    let cfg = load_str(
        r#"
        [gateway]
        oversize = "stream_through"
        [[route]]
        id = "r"
        upstream = "http://u"
    "#,
        &env(),
    )
    .unwrap();
    assert_eq!(cfg.gateway.oversize, Oversize::StreamThrough);
}

#[test]
fn rejects_max_response_bytes_zero() {
    let err = load_str(
        r#"
        [gateway]
        max_response_bytes = 0
        [[route]]
        id = "r"
        upstream = "http://u"
    "#,
        &env(),
    )
    .unwrap_err();
    assert!(err.message().contains("max_response_bytes must be >= 1"));
}

#[test]
fn accepts_oversize_reject() {
    let cfg = load_str(
        r#"
        [gateway]
        oversize = "reject"
        [[route]]
        id = "r"
        upstream = "http://u"
    "#,
        &env(),
    )
    .unwrap();
    assert_eq!(cfg.gateway.oversize, Oversize::Reject);
}

#[test]
fn rejects_zero_max_inflight() {
    let err = load_str(
        r#"
        [gateway]
        max_inflight = 0
        [[route]]
        id = "r"
        upstream = "http://u"
    "#,
        &env(),
    )
    .unwrap_err();
    assert!(err.message().contains("max_inflight must be >= 1"));
}

#[test]
fn rejects_zero_max_event_bytes() {
    let err = load_str(
        r#"
        [gateway]
        max_event_bytes = 0
        [[route]]
        id = "r"
        upstream = "http://u"
    "#,
        &env(),
    )
    .unwrap_err();
    assert!(err.message().contains("max_event_bytes must be >= 1"));
}

#[test]
fn accepts_nonzero_max_event_bytes() {
    let cfg = load_str(
        r#"
        [gateway]
        max_event_bytes = 4096
        [[route]]
        id = "r"
        upstream = "http://u"
    "#,
        &env(),
    )
    .unwrap();
    assert_eq!(cfg.gateway.max_event_bytes(), 4096);
}

#[test]
fn rejects_loopback_mode_without_secret() {
    let err = load_str(
        r#"
        [[route]]
        id = "r"
        upstream = "http://u"
          [[route.step]]
          type = "url"
          mode = "loopback"
          url = "http://step"
    "#,
        &env(),
    )
    .unwrap_err();
    assert!(
        err.message()
            .contains("mode=loopback requires a non-empty loopback_secret"),
        "{err:?}"
    );
}

#[test]
fn rejects_loopback_mode_on_on_response_hook() {
    let err = load_str(
        r#"
        [gateway]
        loopback_secret = "s3cr3t"
        [[route]]
        id = "r"
        upstream = "http://u"
          [[route.step]]
          type = "url"
          mode = "loopback"
          hook = "on_response"
          url = "http://step"
    "#,
        &env(),
    )
    .unwrap_err();
    assert!(
        err.message()
            .contains("only supported on hook=on_request"),
        "{err:?}"
    );
}

#[test]
fn rejects_loopback_mode_on_on_stream_hook() {
    let err = load_str(
        r#"
        [gateway]
        loopback_secret = "s3cr3t"
        [[route]]
        id = "r"
        upstream = "http://u"
          [[route.step]]
          type = "url"
          mode = "loopback"
          hook = "on_stream"
          url = "http://step"
    "#,
        &env(),
    )
    .unwrap_err();
    assert!(
        err.message()
            .contains("only supported on hook=on_request"),
        "{err:?}"
    );
}

#[test]
fn accepts_loopback_mode_on_request_with_secret() {
    let cfg = load_str(
        r#"
        [gateway]
        loopback_secret = "s3cr3t"
        [[route]]
        id = "r"
        upstream = "http://u"
          [[route.step]]
          type = "url"
          mode = "loopback"
          hook = "on_request"
          url = "http://step"
    "#,
        &env(),
    )
    .unwrap();
    assert_eq!(cfg.routes[0].steps[0].mode, UrlMode::Loopback);
}

#[test]
fn rejects_script_step_without_allow_scripts() {
    let err = load_str(
        r#"
        [[route]]
        id = "r"
        upstream = "http://u"
          [[route.step]]
          type = "script"
    "#,
        &env(),
    )
    .unwrap_err();
    assert!(err.message().contains("allow_scripts = true"), "{err:?}");
}

#[test]
fn accepts_script_step_with_allow_scripts() {
    let cfg = load_str(
        r#"
        [gateway]
        allow_scripts = true
        [[route]]
        id = "r"
        upstream = "http://u"
          [[route.step]]
          type = "script"
          cmd = ["true"]
    "#,
        &env(),
    )
    .unwrap();
    assert_eq!(cfg.routes[0].steps.len(), 1);
}

#[test]
fn rejects_script_step_without_cmd() {
    let err = load_str(
        r#"
        [gateway]
        allow_scripts = true
        [[route]]
        id = "r"
        upstream = "http://u"
          [[route.step]]
          type = "script"
    "#,
        &env(),
    )
    .unwrap_err();
    assert!(err.message().contains("no cmd"), "{err:?}");
}

#[test]
fn rejects_script_on_stream_hook() {
    let err = load_str(
        r#"
        [gateway]
        allow_scripts = true
        [[route]]
        id = "r"
        upstream = "http://u"
          [[route.step]]
          type = "script"
          hook = "on_stream"
          cmd = ["true"]
    "#,
        &env(),
    )
    .unwrap_err();
    assert!(
        err.message()
            .contains("script steps are not supported on the on_stream hook yet"),
        "{err:?}"
    );
}

#[test]
fn accepts_script_worker_on_stream_mutate() {
    let cfg = load_str(
        r#"
        [gateway]
        allow_scripts = true
        [[route]]
        id = "r"
        upstream = "http://u"
          [[route.step]]
          type = "script"
          hook = "on_stream"
          chunk_mode = "mutate"
          script_mode = "worker"
          cmd = ["true"]
    "#,
        &env(),
    )
    .unwrap();
    assert_eq!(cfg.routes[0].steps.len(), 1);
    assert_eq!(cfg.routes[0].steps[0].script_mode, ScriptMode::Worker);
}

#[test]
fn rejects_script_oneshot_on_stream() {
    let err = load_str(
        r#"
        [gateway]
        allow_scripts = true
        [[route]]
        id = "r"
        upstream = "http://u"
          [[route.step]]
          type = "script"
          hook = "on_stream"
          script_mode = "oneshot"
          cmd = ["true"]
    "#,
        &env(),
    )
    .unwrap_err();
    assert!(
        err.message()
            .contains("script steps are not supported on the on_stream hook yet"),
        "{err:?}"
    );
}

#[test]
fn rejects_script_worker_on_stream_observe() {
    let err = load_str(
        r#"
        [gateway]
        allow_scripts = true
        [[route]]
        id = "r"
        upstream = "http://u"
          [[route.step]]
          name = "watcher"
          type = "script"
          hook = "on_stream"
          chunk_mode = "observe"
          script_mode = "worker"
          cmd = ["true"]
    "#,
        &env(),
    )
    .unwrap_err();
    let msg = err.message();
    assert!(msg.contains("r"), "{msg}");
    assert!(msg.contains("watcher"), "{msg}");
    assert!(msg.contains("chunk_mode = mutate"), "{msg}");
}

#[test]
fn rejects_script_worker_on_stream_default_chunk_mode() {
    let err = load_str(
        r#"
        [gateway]
        allow_scripts = true
        [[route]]
        id = "r"
        upstream = "http://u"
          [[route.step]]
          name = "watcher"
          type = "script"
          hook = "on_stream"
          script_mode = "worker"
          cmd = ["true"]
    "#,
        &env(),
    )
    .unwrap_err();
    let msg = err.message();
    assert!(msg.contains("watcher"), "{msg}");
    assert!(msg.contains("chunk_mode = mutate"), "{msg}");
}

#[test]
fn accepts_script_mode_worker_on_request() {
    let cfg = load_str(
        r#"
        [gateway]
        allow_scripts = true
        [[route]]
        id = "r"
        upstream = "http://u"
          [[route.step]]
          type = "script"
          hook = "on_request"
          script_mode = "worker"
          cmd = ["true"]
    "#,
        &env(),
    )
    .unwrap();
    assert_eq!(cfg.routes[0].steps.len(), 1);
    assert_eq!(cfg.routes[0].steps[0].script_mode, ScriptMode::Worker);
}

#[test]
fn accepts_script_oneshot_on_request() {
    let cfg = load_str(
        r#"
        [gateway]
        allow_scripts = true
        [[route]]
        id = "r"
        upstream = "http://u"
          [[route.step]]
          type = "script"
          hook = "on_request"
          script_mode = "oneshot"
          cmd = ["true"]
    "#,
        &env(),
    )
    .unwrap();
    assert_eq!(cfg.routes[0].steps.len(), 1);
}

#[test]
fn rejects_wasm_step_without_wasm_path() {
    let err = load_str(
        r#"
        [[route]]
        id = "r"
        upstream = "http://u"
          [[route.step]]
          type = "wasm"
    "#,
        &env(),
    )
    .unwrap_err();
    assert!(err.message().contains("no wasm module path"), "{err:?}");
}

#[test]
fn accepts_wasm_step_with_compilable_wasm_path() {
    let cfg = load_str(
        r#"
        [[route]]
        id = "r"
        upstream = "http://u"
          [[route.step]]
          type = "wasm"
          wasm = "/modules/module.wasm"
    "#,
        &with_module("/modules/module.wasm", None),
    )
    .unwrap();
    assert_eq!(cfg.routes[0].steps.len(), 1);
}

#[test]
fn rejects_wasm_step_with_unloadable_module_path() {
    let err = load_str(
        r#"
        [[route]]
        id = "r"
        upstream = "http://u"
          [[route.step]]
          type = "wasm"
          wasm = "/no/such/module-xyz.wasm"
    "#,
        &with_module("/no/such/module-xyz.wasm", Some("No such file or directory (os error 2)")),
    )
    .unwrap_err();
    let msg = err.message();
    assert!(msg.contains("/no/such/module-xyz.wasm"), "{msg}");
    assert!(msg.contains("failed to compile"), "{msg}");
}

#[test]
fn rejects_wasm_on_stream_hook() {
    let err = load_str(
        r#"
        [[route]]
        id = "r"
        upstream = "http://u"
          [[route.step]]
          type = "wasm"
          hook = "on_stream"
          wasm = "modules/redact.wasm"
    "#,
        &env(),
    )
    .unwrap_err();
    assert!(
        err.message()
            .contains("wasm steps are not supported on on_stream yet"),
        "{err:?}"
    );
}

#[test]
fn rejects_wasm_on_stream_hook_even_with_uncompilable_path() {
    let err = load_str(
        r#"
        [[route]]
        id = "r"
        upstream = "http://u"
          [[route.step]]
          type = "wasm"
          hook = "on_stream"
          wasm = "modules/redact.wasm"
    "#,
        &env(),
    )
    .unwrap_err();
    assert!(
        err.message()
            .contains("wasm steps are not supported on on_stream yet"),
        "{err:?}"
    );
}

#[test]
fn rejects_script_step_with_missing_absolute_cmd_path() {
    let err = load_str(
        r#"
        [gateway]
        allow_scripts = true
        [[route]]
        id = "r"
        upstream = "http://u"
          [[route.step]]
          type = "script"
          cmd = ["/no/such/binary-xyz"]
    "#,
        &env(),
    )
    .unwrap_err();
    let msg = err.message();
    assert!(msg.contains("/no/such/binary-xyz"), "{msg}");
    assert!(msg.contains("does not exist"), "{msg}");
}

#[test]
fn accepts_script_step_with_bare_command_name_regardless_of_path() {
    let cfg = load_str(
        r#"
        [gateway]
        allow_scripts = true
        [[route]]
        id = "r"
        upstream = "http://u"
          [[route.step]]
          type = "script"
          cmd = ["does-not-exist-anywhere"]
    "#,
        &env(),
    )
    .unwrap();
    assert_eq!(cfg.routes[0].steps.len(), 1);
}

#[test]
fn rejects_guardrail_observe_on_stream() {
    let err = load_str(
        r#"
        [[route]]
        id = "r"
        upstream = "http://u"
          [[route.step]]
          type = "url"
          url = "http://step"
          hook = "on_stream"
          is_guardrail = true
    "#,
        &env(),
    )
    .unwrap_err();
    assert!(err.message().contains("is_guardrail"), "{err:?}");
    assert!(err.message().contains("chunk_mode"), "{err:?}");
}

#[test]
fn accepts_guardrail_mutate_on_stream() {
    let cfg = load_str(
        r#"
        [[route]]
        id = "r"
        upstream = "http://u"
          [[route.step]]
          type = "url"
          url = "http://step"
          hook = "on_stream"
          is_guardrail = true
          chunk_mode = "mutate"
    "#,
        &env(),
    )
    .unwrap();
    assert!(cfg.routes[0].steps[0].is_guardrail);
}

#[test]
fn rejects_guardrail_fail_open() {
    let err = load_str(
        r#"
        [[route]]
        id = "r"
        upstream = "http://u"
          [[route.step]]
          type = "url"
          url = "http://step"
          is_guardrail = true
          on_error = "fail_open"
    "#,
        &env(),
    )
    .unwrap_err();
    assert!(err.message().contains("fail_open"), "{err:?}");
}

#[test]
fn accepts_guardrail_fail_closed() {
    let cfg = load_str(
        r#"
        [[route]]
        id = "r"
        upstream = "http://u"
          [[route.step]]
          type = "url"
          url = "http://step"
          is_guardrail = true
    "#,
        &env(),
    )
    .unwrap();
    assert!(cfg.routes[0].steps[0].is_guardrail);
}

#[test]
fn rejects_on_response_and_on_stream_combined_on_one_route() {
    let err = load_str(
        r#"
        [[route]]
        id = "r"
        upstream = "http://u"
          [[route.step]]
          type = "url"
          url = "http://a"
          hook = "on_response"
          [[route.step]]
          type = "url"
          url = "http://b"
          hook = "on_stream"
    "#,
        &env(),
    )
    .unwrap_err();
    assert!(err.message().contains("cannot be combined"), "{err:?}");
}

#[test]
fn accepts_on_response_and_on_stream_on_different_routes() {
    let cfg = load_str(
        r#"
        [[route]]
        id = "r1"
        upstream = "http://a"
          [[route.step]]
          type = "url"
          url = "http://a"
          hook = "on_response"
        [[route]]
        id = "r2"
        upstream = "http://b"
          [[route.step]]
          type = "url"
          url = "http://b"
          hook = "on_stream"
    "#,
        &env(),
    )
    .unwrap();
    assert_eq!(cfg.routes.len(), 2);
}

#[test]
fn rejects_on_stream_route_mixing_observe_and_mutate() {
    let err = load_str(
        r#"
        [[route]]
        id = "r"
        upstream = "http://u"
          [[route.step]]
          name = "observer"
          type = "url"
          url = "http://a"
          hook = "on_stream"
          chunk_mode = "observe"
          [[route.step]]
          name = "mutator"
          type = "url"
          url = "http://b"
          hook = "on_stream"
          chunk_mode = "mutate"
    "#,
        &env(),
    )
    .unwrap_err();
    let msg = err.message();
    assert!(msg.contains("cannot mix observe and mutate"), "{msg}");
}

#[test]
fn accepts_on_stream_route_with_only_observe_steps() {
    let cfg = load_str(
        r#"
        [[route]]
        id = "r"
        upstream = "http://u"
          [[route.step]]
          name = "observer1"
          type = "url"
          url = "http://a"
          hook = "on_stream"
          chunk_mode = "observe"
          [[route.step]]
          name = "observer2"
          type = "url"
          url = "http://b"
          hook = "on_stream"
          chunk_mode = "observe"
    "#,
        &env(),
    )
    .unwrap();
    assert_eq!(cfg.routes[0].steps.len(), 2);
}

#[test]
fn accepts_on_stream_route_with_only_mutate_steps() {
    let cfg = load_str(
        r#"
        [[route]]
        id = "r"
        upstream = "http://u"
          [[route.step]]
          name = "mutator1"
          type = "url"
          url = "http://a"
          hook = "on_stream"
          chunk_mode = "mutate"
          [[route.step]]
          name = "mutator2"
          type = "url"
          url = "http://b"
          hook = "on_stream"
          chunk_mode = "mutate"
    "#,
        &env(),
    )
    .unwrap();
    assert_eq!(cfg.routes[0].steps.len(), 2);
}

#[test]
fn rejects_admin_listen_equal_to_listen() {
    let err = load_str(
        r#"
        [gateway]
        listen = "127.0.0.1:9000"
        admin_listen = "127.0.0.1:9000"
        [[route]]
        id = "r"
        upstream = "http://u"
    "#,
        &env(),
    )
    .unwrap_err();
    assert!(err.message()
        .contains("admin_listen must differ from listen"));
}

#[test]
fn rejects_config_with_no_routes() {
    let err = load_str(
        r#"
        [gateway]
        listen = "127.0.0.1:9000"
    "#,
        &env(),
    )
    .unwrap_err();
    assert!(err.message().contains("no routes"), "{err:?}");
}

#[test]
fn load_dir_merges_gateway_and_routes_d() {
    let mut dir = Dir::new();
    dir.settings(
        r#"
        [gateway]
        listen = "127.0.0.1:9100"
    "#,
    );
    dir.route(
        "a.toml",
        r#"
        [[route]]
        id = "route-a"
        upstream = "http://a"
    "#,
    );
    dir.route(
        "b.toml",
        r#"
        [[route]]
        id = "route-b"
        upstream = "http://b"
    "#,
    );

    let cfg = dir.load().unwrap();
    assert_eq!(cfg.gateway.listen, "127.0.0.1:9100");
    assert_eq!(cfg.routes.len(), 2);
    assert_eq!(cfg.routes[0].id, "route-a");
    assert_eq!(cfg.routes[1].id, "route-b");
}

#[test]
fn load_dir_without_gateway_toml_uses_defaults() {
    let mut dir = Dir::new();
    dir.route(
        "a.toml",
        r#"
        [[route]]
        id = "only"
        upstream = "http://a"
    "#,
    );

    let cfg = dir.load().unwrap();
    assert_eq!(cfg.gateway.listen, "127.0.0.1:8080");
    assert_eq!(cfg.routes.len(), 1);
}

#[test]
fn load_dir_empty_dir_rejects_zero_routes() {
    let dir = Dir::new();

    let err = dir.load().unwrap_err();
    assert!(err.message().contains("no routes"), "{err:?}");
}

#[test]
fn load_dir_duplicate_route_id_across_files_names_both() {
    let mut dir = Dir::new();
    dir.route(
        "a.toml",
        r#"
        [[route]]
        id = "dup"
        upstream = "http://a"
    "#,
    );
    dir.route(
        "b.toml",
        r#"
        [[route]]
        id = "dup"
        upstream = "http://b"
    "#,
    );

    let err = dir.load().unwrap_err();
    let msg = err.message();
    assert!(msg.contains("a.toml"), "expected 'a.toml' in: {msg}");
    assert!(msg.contains("b.toml"), "expected 'b.toml' in: {msg}");
    assert!(msg.contains("duplicate route id 'dup'"), "{msg}");
}

#[test]
fn load_dir_malformed_file_aborts_whole_load() {
    let mut dir = Dir::new();
    dir.route(
        "a.toml",
        r#"
        [[route]]
        id = "good"
        upstream = "http://a"
    "#,
    );
    dir.route(
        "z-bad.toml",
        "this is not [ valid toml",
    );

    let err = dir.load().unwrap_err();
    assert!(err.message().contains("z-bad.toml"), "{err:?}");
}

#[test]
fn load_dir_orders_routes_lexically_by_filename() {
    let mut dir = Dir::new();
    dir.route(
        "a_first.toml",
        r#"
        [[route]]
        id = "second"
        upstream = "http://a"
    "#,
    );
    dir.route(
        "b_second.toml",
        r#"
        [[route]]
        id = "first"
        upstream = "http://b"
    "#,
    );

    let cfg = dir.load().unwrap();
    assert_eq!(cfg.routes.len(), 2);
    assert_eq!(cfg.routes[0].id, "second");
    assert_eq!(cfg.routes[1].id, "first");
}

#[test]
fn load_dir_rejects_admin_listen_equal_to_listen() {
    let mut dir = Dir::new();
    dir.settings(
        r#"
        [gateway]
        listen = "127.0.0.1:9200"
        admin_listen = "127.0.0.1:9200"
    "#,
    );
    dir.route(
        "a.toml",
        r#"
        [[route]]
        id = "r"
        upstream = "http://a"
    "#,
    );

    let err = dir.load().unwrap_err();
    assert!(err.message()
        .contains("admin_listen must differ from listen"));
}

#[test]
fn parses_route_adapter_ingress() {
    let cfg = load_str(
        r#"
        [[route]]
        id = "r"
        upstream = "http://u"
          [route.adapter]
          ingress = "anthropic"
    "#,
        &env(),
    )
    .unwrap();
    let adapter = cfg.routes[0].adapter.as_ref().expect("adapter present");
    assert_eq!(adapter.ingress.as_deref(), Some("anthropic"));
    assert_eq!(adapter.egress, None);
}

#[test]
fn route_without_adapter_defaults_to_none() {
    let cfg = load_str(
        r#"
        [[route]]
        id = "r"
        upstream = "http://u"
    "#,
        &env(),
    )
    .unwrap();
    assert!(cfg.routes[0].adapter.is_none());
}

#[test]
fn rejects_unknown_adapter_ingress() {
    let err = load_str(
        r#"
        [[route]]
        id = "r"
        upstream = "http://u"
          [route.adapter]
          ingress = "no-such-provider"
    "#,
        &env(),
    )
    .unwrap_err();
    assert!(err.message().contains("unknown adapter.ingress"), "{err:?}");
}

#[test]
fn rejects_unknown_adapter_egress() {
    let err = load_str(
        r#"
        [[route]]
        id = "r"
        upstream = "http://u"
          [route.adapter]
          ingress = "anthropic"
          egress = "no-such-provider"
    "#,
        &env(),
    )
    .unwrap_err();
    assert!(err.message().contains("unknown adapter.egress"), "{err:?}");
}

#[test]
fn rejects_egress_different_from_ingress() {
    let err = load_str(
        r#"
        [[route]]
        id = "r"
        upstream = "http://u"
          [route.adapter]
          ingress = "anthropic"
          egress = "openai"
    "#,
        &env(),
    )
    .unwrap_err();
    assert!(
        err.message()
            .contains("cross-provider egress translation is not supported yet"),
        "{err:?}"
    );
}

#[test]
fn accepts_egress_equal_to_ingress() {
    let cfg = load_str(
        r#"
        [[route]]
        id = "r"
        upstream = "http://u"
          [route.adapter]
          ingress = "anthropic"
          egress = "anthropic"
    "#,
        &env(),
    )
    .unwrap();
    let adapter = cfg.routes[0].adapter.as_ref().expect("adapter present");
    assert_eq!(adapter.egress.as_deref(), Some("anthropic"));
}

fn write_routes_ab(dir: &mut Dir) {
    dir.route(
        "routes.toml",
        r#"
        [[route]]
        id = "a"
        upstream = "http://a"
        [[route]]
        id = "b"
        upstream = "http://b"
    "#,
    );
}

#[test]
fn load_dir_without_gateways_d_has_empty_gateways() {
    let mut dir = Dir::new();
    write_routes_ab(&mut dir);

    let cfg = dir.load().unwrap();
    assert!(cfg.gateways.is_empty());
}

#[test]
fn load_dir_reads_two_gateways_d_files() {
    let mut dir = Dir::new();
    write_routes_ab(&mut dir);
    dir.listener(
        "public.toml",
        r#"
        listen = "127.0.0.1:9001"
        routes = ["a"]
    "#,
    );
    dir.listener(
        "internal.toml",
        r#"
        listen = "127.0.0.1:9002"
        routes = ["b"]
    "#,
    );

    let cfg = dir.load().unwrap();
    assert_eq!(cfg.gateways.len(), 2);
    let by_name = |name: &str| cfg.gateways.iter().find(|g| g.name == name).unwrap();
    let internal = by_name("internal");
    assert_eq!(internal.listen, "127.0.0.1:9002");
    assert_eq!(internal.routes, vec!["b".to_string()]);
    let public = by_name("public");
    assert_eq!(public.listen, "127.0.0.1:9001");
    assert_eq!(public.routes, vec!["a".to_string()]);
}

#[test]
fn load_dir_gateway_rejects_unknown_route_id_naming_file_and_id() {
    let mut dir = Dir::new();
    write_routes_ab(&mut dir);
    dir.listener(
        "public.toml",
        r#"
        listen = "127.0.0.1:9001"
        routes = ["a", "no-such-route"]
    "#,
    );

    let err = dir.load().unwrap_err();
    let msg = err.message();
    assert!(msg.contains("public.toml"), "{msg}");
    assert!(msg.contains("no-such-route"), "{msg}");
}

#[test]
fn load_dir_rejects_two_gateways_with_same_listen() {
    let mut dir = Dir::new();
    write_routes_ab(&mut dir);
    dir.listener(
        "public.toml",
        r#"
        listen = "127.0.0.1:9001"
        routes = ["a"]
    "#,
    );
    dir.listener(
        "internal.toml",
        r#"
        listen = "127.0.0.1:9001"
        routes = ["b"]
    "#,
    );

    let err = dir.load().unwrap_err();
    let msg = err.message();
    assert!(msg.contains("public"), "{msg}");
    assert!(msg.contains("internal"), "{msg}");
    assert!(msg.contains("127.0.0.1:9001"), "{msg}");
}

#[test]
fn load_dir_rejects_admin_listen_colliding_with_gateway_listen() {
    let mut dir = Dir::new();
    dir.settings(
        r#"
        [gateway]
        admin_listen = "127.0.0.1:9001"
    "#,
    );
    write_routes_ab(&mut dir);
    dir.listener(
        "public.toml",
        r#"
        listen = "127.0.0.1:9001"
        routes = ["a"]
    "#,
    );

    let err = dir.load().unwrap_err();
    let msg = err.message();
    assert!(msg.contains("public.toml"), "{msg}");
    assert!(msg.contains("admin_listen"), "{msg}");
    assert!(msg.contains("127.0.0.1:9001"), "{msg}");
}

#[test]
fn load_dir_gateway_with_no_routes_is_rejected() {
    let mut dir = Dir::new();
    write_routes_ab(&mut dir);
    dir.listener(
        "empty.toml",
        r#"
        listen = "127.0.0.1:9001"
    "#,
    );

    let err = dir.load().unwrap_err();
    let msg = err.message();
    assert!(
        msg.contains("empty.toml") || msg.contains("'empty'"),
        "{msg}"
    );
    assert!(msg.contains("declares no routes"), "{msg}");
}

#[test]
fn route_without_translate_defaults_to_none() {
    let cfg = load_str(
        r#"
        [[route]]
        id = "r"
        upstream = "http://u"
    "#,
        &env(),
    )
    .unwrap();
    assert!(cfg.routes[0].translate.is_none());
}

#[test]
fn accepts_valid_translate_route_round_trips_fields() {
    let cfg = load_str(
        r#"
        [[route]]
        id = "r"
        upstream = "http://u"
          [route.translate]
          from = "openai"
          to = "anthropic"
          model = "opus-4-1-20250805"
          report_header = true
    "#,
        &env(),
    )
    .unwrap();
    let t = cfg.routes[0].translate.as_ref().expect("translate present");
    assert_eq!(t.from, "openai");
    assert_eq!(t.to, "anthropic");
    assert_eq!(t.model.as_deref(), Some("opus-4-1-20250805"));
    assert!(t.report_header);
}

#[test]
fn accepts_translate_without_model_defaults_report_header_false() {
    let cfg = load_str(
        r#"
        [[route]]
        id = "r"
        upstream = "http://u"
          [route.translate]
          from = "openai"
          to = "anthropic"
    "#,
        &env(),
    )
    .unwrap();
    let t = cfg.routes[0].translate.as_ref().expect("translate present");
    assert_eq!(t.model, None);
    assert!(!t.report_header);
}

#[test]
fn rejects_translate_unknown_from_provider() {
    let err = load_str(
        r#"
        [[route]]
        id = "xlate-route"
        upstream = "http://u"
          [route.translate]
          from = "no-such-provider"
          to = "anthropic"
    "#,
        &env(),
    )
    .unwrap_err();
    let msg = err.message();
    assert!(msg.contains("xlate-route"), "{msg}");
    assert!(msg.contains("no-such-provider"), "{msg}");
}

#[test]
fn rejects_translate_unknown_to_provider() {
    let err = load_str(
        r#"
        [[route]]
        id = "r"
        upstream = "http://u"
          [route.translate]
          from = "openai"
          to = "no-such-provider"
    "#,
        &env(),
    )
    .unwrap_err();
    let msg = err.message();
    assert!(msg.contains("no-such-provider"), "{msg}");
}

#[test]
fn rejects_translate_from_equal_to() {
    let err = load_str(
        r#"
        [[route]]
        id = "xlate-route"
        upstream = "http://u"
          [route.translate]
          from = "anthropic"
          to = "anthropic"
    "#,
        &env(),
    )
    .unwrap_err();
    let msg = err.message();
    assert!(msg.contains("xlate-route"), "{msg}");
    assert!(
        msg.contains("from") && msg.contains("to"),
        "expected message to mention from/to: {msg}"
    );
}

#[test]
fn rejects_translate_model_not_in_registry_under_to() {
    let err = load_str(
        r#"
        [[route]]
        id = "xlate-route"
        upstream = "http://u"
          [route.translate]
          from = "openai"
          to = "anthropic"
          model = "no-such-model-xyz"
    "#,
        &env(),
    )
    .unwrap_err();
    let msg = err.message();
    assert!(msg.contains("xlate-route"), "{msg}");
    assert!(msg.contains("no-such-model-xyz"), "{msg}");
    assert!(msg.contains("anthropic"), "{msg}");
}

#[test]
fn accepts_translate_model_present_in_registry_under_to() {
    let cfg = load_str(
        r#"
        [[route]]
        id = "r"
        upstream = "http://u"
          [route.translate]
          from = "openai"
          to = "anthropic"
          model = "opus-4-1-20250805"
    "#,
        &env(),
    )
    .unwrap();
    let t = cfg.routes[0].translate.as_ref().expect("translate present");
    assert_eq!(t.model.as_deref(), Some("opus-4-1-20250805"));
}

#[test]
fn rejects_translate_combined_with_loopback_step() {
    let err = load_str(
        r#"
        [gateway]
        loopback_secret = "s3cr3t"
        [[route]]
        id = "xlate-route"
        upstream = "http://u"
          [route.translate]
          from = "openai"
          to = "anthropic"
          [[route.step]]
          type = "url"
          mode = "loopback"
          hook = "on_request"
          url = "http://step"
    "#,
        &env(),
    )
    .unwrap_err();
    let msg = err.message();
    assert!(msg.contains("xlate-route"), "{msg}");
    assert!(msg.contains("loopback"), "{msg}");
}

#[test]
fn rejects_translate_route_with_on_stream_step() {
    let err = load_str(
        r#"
        [[route]]
        id = "xlate-route"
        upstream = "http://u"
          [route.translate]
          from = "openai"
          to = "anthropic"
          [[route.step]]
          name = "guardrail"
          type = "url"
          url = "http://step"
          hook = "on_stream"
          is_guardrail = true
          chunk_mode = "mutate"
    "#,
        &env(),
    )
    .unwrap_err();
    let msg = err.message();
    assert!(msg.contains("xlate-route"), "{msg}");
    assert!(msg.contains("on_stream"), "{msg}");
    assert!(msg.contains("translate"), "{msg}");
}

#[test]
fn accepts_translate_route_with_no_on_stream_steps() {
    let cfg = load_str(
        r#"
        [[route]]
        id = "xlate-route"
        upstream = "http://u"
          [route.translate]
          from = "openai"
          to = "anthropic"
          [[route.step]]
          name = "checker"
          type = "url"
          url = "http://step"
          hook = "on_request"
    "#,
        &env(),
    )
    .unwrap();
    assert!(cfg.routes[0].translate.is_some());
}

#[test]
fn accepts_non_translate_route_with_on_stream_step() {
    let cfg = load_str(
        r#"
        [[route]]
        id = "r"
        upstream = "http://u"
          [[route.step]]
          name = "watcher"
          type = "url"
          url = "http://step"
          hook = "on_stream"
          chunk_mode = "observe"
    "#,
        &env(),
    )
    .unwrap();
    assert!(cfg.routes[0].translate.is_none());
}

#[test]
fn rejects_adapter_ingress_translate_from_mismatch() {
    let err = load_str(
        r#"
        [[route]]
        id = "xlate-route"
        upstream = "http://u"
          [route.adapter]
          ingress = "openai"
          [route.translate]
          from = "anthropic"
          to = "openai"
    "#,
        &env(),
    )
    .unwrap_err();
    let msg = err.message();
    assert!(msg.contains("xlate-route"), "{msg}");
    assert!(msg.contains("adapter.ingress"), "{msg}");
    assert!(msg.contains("translate.from"), "{msg}");
}

#[test]
fn accepts_adapter_ingress_translate_from_match() {
    let cfg = load_str(
        r#"
        [[route]]
        id = "xlate-route"
        upstream = "http://u"
          [route.adapter]
          ingress = "anthropic"
          [route.translate]
          from = "anthropic"
          to = "openai"
    "#,
        &env(),
    )
    .unwrap();
    assert_eq!(
        cfg.routes[0].adapter.as_ref().unwrap().ingress.as_deref(),
        Some("anthropic")
    );
}

#[test]
fn accepts_translate_route_without_adapter() {
    let cfg = load_str(
        r#"
        [[route]]
        id = "xlate-route"
        upstream = "http://u"
          [route.translate]
          from = "anthropic"
          to = "openai"
    "#,
        &env(),
    )
    .unwrap();
    assert!(cfg.routes[0].adapter.is_none());
}

#[test]
fn load_dir_gateway_file_deny_unknown_fields() {
    let mut dir = Dir::new();
    write_routes_ab(&mut dir);
    dir.listener(
        "public.toml",
        r#"
        listen = "127.0.0.1:9001"
        routes = ["a"]
        bogus = "nope"
    "#,
    );

    let err = dir.load().unwrap_err();
    assert!(err.message().contains("public.toml"), "{err:?}");
}
