use sluice::config::read::read_config;
use sluice::config::{
    ChunkMode, Gateway, Hook, OnError, Oversize, ScriptMode, Step, StepType, UrlMode,
};

#[test]
fn gateway_default_listen_and_version() {
    let g = Gateway::default();
    assert_eq!(g.listen, "127.0.0.1:8080");
    assert_eq!(g.schema_version, 1);
}

#[test]
fn gateway_expose_headers_defaults_empty() {
    let g = Gateway::default();
    assert!(g.expose_headers.is_empty());
}

#[test]
fn gateway_expose_headers_parses_provided_list() {
    let cfg = read_config(
        r#"
        [gateway]
        expose_headers = ["x-sluice-timing", "x-sluice-cost"]
        [[route]]
        id = "r"
        upstream = "http://u"
    "#,
    )
    .unwrap();
    assert_eq!(
        cfg.gateway.expose_headers,
        vec!["x-sluice-timing".to_string(), "x-sluice-cost".to_string()]
    );
}

#[test]
fn gateway_max_context_bytes_defaults_to_65536() {
    let g = Gateway::default();
    assert_eq!(g.max_context_bytes, 65536);
}

#[test]
fn gateway_max_context_bytes_parses_provided_value() {
    let cfg = read_config(
        r#"
        [gateway]
        max_context_bytes = 1024
        [[route]]
        id = "r"
        upstream = "http://u"
    "#,
    )
    .unwrap();
    assert_eq!(cfg.gateway.max_context_bytes, 1024);
}

#[test]
fn gateway_load_survival_defaults() {
    let g = Gateway::default();
    assert_eq!(g.max_body_bytes, 8_388_608);
    assert_eq!(g.oversize, Oversize::Reject);
    assert_eq!(g.max_inflight, 1024);
    assert_eq!(g.upstream_timeout_ms, 60_000);
}

#[test]
fn gateway_max_response_bytes_falls_back_to_max_body_bytes() {
    let g = Gateway::default();
    assert_eq!(g.max_response_bytes, None);
    assert_eq!(g.max_response_bytes(), g.max_body_bytes);
}

#[test]
fn gateway_max_response_bytes_uses_configured_value_when_set() {
    let cfg = read_config(
        r#"
        [gateway]
        max_body_bytes = 1000
        max_response_bytes = 42
        [[route]]
        id = "r"
        upstream = "http://u"
    "#,
    )
    .unwrap();
    assert_eq!(cfg.gateway.max_response_bytes, Some(42));
    assert_eq!(cfg.gateway.max_response_bytes(), 42);
}

#[test]
fn gateway_allow_scripts_defaults_false() {
    let g = Gateway::default();
    assert!(!g.allow_scripts);
}

#[test]
fn gateway_allow_scripts_parses_provided_value() {
    let cfg = read_config(
        r#"
        [gateway]
        allow_scripts = true
        [[route]]
        id = "r"
        upstream = "http://u"
    "#,
    )
    .unwrap();
    assert!(cfg.gateway.allow_scripts);
}

#[test]
fn step_chunk_mode_is_guardrail_script_mode_default() {
    let cfg = read_config(
        r#"
        [[route]]
        id = "r"
        upstream = "http://u"
          [[route.step]]
          type = "url"
          url = "http://step"
    "#,
    )
    .unwrap();
    let step = &cfg.routes[0].steps[0];
    assert_eq!(step.chunk_mode, ChunkMode::Observe);
    assert!(!step.is_guardrail);
    assert_eq!(step.script_mode, ScriptMode::Oneshot);
    assert!(step.cmd.is_empty());
    assert_eq!(step.wasm, None);
}

#[test]
fn step_wasm_field_parses_provided_path() {
    let cfg = read_config(
        r#"
        [[route]]
        id = "r"
        upstream = "http://u"
          [[route.step]]
          type = "wasm"
          wasm = "modules/redact.wasm"
    "#,
    )
    .unwrap();
    let step = &cfg.routes[0].steps[0];
    assert_eq!(step.type_, StepType::Wasm);
    assert_eq!(step.wasm.as_deref(), Some("modules/redact.wasm"));
}

#[test]
fn step_chunk_mode_is_guardrail_script_mode_parse_explicit() {
    let cfg = read_config(
        r#"
        [gateway]
        allow_scripts = true
        [[route]]
        id = "r"
        upstream = "http://u"
          [[route.step]]
          hook = "on_stream"
          type = "script"
          chunk_mode = "mutate"
          is_guardrail = true
          script_mode = "worker"
          cmd = ["/bin/guard"]
    "#,
    )
    .unwrap();
    let step = &cfg.routes[0].steps[0];
    assert_eq!(step.chunk_mode, ChunkMode::Mutate);
    assert!(step.is_guardrail);
    assert_eq!(step.script_mode, ScriptMode::Worker);
    assert_eq!(step.cmd, vec!["/bin/guard".to_string()]);
}

#[test]
fn gateway_admin_fields_default_empty() {
    let g = Gateway::default();
    assert_eq!(g.admin_listen, "");
    assert_eq!(g.admin_token, "");
}

#[test]
fn gateway_loopback_fields_have_expected_defaults() {
    let g = Gateway::default();
    assert_eq!(g.loopback_secret, "");
    assert_eq!(g.max_hops, 8);
    assert_eq!(g.callback_path, "/__sluice/loopback");
    assert_eq!(g.max_parked, 1024);
}

#[test]
fn gateway_max_event_bytes_defaults_none_and_helper_returns_sse_default() {
    let g = Gateway::default();
    assert_eq!(g.max_event_bytes, None);
    assert_eq!(g.max_event_bytes(), sluice::sse::DEFAULT_MAX_EVENT_BYTES);
}

#[test]
fn gateway_max_event_bytes_parses_provided_value() {
    let cfg = read_config(
        r#"
        [gateway]
        max_event_bytes = 4096
        [[route]]
        id = "r"
        upstream = "http://u"
    "#,
    )
    .unwrap();
    assert_eq!(cfg.gateway.max_event_bytes, Some(4096));
    assert_eq!(cfg.gateway.max_event_bytes(), 4096);
}

#[test]
fn gateway_max_parked_parses_provided_value() {
    let cfg = read_config(
        r#"
        [gateway]
        max_parked = 4
        [[route]]
        id = "r"
        upstream = "http://u"
    "#,
    )
    .unwrap();
    assert_eq!(cfg.gateway.max_parked, 4);
}

#[test]
fn gateway_loopback_fields_parse_provided_values() {
    let cfg = read_config(
        r#"
        [gateway]
        loopback_secret = "s3cr3t"
        max_hops = 3
        callback_path = "/custom/loopback"
        [[route]]
        id = "r"
        upstream = "http://u"
    "#,
    )
    .unwrap();
    assert_eq!(cfg.gateway.loopback_secret, "s3cr3t");
    assert_eq!(cfg.gateway.max_hops, 3);
    assert_eq!(cfg.gateway.callback_path, "/custom/loopback");
}

#[test]
fn effective_name_prefers_explicit() {
    let s = Step {
        name: Some("redact".into()),
        hook: Hook::OnRequest,
        type_: StepType::Url,
        url: Some("http://x".into()),
        mode: UrlMode::Transform,
        timeout_ms: 1000,
        on_error: OnError::FailClosed,
        chunk_mode: ChunkMode::Observe,
        is_guardrail: false,
        script_mode: ScriptMode::Oneshot,
        cmd: Vec::new(),
        wasm: None,
    };
    assert_eq!(s.effective_name(3), "redact");
}

#[test]
fn effective_name_falls_back_to_type_index() {
    let s = Step {
        name: None,
        hook: Hook::OnRequest,
        type_: StepType::Url,
        url: Some("http://x".into()),
        mode: UrlMode::Transform,
        timeout_ms: 1000,
        on_error: OnError::FailClosed,
        chunk_mode: ChunkMode::Observe,
        is_guardrail: false,
        script_mode: ScriptMode::Oneshot,
        cmd: Vec::new(),
        wasm: None,
    };
    assert_eq!(s.effective_name(2), "url:2");
}
