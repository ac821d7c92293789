use sluice::config::read::read_config;
use sluice::directive::{Directive, Op, RespSpec};
use sluice::http_msg::HeaderMap;
use sluice::json::Double;
use sluice::loopback::token::{ChainToken, TokenError};
use sluice::probe::{probe_message, Probe, ProbeAction};
use sluice::registry::{ModelChange, ModelFacts, ModelKey, Registry, RegistryDiff};
use sluice::router::upstream_url_for;
use sluice::report::{
    models_of, models_source_label, render_diff, render_models_table, render_routes, token_report,
};

fn facts(provider: &str, id: &str, context: Option<u64>, cost: Option<f64>) -> ModelFacts {
    ModelFacts {
        id: id.to_string(),
        provider: provider.to_string(),
        context,
        max_output: None,
        cost_input: cost.map(|x| Double { bits: x.to_bits() }),
        cost_output: None,
        modalities: vec![],
        tool_call: true,
        status: None,
    }
}

#[test]
fn the_routes_are_shown_exactly() {
    let mut cfg = read_config(
        r#"
        [gateway]
        admin_listen = "127.0.0.1:9"
        [[route]]
        id = "a"
        upstream = "http://u"
          [[route.step]]
          type = "url"
          url = "http://s"
        [[route]]
        id = "b"
        upstream = "http://v"
    "#,
    )
    .unwrap();
    assert_eq!(
        render_routes(&cfg),
        "gateway:\n  listen: 127.0.0.1:8080\n  admin_listen: 127.0.0.1:9\n  max_body_bytes: 8388608\n  max_inflight: 1024\n  upstream_timeout_ms: 60000\n  max_context_bytes: 65536\n\nroutes (2):\n  - id: a\n    upstream: http://u\n    steps:\n      - name: url:0\n        hook: on_request\n        type: url\n        mode: transform\n        timeout_ms: 1000\n        on_error: fail_closed\n  - id: b\n    upstream: http://v\n"
    );
    cfg.gateways.push(sluice::config::GatewayDef {
        name: "g".to_string(),
        listen: "l".to_string(),
        routes: vec!["a".to_string(), "b".to_string()],
    });
    assert!(render_routes(&cfg).ends_with(
        "\n\ngateways (1):\n  - name: g\n    listen: l\n    routes:\n      - a\n      - b\n"
    ));
}

#[test]
fn the_models_table_is_exact_and_sorted() {
    let b = facts("p", "b", Some(200_000), Some(0.25));
    let a = facts("q", "a", None, Some(15.0));
    assert_eq!(
        render_models_table(&vec![&b, &a]),
        format!(
            "{:<32} {:<12} {:>10} {:>10} {:>10} {:>9}\n{:<32} {:<12} {:>10} {:>10} {:>10} {:>9}\n{:<32} {:<12} {:>10} {:>10} {:>10} {:>9}\n",
            "ID", "PROVIDER", "CONTEXT", "COST_IN", "COST_OUT", "TOOL_CALL",
            "a", "q", "-", "15", "-", "true",
            "b", "p", "200000", "0.25", "-", "true"
        )
    );
}

#[test]
fn names_that_overflow_their_column_are_whole() {
    let id = "x".repeat(40);
    let m = facts("p", &id, None, None);
    let table = render_models_table(&vec![&m]);
    assert!(table.contains(&format!("\n{id} p ")));
}

#[test]
fn models_are_picked_by_provider() {
    let registry = Registry::new(vec![facts("p", "1", None, None), facts("q", "2", None, None)]);
    assert_eq!(registry.len(), 2);
    assert_eq!(models_of(&registry, None).len(), 2);
    let picked = models_of(&registry, Some("q"));
    assert_eq!(picked.len(), 1);
    assert_eq!(picked[0].id, "2");
    assert!(models_of(&registry, Some("r")).is_empty());
    assert_eq!(registry.get("p", "1").unwrap().id, "1");
    assert!(registry.get("p", "2").is_none());
}

#[test]
fn a_diff_is_shown_exactly() {
    let none = RegistryDiff { added: vec![], removed: vec![], changed: vec![] };
    assert_eq!(render_diff(&none), "no differences\n");
    let key = |id: &str| ModelKey { provider: "p".to_string(), id: id.to_string() };
    let diff = RegistryDiff {
        added: vec![key("a")],
        removed: vec![key("r")],
        changed: vec![ModelChange {
            id: "c".to_string(),
            provider: "p".to_string(),
            context_changed: true,
            cost_input_changed: false,
            cost_output_changed: true,
        }],
    };
    assert_eq!(
        render_diff(&diff),
        "added:\n  + a (p)\nremoved:\n  - r (p)\nchanged:\n  ~ c (p) (context, cost_output)\n"
    );
}

#[test]
fn a_source_is_named_in_its_failure() {
    assert_eq!(models_source_label(Some("dir"), false), "failed to resolve dir");
    assert_eq!(models_source_label(None, true), "failed to fetch models.dev");
}

#[test]
fn a_token_is_reported_even_when_expired() {
    let token = ChainToken {
        cid: "c".to_string(),
        route_id: "r".to_string(),
        resume_index: 2,
        hop: 1,
        expires_at_unix: 10,
    };
    let claims = "cid: c\nroute_id: r\nresume_index: 2\nhop: 1\nexpires_at: 10\n";
    let good = token_report(&Ok(token.clone()), 9);
    assert_eq!((good.text, good.valid), (format!("{claims}valid: true\n"), true));
    let late = token_report(&Ok(token), 10);
    assert_eq!((late.text, late.valid), (format!("{claims}valid: false (expired)\n"), false));
    for (e, text) in [
        (TokenError::BadMac, "valid: false (bad mac)\n"),
        (TokenError::BadFormat, "valid: false (bad format)\n"),
        (TokenError::Expired, "valid: false (expired)\n"),
    ] {
        let report = token_report(&Err(e), 0);
        assert_eq!(report.text, text);
        assert!(!report.valid);
    }
}

#[test]
fn a_probe_message_is_exact() {
    let m = probe_message("r");
    assert_eq!(m.method, "POST");
    assert_eq!(m.path, "/r/probe");
    assert_eq!(m.body_bytes().unwrap(), b"{}");
    assert_eq!(m.headers.len(), 1);
    assert_eq!(m.headers.get("content-type").map(String::as_str), Some("application/json"));
}

#[test]
fn a_probe_walks_the_request_steps() {
    let cfg = read_config(
        r#"
        [gateway]
        loopback_secret = "s"
        [[route]]
        id = "r"
        upstream = "http://u"
          [[route.step]]
          name = "later"
          type = "url"
          url = "http://a"
          hook = "on_response"
          [[route.step]]
          name = "first"
          type = "url"
          url = "http://a"
          [[route.step]]
          name = "parked"
          type = "url"
          url = "http://a"
          mode = "loopback"
          [[route.step]]
          type = "url"
          url = "http://a"
    "#,
    )
    .unwrap();
    let route = &cfg.routes[0];
    let mut probe = Probe::start("r");

    match probe.advance(route, "id") {
        ProbeAction::Call { index, envelope } => {
            assert_eq!(index, 1);
            assert_eq!(envelope.self_.as_deref(), Some("first"));
            assert_eq!(envelope.correlation_id, "id");
        }
        other => panic!("{other:?}"),
    }
    let ops = vec![Op::SetPath { path: "/new".to_string() }];
    let note = probe.take(&route.steps[1], 1, Ok(Directive::Continue { ops }), 7, 100);
    assert_eq!(note.text, "first (url/on_request) -> continue [7ms]");
    assert!(note.go_on);

    match probe.advance(route, "id") {
        ProbeAction::Note(text) => {
            assert_eq!(text, "parked (url/on_request) -> skipped (loopback needs live infra)")
        }
        other => panic!("{other:?}"),
    }
    match probe.advance(route, "id") {
        ProbeAction::Call { index, envelope } => {
            assert_eq!(index, 3);
            assert_eq!(envelope.request.path, "/new");
        }
        other => panic!("{other:?}"),
    }
    let ops = vec![Op::DeleteHeader { name: "te".to_string() }];
    let note = probe.take(&route.steps[3], 3, Ok(Directive::Continue { ops }), 0, 100);
    assert_eq!(
        note.text,
        "url:3 (url/on_request) -> continue [0ms]\n  note: ops rejected (step attempted to modify protected header 'te'); chain stops here"
    );
    assert!(!note.go_on);
    assert!(matches!(probe.advance(route, "id"), ProbeAction::Forward));
    assert!(matches!(probe.advance(route, "id"), ProbeAction::Forward));
}

#[test]
fn a_probe_stops_at_every_other_answer() {
    let cfg = read_config(
        r#"
        [[route]]
        id = "r"
        upstream = "http://u"
          [[route.step]]
          name = "s"
          type = "script"
          cmd = ["x"]
    "#,
    )
    .unwrap();
    let step = &cfg.routes[0].steps[0];
    let response = || RespSpec { status: 418, headers: HeaderMap::new(), body_b64: String::new() };
    for (answer, text) in [
        (Ok(Directive::ShortCircuit { response: response() }), "short_circuit (status 418)"),
        (Ok(Directive::Abort { response: response() }), "abort (status 418)"),
        (Ok(Directive::Drop { ops: vec![] }), "error (emit/drop is on_stream-only)"),
        (Err("broken".to_string()), "error: broken"),
    ] {
        let mut probe = Probe::start("r");
        let note = probe.take(step, 0, answer, 3, 100);
        assert_eq!(note.text, format!("s (script/on_request) -> {text} [3ms]"));
        assert!(!note.go_on);
    }
}

#[test]
fn a_path_is_forwarded_without_its_route() {
    assert_eq!(upstream_url_for("https://u", "/r/v1/messages"), "https://u/v1/messages");
    assert_eq!(upstream_url_for("https://u/base", "/r/"), "https://u/base/");
    assert_eq!(upstream_url_for("https://u", "/r"), "https://u");
    assert_eq!(upstream_url_for("https://u", ""), "https://u");
    assert_eq!(upstream_url_for("https://u", "r/x"), "https://u/x");
}

#[test]
fn a_probe_skips_loopback_steps_of_any_type() {
    let cfg = read_config(
        r#"
        [[route]]
        id = "r"
        upstream = "http://u"
          [[route.step]]
          name = "s"
          type = "script"
          cmd = ["x"]
          mode = "loopback"
    "#,
    )
    .unwrap();
    let mut probe = Probe::start("r");
    match probe.advance(&cfg.routes[0], "id") {
        ProbeAction::Note(text) => {
            assert_eq!(text, "s (script/on_request) -> skipped (loopback needs live infra)")
        }
        other => panic!("{other:?}"),
    }
    assert!(matches!(probe.advance(&cfg.routes[0], "id"), ProbeAction::Forward));
}
