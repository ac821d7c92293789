use sluice::admin::{authorized, route_admin, Ready};

const METRICS: &str = "sluice_requests_total 1\n";

#[test]
fn healthz_always_authorized() {
    assert!(authorized("/healthz", "", None));
    assert!(authorized("/healthz", "secret", None));
    assert!(authorized("/healthz", "secret", Some("Bearer wrong")));
}

#[test]
fn readyz_and_metrics_authorized_when_no_token_configured() {
    assert!(authorized("/readyz", "", None));
    assert!(authorized("/metrics", "", None));
}

#[test]
fn readyz_and_metrics_unauthorized_when_token_set_and_no_header() {
    assert!(!authorized("/readyz", "secret", None));
    assert!(!authorized("/metrics", "secret", None));
}

#[test]
fn readyz_and_metrics_authorized_with_correct_bearer() {
    assert!(authorized("/readyz", "secret", Some("Bearer secret")));
    assert!(authorized("/metrics", "secret", Some("Bearer secret")));
}

#[test]
fn readyz_and_metrics_unauthorized_with_wrong_bearer() {
    assert!(!authorized("/readyz", "secret", Some("Bearer nope")));
    assert!(!authorized(
        "/metrics",
        "secret",
        Some("Bearer secretwrong")
    ));
    assert!(!authorized("/metrics", "secret", Some("secret")));
}

#[test]
fn rejects_same_length_wrong_bearer() {
    assert!(!authorized("/readyz", "secret", Some("Bearer wrongo")));
}

#[test]
fn rejects_bearer_differing_only_in_last_byte() {
    assert!(!authorized("/readyz", "secret", Some("Bearer secreT")));
}

#[test]
fn functional_correctness_of_constant_time_compare_accept_and_reject() {
    assert!(authorized(
        "/metrics",
        "a-long-shared-secret",
        Some("Bearer a-long-shared-secret")
    ));
    assert!(!authorized(
        "/metrics",
        "a-long-shared-secret",
        Some("Bearer a-long-shared-secreX")
    ));
    assert!(!authorized(
        "/metrics",
        "a-long-shared-secret",
        Some("Bearer short")
    ));
    assert!(!authorized("/metrics", "a-long-shared-secret", None));
}

#[test]
fn route_admin_healthz_returns_200_ok() {
    let ready = Ready::new();
    let resp = route_admin("/healthz", ready.is_ready(), METRICS);
    assert_eq!(resp.status, 200);
}

#[test]
fn route_admin_readyz_returns_503_before_ready() {
    let ready = Ready::new();
    let resp = route_admin("/readyz", ready.is_ready(), METRICS);
    assert_eq!(resp.status, 503);
}

#[test]
fn route_admin_readyz_returns_200_once_ready() {
    let ready = Ready::new();
    ready.set_ready();
    let resp = route_admin("/readyz", ready.is_ready(), METRICS);
    assert_eq!(resp.status, 200);
}

#[test]
fn route_admin_metrics_returns_200_with_prometheus_content_type() {
    let ready = Ready::new();
    let resp = route_admin("/metrics", ready.is_ready(), METRICS);
    assert_eq!(resp.status, 200);
    assert_eq!(
        resp.content_type,
        "text/plain; version=0.0.4"
    );
}

#[test]
fn route_admin_unknown_path_returns_404() {
    let ready = Ready::new();
    let resp = route_admin("/nope", ready.is_ready(), METRICS);
    assert_eq!(resp.status, 404);
}

#[test]
fn ready_defaults_to_not_ready() {
    let ready = Ready::new();
    assert!(!ready.is_ready());
    ready.set_ready();
    assert!(ready.is_ready());
}

#[test]
fn ready_clone_shares_state() {
    let ready = Ready::new();
    let clone = ready.clone();
    clone.set_ready();
    assert!(ready.is_ready());
}
