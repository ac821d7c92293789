use std::sync::Arc;

use sluice::config::{Config, Gateway};
use sluice::json::{parse, Json, JsonMap};
use sluice::loopback::{Continuation, Registry};

fn j(text: &str) -> Json {
    parse(text.as_bytes()).unwrap()
}

const UNBOUNDED: usize = usize::MAX;

const CREATED: u128 = 1_000_000_000;

const MILLISECOND: u128 = 1_000_000;

fn continuation(route_id: &str, ticket: u64) -> Continuation {
    let mut context = JsonMap::new();
    context.insert("writer".to_string(), j(r#"{"seen":true}"#));
    Continuation {
        ticket,
        created: CREATED,
        route_id: route_id.to_string(),
        resume_index: 2,
        hop: 1,
        context,
        path: "/opus/v1/messages".to_string(),
        correlation_id: "corr-1".to_string(),
        config: Arc::new(Config {
            gateway: Gateway::default(),
            routes: Vec::new(),
            gateways: Vec::new(),
        }),
    }
}

#[test]
fn new_registry_is_empty() {
    let registry = Registry::new();
    assert!(registry.is_empty());
    assert_eq!(registry.len(), 0);
}

#[test]
fn register_then_take_returns_the_same_continuation_and_removes_it() {
    let mut registry = Registry::new();
    let cont = continuation("opus", 1);
    assert!(registry.register("cid-1".to_string(), cont, UNBOUNDED));
    assert_eq!(registry.len(), 1);

    let taken = registry
        .take("cid-1")
        .expect("just-registered continuation");
    assert_eq!(taken.route_id, "opus");
    assert_eq!(taken.resume_index, 2);
    assert_eq!(taken.hop, 1);
    assert_eq!(
        taken.context.get("writer"),
        Some(&j(r#"{"seen":true}"#))
    );
    assert_eq!(taken.correlation_id, "corr-1");
    assert!(registry.is_empty());
}

#[test]
fn take_on_unknown_cid_returns_none() {
    let mut registry = Registry::new();
    assert!(registry.take("does-not-exist").is_none());
}

#[test]
fn take_is_one_shot_a_second_take_returns_none() {
    let mut registry = Registry::new();
    let cont = continuation("opus", 1);
    registry.register("cid-1".to_string(), cont, UNBOUNDED);

    assert!(registry.take("cid-1").is_some());
    assert!(
        registry.take("cid-1").is_none(),
        "a second take for the same cid must find nothing"
    );
}

#[test]
fn sweep_drops_expired_entries_and_fails_the_parked_receiver() {
    let mut registry = Registry::new();
    let cont = continuation("opus", 1);
    registry.register("cid-1".to_string(), cont, UNBOUNDED);

    registry.sweep(CREATED + 20 * MILLISECOND, 5 * MILLISECOND);

    assert!(
        registry.is_empty(),
        "an entry older than the ttl must be swept"
    );
    assert!(
        registry.take("cid-1").is_none(),
        "a swept continuation must be gone"
    );
}

#[test]
fn sweep_keeps_entries_younger_than_the_ttl() {
    let mut registry = Registry::new();
    let cont = continuation("opus", 1);
    registry.register("cid-1".to_string(), cont, UNBOUNDED);

    registry.sweep(CREATED + MILLISECOND, 60_000 * MILLISECOND);

    assert_eq!(
        registry.len(),
        1,
        "a fresh continuation must survive a sweep with a generous ttl"
    );
}

#[test]
fn register_replacing_an_existing_cid_drops_the_previous_continuation() {
    let mut registry = Registry::new();
    let cont_a = continuation("opus", 1);
    let cont_b = continuation("openai", 2);
    registry.register("cid-1".to_string(), cont_a, UNBOUNDED);
    registry.register("cid-1".to_string(), cont_b, UNBOUNDED);

    assert_eq!(registry.len(), 1);
    let taken = registry.take("cid-1").unwrap();
    assert_eq!(taken.route_id, "openai");
    assert_eq!(taken.ticket, 2);
    assert!(
        registry.is_empty(),
        "the replaced continuation must have been dropped"
    );
}

#[test]
fn register_refuses_beyond_max_parked_cap() {
    let mut registry = Registry::new();
    let cont_a = continuation("opus", 1);
    let cont_b = continuation("opus", 2);
    let cont_c = continuation("opus", 3);

    assert!(registry.register("cid-1".to_string(), cont_a, 2));
    assert!(registry.register("cid-2".to_string(), cont_b, 2));
    assert_eq!(registry.len(), 2);

    assert!(
        !registry.register("cid-3".to_string(), cont_c, 2),
        "a third registration must be refused once max_parked (2) is already held"
    );
    assert_eq!(
        registry.len(),
        2,
        "a refused registration must not have inserted anything"
    );
    assert!(
        registry.take("cid-3").is_none(),
        "the refused cid must not be findable at all"
    );
}

#[test]
fn register_replacing_existing_cid_is_not_blocked_by_cap_already_at_limit() {
    let mut registry = Registry::new();
    let cont_a = continuation("opus", 1);
    let cont_b = continuation("openai", 2);

    assert!(registry.register("cid-1".to_string(), cont_a, 1));
    assert_eq!(registry.len(), 1);

    assert!(
        registry.register("cid-1".to_string(), cont_b, 1),
        "replacing the same cid at an already-at-cap registry must still succeed"
    );
    assert_eq!(registry.len(), 1);
    assert_eq!(registry.take("cid-1").unwrap().route_id, "openai");
}
