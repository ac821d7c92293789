use sluice::bench::calendar::{civil_from_days, date_of};
use sluice::bench::load::{succeeded, Outcome, Tally};
use sluice::bench::scenarios::{route_toml, Scenario, NOOP_SCRIPT};
use sluice::bench::stats::{percentile_ns, summarize};
use sluice::bench::upstream::{json_body, stream_chunk, streams, Sim};
use sluice::bench::{cells, Args, Plan};
use sluice::config::load::{load_str, ModuleCheck, Surroundings};
use sluice::registry::{ModelFacts, Registry};

const MILLISECOND: u64 = 1_000_000;

fn ms(ns: u64) -> f64 {
    ns as f64 / MILLISECOND as f64
}

#[test]
fn percentiles_of_a_known_distribution() {
    let mut v: Vec<u64> = (1..=100).map(|n| n * MILLISECOND).collect();
    let s = summarize(&mut v);
    assert_eq!(s.count, 100);
    let rps = s.count as f64 / 1.0;
    assert!((rps - 100.0).abs() < f64::EPSILON);
    assert!((ms(s.p50) - 50.0).abs() <= 1.0, "p50 was {}", s.p50);
    assert!((ms(s.p99) - 99.0).abs() <= 1.0, "p99 was {}", s.p99);
}

#[test]
fn single_sample_is_every_percentile() {
    let mut v = vec![7 * MILLISECOND];
    let s = summarize(&mut v);
    assert_eq!(ms(s.p50), 7.0);
    assert_eq!(ms(s.p95), 7.0);
    assert_eq!(ms(s.p99), 7.0);
}

#[test]
fn empty_samples_summarize_to_zeroes() {
    let mut v = Vec::new();
    let s = summarize(&mut v);
    assert_eq!(s.count, 0);
    assert_eq!(ms(s.p50), 0.0);
    assert_eq!(s.count as f64 / 1.0, 0.0);
}

#[test]
fn ranks_agree_with_rounding_in_floating_point() {
    for n in 1..2000usize {
        let times: Vec<u64> = (0..n as u64).collect();
        for (percent, q) in [(50u8, 0.50f64), (95, 0.95), (99, 0.99)] {
            let idx = ((n - 1) as f64 * q).round() as u64;
            assert_eq!(percentile_ns(&times, percent), idx, "{n} {percent}");
        }
    }
}

#[test]
fn times_are_sorted_in_place() {
    let mut v = vec![3, 1, 2, 3, 0];
    let s = summarize(&mut v);
    assert_eq!(v, vec![0, 1, 2, 3, 3]);
    assert_eq!((s.p50, s.p95, s.p99), (2, 3, 3));
}

#[test]
fn every_request_counts_once_while_recording() {
    let good = Outcome::Answered { status: 204, latency: 5, first_chunk: Some(2) };
    let bad = Outcome::Answered { status: 500, latency: 1, first_chunk: None };
    let mut tally = Tally::new();
    for outcome in [good, bad, Outcome::Failed] {
        tally.take(false, outcome);
    }
    assert_eq!(tally, Tally::new());
    for outcome in [good, bad, Outcome::Failed, good] {
        tally.take(true, outcome);
    }
    assert_eq!(tally.latencies, vec![5, 5]);
    assert_eq!(tally.first_chunks, vec![2, 2]);
    assert_eq!(tally.errors, 2);
    assert_eq!(tally.latencies.len() + tally.errors, 4);
}

#[test]
fn dates_are_exact() {
    assert_eq!(civil_from_days(-1), (1969, 12, 31));
    assert_eq!(civil_from_days(59), (1970, 3, 1));
    assert_eq!(civil_from_days(11_016), (2000, 2, 29));
    assert_eq!(civil_from_days(-719_468), (0, 3, 1));
    assert_eq!(date_of(0), "1970-01-01");
    assert_eq!(date_of(86_399), "1970-01-01");
    assert_eq!(date_of(86_400), "1970-01-02");
    assert_eq!(date_of(20_644 * 86_400), "2026-07-10");
}

#[test]
fn consecutive_days_are_consecutive_dates() {
    let mut last = civil_from_days(-1000);
    for day in -999..1000 {
        let next = civil_from_days(day);
        let (y, m, d) = last;
        let follows = next == (y, m, d + 1) || next == (y, m + 1, 1) || next == (y + 1, 1, 1);
        assert!(follows, "{last:?} {next:?}");
        last = next;
    }
}

#[test]
fn the_plan_follows_the_flag() {
    let quick = Plan::for_args(&Args::from_words(&["x".to_string(), "--quick".to_string()]));
    assert_eq!((quick.warmup_ms, quick.window_ms, quick.concurrency), (200, 1000, vec![1, 8]));
    let whole = Plan::for_args(&Args::from_words(&["quick".to_string()]));
    assert_eq!((whole.warmup_ms, whole.window_ms, whole.concurrency), (2000, 5000, vec![1, 8, 64]));
}

#[test]
fn the_cells_are_in_order() {
    let plan = Plan::for_args(&Args { quick: true });
    let all = cells(&plan, true);
    assert_eq!(all.len(), 10);
    assert_eq!(all[0].scenario, Scenario::Passthrough);
    assert_eq!(all[0].concurrency, 1);
    assert_eq!(all[1].concurrency, 8);
    assert!(all[9].scenario == Scenario::Streaming && !all[9].shared_baseline);
    assert!(all[0].shared_baseline);
    let some = cells(&plan, false);
    assert_eq!(some.len(), 8);
    assert!(some.iter().all(|c| c.scenario != Scenario::ScriptStep));
}

#[test]
fn every_scenario_has_a_valid_configuration() {
    let env = Surroundings {
        models: Registry::new(vec![ModelFacts {
            id: "m".to_string(),
            provider: "anthropic".to_string(),
            context: None,
            max_output: None,
            cost_input: None,
            cost_output: None,
            modalities: vec![],
            tool_call: false,
            status: None,
        }]),
        files: vec![],
        modules: vec![ModuleCheck { path: "/w.wasm".to_string(), error: None }],
    };
    for scenario in Scenario::all() {
        let text = route_toml(&scenario, "127.0.0.1:1", "127.0.0.1:2", "/w.wasm", "/s.sh", "m");
        let cfg = load_str(&text, &env).unwrap();
        assert_eq!(cfg.gateway.listen, "127.0.0.1:2");
        assert_eq!(cfg.routes[0].id, "bench");
        assert_eq!(cfg.routes[0].upstream, "http://127.0.0.1:1");
        assert_eq!(cfg.routes[0].translate.is_some(), scenario == Scenario::Translation);
        assert_eq!(
            cfg.routes[0].steps.len(),
            usize::from(scenario == Scenario::ScriptStep || scenario == Scenario::WasmStep)
        );
    }
    assert!(NOOP_SCRIPT.starts_with("#!/bin/sh\n"));
}

#[test]
fn the_upstream_answers_exactly() {
    let sim = Sim::default_bench();
    assert_eq!((sim.wait_before(0), sim.wait_before(1), sim.wait_before(20)), (2, 1, 1));
    assert!(streams("/v1/stream") && !streams("/v1/messages"));
    assert_eq!(stream_chunk(0, 20), "data: {\"i\":0}\n\n");
    assert_eq!(stream_chunk(19, 20), "data: {\"i\":19}\n\n");
    assert_eq!(stream_chunk(20, 20), "data: [DONE]\n\n");
    let body: serde_json::Value = serde_json::from_str(&json_body("m")).unwrap();
    assert_eq!(body["type"], "message");
    assert_eq!(body["model"], "m");
    assert_eq!(body["usage"]["output_tokens"], 5);
}

#[test]
fn every_day_has_a_date() {
    for (days, date) in [
        (i64::MAX, (25_252_734_927_768_524, 7, 27)),
        (i64::MIN, (-25_252_734_927_764_585, 6, 7)),
    ] {
        assert_eq!(civil_from_days(days), date);
    }
    assert_eq!(civil_from_days(-1), (1969, 12, 31));
}

#[test]
fn tallies_of_workers_come_together() {
    assert!(succeeded(200) && succeeded(299));
    assert!(!succeeded(199) && !succeeded(300));
    let good = Outcome::Answered { status: 204, latency: 7, first_chunk: Some(3) };
    let bad = Outcome::Answered { status: 500, latency: 1, first_chunk: None };
    assert!(good.good() && !bad.good() && !Outcome::Failed.good());
    let mut a = Tally::new();
    a.take(true, good);
    a.take(true, Outcome::Failed);
    let mut b = Tally::new();
    b.take(true, bad);
    b.take(true, Outcome::Answered { status: 200, latency: 9, first_chunk: None });
    let mut all = Tally::new();
    for outcome in [good, Outcome::Failed, bad, Outcome::Answered { status: 200, latency: 9, first_chunk: None }] {
        all.take(true, outcome);
    }
    a.merge(b);
    assert_eq!(a, all);
    assert_eq!((a.latencies, a.first_chunks, a.errors), (vec![7, 9], vec![3], 2));
}
