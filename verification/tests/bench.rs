use sluice::bench::calendar::civil_from_days;
use sluice::bench::scenarios::Scenario;

#[test]
fn scenario_names_are_kebab_case() {
    assert_eq!(Scenario::Passthrough.name(), "passthrough");
    assert_eq!(Scenario::Translation.name(), "translation");
    assert_eq!(Scenario::ScriptStep.name(), "script-step");
    assert_eq!(Scenario::WasmStep.name(), "wasm-step");
    assert_eq!(Scenario::Streaming.name(), "streaming");
}

#[test]
fn all_returns_five_scenarios() {
    assert_eq!(Scenario::all().len(), 5);
}

#[test]
fn only_streaming_is_a_streaming_scenario() {
    for scenario in Scenario::all() {
        assert_eq!(
            scenario.is_streaming(),
            scenario == Scenario::Streaming,
            "{scenario:?}"
        );
    }
}

#[test]
fn baseline_path_matches_the_upstream_shape_the_scenario_exercises() {
    for scenario in Scenario::all() {
        let expected = if scenario == Scenario::Streaming {
            "/v1/stream"
        } else {
            "/v1/messages"
        };
        assert_eq!(scenario.baseline_path(), expected, "{scenario:?}");
    }
}

#[test]
fn script_step_is_unavailable_on_non_unix() {
    for unix in [true, false] {
        assert_eq!(Scenario::ScriptStep.available(unix), unix);
        for scenario in Scenario::all() {
            if scenario != Scenario::ScriptStep {
                assert!(scenario.available(unix), "{scenario:?}");
            }
        }
    }
}

#[test]
fn civil_from_days_matches_known_epoch_dates() {
    assert_eq!(civil_from_days(0), (1970, 1, 1));
    assert_eq!(civil_from_days(19_914), (2024, 7, 10));
    assert_eq!(civil_from_days(20_644), (2026, 7, 10));
}
