use avm::vlm::{CommandVlmAdapter, CommandVlmConfig, VlmConfigError};

#[test]
fn adapter_config_requires_stable_model_identity() {
    let config = CommandVlmConfig {
        program: "adapter".into(),
        args: Vec::new(),
        model: "".into(),
        model_version: "2026-08-14".into(),
    };
    assert!(config.validate().is_err());
}

#[test]
fn adapter_reports_its_configured_model() {
    let config = CommandVlmConfig {
        program: "adapter".into(),
        args: vec!["--json".into()],
        model: "fixture-vlm".into(),
        model_version: "v1".into(),
    };
    let adapter = CommandVlmAdapter::new(config).unwrap();
    assert_eq!(adapter.model(), "fixture-vlm");
    assert_eq!(adapter.model_version(), "v1");
    assert_eq!(adapter.config().args, vec!["--json".to_string()]);
}

#[test]
fn adapter_config_errors_come_in_order() {
    let blank = CommandVlmConfig {
        program: "".into(),
        args: Vec::new(),
        model: " ".into(),
        model_version: "".into(),
    };
    assert_eq!(blank.validate(), Err(VlmConfigError::EmptyProgram));
    let version = CommandVlmConfig { program: "a".into(), model: "m".into(), model_version: " \t".into(), args: Vec::new() };
    assert_eq!(version.validate(), Err(VlmConfigError::EmptyModelVersion));
    assert_eq!(VlmConfigError::EmptyModel.message(), "VLM model must not be empty");
}

use avm::event::Provenance;
use avm::vlm::{check_trigger_event, TriggerError};

fn candidates(kinds: &[&str]) -> Vec<avm::vlm::TriggerCandidate> {
    kinds
        .iter()
        .enumerate()
        .map(|(index, kind)| avm::vlm::TriggerCandidate {
            kind: (*kind).to_owned(),
            start_ns: index as u64 + 2,
            end_ns: index as u64 + 3,
            delayed: None,
        })
        .collect()
}

#[test]
fn trigger_filter_skips_directly_explained_cursor_and_no_response_events() {
    let analysis = candidates(&[
        "display.cursor_only_change",
        "input.pointer_move_without_display_response",
        "display.pixel_translation_detected",
    ]);
    let selected = avm::vlm::select_trigger(&analysis, None).unwrap();
    assert_eq!(analysis[selected].kind, "display.pixel_translation_detected");
    assert!(avm::vlm::select_trigger(&analysis, Some(0)).is_err());
}

#[test]
fn trigger_filter_allows_only_delayed_visual_responses() {
    let mut analysis = candidates(&["input.visual_response", "input.visual_response"]);
    analysis[0].delayed = Some(false);
    analysis[1].delayed = Some(true);
    let selected = avm::vlm::select_trigger(&analysis, None).unwrap();
    assert_eq!(analysis[selected].start_ns, 3);
    assert!(avm::vlm::select_trigger(&analysis, Some(0)).is_err());
}

#[test]
fn trigger_selection_errors_name_the_problem() {
    let analysis = candidates(&["display.cursor_only_change"]);
    assert_eq!(
        avm::vlm::select_trigger(&analysis, Some(3)).unwrap_err().message(),
        "temporal observation index 3 is out of range"
    );
    assert_eq!(
        avm::vlm::select_trigger(&analysis, Some(0)).unwrap_err().message(),
        "temporal observation display.cursor_only_change does not warrant a VLM call"
    );
    assert_eq!(
        avm::vlm::select_trigger(&analysis, None).unwrap_err(),
        avm::vlm::TriggerError::NoneWorthy
    );
}

#[test]
fn model_calls_start_from_derived_temporal_analysis_with_a_prompt() {
    assert_eq!(check_trigger_event("perception.temporal.analysis", Provenance::Derived, "describe"), Ok(()));
    assert_eq!(check_trigger_event("display.update", Provenance::Derived, "describe"), Err(TriggerError::NotTemporalAnalysis));
    assert_eq!(check_trigger_event("perception.temporal.analysis", Provenance::Observed, "describe"), Err(TriggerError::NotDerived));
    assert_eq!(check_trigger_event("perception.temporal.analysis", Provenance::Derived, "  \n"), Err(TriggerError::EmptyPrompt));
}

#[test]
fn frames_are_taken_before_during_and_after() {
    let times = avm::vlm::frame_times(10, 31);
    assert_eq!(times, [("before", 9), ("during", 20), ("after", 31)]);
    assert_eq!(avm::vlm::frame_times(0, 0)[0], ("before", 0));
}
