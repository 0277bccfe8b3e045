use avm::event::{EventRecord, PayloadFacts, Provenance};
use avm::performance_report::{performance_summary, PerformanceError};

fn event(id: &str, at: u64, source: &str, kind: &str, facts: PayloadFacts) -> EventRecord {
    EventRecord {
        id: id.into(),
        host_monotonic_ns: at,
        wall_clock_time: "2026-01-01T00:00:00Z".into(),
        source: source.into(),
        kind: kind.into(),
        repository_fingerprint: None,
        artifact_refs: Vec::new(),
        provenance: Provenance::Observed,
        facts,
    }
}

fn with_latency(ns: u64) -> PayloadFacts {
    let mut facts = PayloadFacts::empty();
    facts.processing_latency_ns = Some(ns);
    facts
}

#[test]
fn performance_summary_counts_latencies_and_tokens_of_the_interval() {
    let mut vlm = PayloadFacts::empty();
    vlm.input_tokens = 120;
    vlm.output_tokens = 30;
    let mut audio = PayloadFacts::empty();
    audio.input_tokens = 5;
    audio.output_tokens = 7;
    let mut action = PayloadFacts::empty();
    action.action_duration_ns = Some(900);
    let mut callback = PayloadFacts::empty();
    callback.max_callback_processing_ns = Some(40);
    let events = vec![
        event("e0", 5, "display", "display.update", with_latency(1)),
        event("e1", 10, "display", "display.update", with_latency(300)),
        event("e2", 11, "display", "display.scanout", with_latency(100)),
        event("e3", 12, "display", "display.update", PayloadFacts::empty()),
        event("e4", 13, "input", "input.action.completed", action),
        event("e5", 14, "audio", "audio.raw.interval", callback),
        event("e6", 15, "perception", "perception.vlm.observation", vlm),
        event("e7", 16, "perception", "perception.audio.interpretation", audio),
        event("e8", 99, "display", "display.update", with_latency(7)),
    ];
    let summary = performance_summary(&events, 10, 20).unwrap();
    assert_eq!(summary.start_ns, 10);
    assert_eq!(summary.end_ns, 20);
    assert_eq!(summary.event_count, 7);
    assert_eq!(
        summary.events_by_source,
        vec![("audio".to_string(), 1), ("display".to_string(), 3), ("input".to_string(), 1), ("perception".to_string(), 2)]
    );
    assert_eq!(summary.events_by_kind.len(), 6);
    assert_eq!(summary.events_by_kind[2], ("display.update".to_string(), 2));
    let display = summary.display_processing_latency.unwrap();
    assert_eq!(display.count, 2);
    assert_eq!(display.minimum_ns, 100);
    assert_eq!(display.maximum_ns, 300);
    assert_eq!(display.mean_ns, 200);
    assert_eq!(summary.input_action_duration.unwrap().p50_ns, 900);
    assert_eq!(summary.audio_callback_processing.unwrap().maximum_ns, 40);
    assert_eq!(summary.vlm_call_count, 1);
    assert_eq!(summary.audio_interpretation_call_count, 1);
    assert_eq!(summary.model_input_tokens, 125);
    assert_eq!(summary.model_output_tokens, 37);
}

#[test]
fn performance_summary_of_an_empty_interval_has_no_latencies() {
    let summary = performance_summary(&Vec::new(), 0, 0).unwrap();
    assert_eq!(summary.event_count, 0);
    assert!(summary.events_by_source.is_empty());
    assert!(summary.display_processing_latency.is_none());
}

#[test]
fn performance_summary_refuses_an_inverted_interval() {
    assert!(matches!(performance_summary(&Vec::new(), 5, 4), Err(PerformanceError::InvalidInterval)));
}
