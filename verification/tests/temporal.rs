use std::collections::HashMap;

use avm::event::{EventRecord, PayloadFacts, RectFacts, Provenance};
use avm::framebuffer::{Framebuffer, PIXMAN_X8R8G8B8};
use avm::regions::{connected_components, PixelBounds};
use avm::temporal::{pixel_difference, ObservationDetail, ObservationKind, TemporalError, TemporalSettings};
use avm::temporal_analysis::{sort_observations, translation_counts, TemporalAnalyzer};
use avm::temporal_run::analyze_temporal;
use avm::temporal_rules::{overlaps_by_half, union_bounds};

fn event(id: &str, at: u64, source: &str, kind: &str, facts: PayloadFacts) -> EventRecord {
    EventRecord {
        id: id.into(),
        host_monotonic_ns: at,
        wall_clock_time: "2026-01-01T00:00:00Z".into(),
        source: source.into(),
        kind: kind.into(),
        repository_fingerprint: None,
        artifact_refs: Vec::new(),
        provenance: Provenance::Observed,
        facts,
    }
}

fn scanout_event(id: &str, artifact: &str) -> EventRecord {
    let mut facts = PayloadFacts::empty();
    facts.width = Some(40);
    facts.height = Some(10);
    facts.stride = Some(160);
    facts.pixman_format = Some(PIXMAN_X8R8G8B8 as u64);
    let mut e = event(id, 0, "display", "display.scanout", facts);
    e.artifact_refs.push(artifact.into());
    e
}

fn update_event(id: &str, at: u64, artifact: &str) -> EventRecord {
    let mut facts = PayloadFacts::empty();
    facts.rect = Some(RectFacts { x: Some(2), y: Some(2), width: Some(32), height: Some(2) });
    facts.stride = Some(128);
    facts.pixman_format = Some(PIXMAN_X8R8G8B8 as u64);
    let mut e = event(id, at, "display", "display.update", facts);
    e.artifact_refs.push(artifact.into());
    e
}

fn fixture() -> (Vec<EventRecord>, HashMap<String, Vec<u8>>) {
    let mut initial = vec![0_u8; 40 * 10 * 4];
    for y in 2..4 {
        for x in 2..6 {
            let offset = (y * 40 + x) * 4;
            initial[offset..offset + 4].copy_from_slice(&[255, 255, 255, 0]);
        }
    }
    let mut moved_row = vec![0_u8; 32 * 2 * 4];
    for y in 0..2 {
        for x in 26..30 {
            let offset = (y * 32 + x) * 4;
            moved_row[offset..offset + 4].copy_from_slice(&[255, 255, 255, 0]);
        }
    }
    let cleared_row = vec![0_u8; 32 * 2 * 4];
    let mut artifacts = HashMap::new();
    artifacts.insert("sha256:initial".to_string(), initial);
    artifacts.insert("sha256:moved".to_string(), moved_row);
    artifacts.insert("sha256:cleared".to_string(), cleared_row);
    let mut network_facts = PayloadFacts::empty();
    network_facts.status = Some(200);
    network_facts.status_json = Some("200".into());
    let events = vec![
        scanout_event("s0", "sha256:initial"),
        event("i1", 1_000_000, "input", "pointer.down", PayloadFacts::empty()),
        event("n1", 249_000_000, "network", "browser.network.response", network_facts),
        update_event("u1", 251_000_000, "sha256:moved"),
        update_event("u2", 280_000_000, "sha256:cleared"),
        update_event("u3", 310_000_000, "sha256:moved"),
        event("i2", 350_000_000, "input", "pointer.up", PayloadFacts::empty()),
        event("i3", 500_000_000, "input", "pointer.move", PayloadFacts::empty()),
    ];
    (events, artifacts)
}

fn replay(events: &[EventRecord], artifacts: &HashMap<String, Vec<u8>>) -> TemporalAnalyzer {
    let mut analyzer = TemporalAnalyzer::new(0, 1_600_000_000, TemporalSettings::default()).unwrap();
    let ordered = analyzer.ordered_events(events);
    for &i in &ordered {
        if let Some(name) = analyzer.artifact_for(&events[i]).unwrap() {
            analyzer.apply(&events[i], &artifacts[&name]).unwrap();
        }
    }
    analyzer
}

#[test]
fn derives_delay_reversion_repetition_hold_network_and_no_response_facts() {
    let (events, artifacts) = fixture();
    let analyzer = replay(&events, &artifacts);
    assert_eq!(analyzer.states.len(), 4);
    assert_eq!(analyzer.facts.len(), 3);
    assert_eq!(analyzer.facts[0].changed_pixels, 16);
    assert_eq!(analyzer.facts[0].changed_bounds, Some(PixelBounds { x: 2, y: 2, width: 30, height: 2 }));
    assert_eq!(analyzer.facts[0].announced_pixels, 64);
    assert_eq!(analyzer.facts[0].screen_pixels, 400);
    let ordered = analyzer.ordered_events(&events);
    let observations = sort_observations(&analyzer.finish(&events, &ordered));
    let kinds: Vec<&str> = observations.iter().map(|o| o.kind.name()).collect();
    for expected in [
        "input.visual_response",
        "display.region_updated_repeatedly",
        "display.state_reverted",
        "input.multiple_visual_states_while_pointer_down",
        "input.pointer_move_without_display_response",
        "input.no_display_response",
        "display.visual_response_after_network_response",
    ] {
        assert!(kinds.contains(&expected), "missing {expected}");
    }
    let response = observations.iter().find(|o| o.kind == ObservationKind::VisualResponse).unwrap();
    match &response.detail {
        ObservationDetail::VisualResponse { latency_ns, delayed, .. } => {
            assert_eq!(*latency_ns, 250_000_000);
            assert!(*delayed);
        }
        _ => panic!("unexpected detail"),
    }
    assert_eq!(response.supporting_event_ids, vec!["i1", "u1"]);
    let hold = observations
        .iter()
        .find(|o| o.kind == ObservationKind::MultipleVisualStatesWhilePointerDown)
        .unwrap();
    assert_eq!(hold.supporting_event_ids, vec!["i1", "u1", "u2", "u3", "i2"]);
    match &hold.detail {
        ObservationDetail::MultipleStates { distinct_frame_count, display_event_count } => {
            assert_eq!((*distinct_frame_count, *display_event_count), (2, 3));
        }
        _ => panic!("unexpected detail"),
    }
    let starts: Vec<u64> = observations.iter().map(|o| o.start_ns).collect();
    let mut sorted = starts.clone();
    sorted.sort();
    assert_eq!(starts, sorted);
}

#[test]
fn moved_block_is_found_as_two_regions_that_translate_exactly() {
    let (events, artifacts) = fixture();
    let mut analyzer = TemporalAnalyzer::new(0, 1_600_000_000, TemporalSettings::default()).unwrap();
    analyzer.apply(&events[0], &artifacts["sha256:initial"]).unwrap();
    let detail = analyzer.apply(&events[3], &artifacts["sha256:moved"]).unwrap().unwrap();
    assert_eq!(detail.components.len(), 2);
    assert_eq!(detail.components[0].bounds, PixelBounds { x: 2, y: 2, width: 4, height: 2 });
    assert_eq!(detail.components[1].bounds, PixelBounds { x: 28, y: 2, width: 4, height: 2 });
    let after = analyzer.current_frame().unwrap();
    assert_eq!(translation_counts(&detail.before, after, &detail.components[0].pixels, 26, 0), (8, 8));
    assert_eq!(translation_counts(&detail.before, after, &detail.components[1].pixels, -26, 0), (8, 8));
    assert_eq!(translation_counts(&detail.before, after, &detail.components[0].pixels, 0, 9), (0, 0));
}

#[test]
fn updates_need_a_scanout_a_rectangle_and_an_artifact() {
    let (events, _) = fixture();
    let analyzer = TemporalAnalyzer::new(0, 10, TemporalSettings::default()).unwrap();
    assert_eq!(analyzer.artifact_for(&events[3]).err(), Some(TemporalError::NoPrecedingScanout));
    let mut bare = events[0].clone();
    bare.artifact_refs.clear();
    let error = analyzer.artifact_for(&bare).unwrap_err();
    assert_eq!(error.message(), "display.scanout has no framebuffer artifact");
    assert_eq!(analyzer.artifact_for(&events[1]).unwrap(), None);
}

#[test]
fn settings_and_interval_are_checked() {
    assert_eq!(TemporalAnalyzer::new(5, 4, TemporalSettings::default()).err(), Some(TemporalError::StartAfterEnd));
    let mut settings = TemporalSettings::default();
    settings.delayed_response_ms = 2_000;
    assert_eq!(TemporalAnalyzer::new(0, 4, settings).err(), Some(TemporalError::DelayExceedsWindow));
    settings = TemporalSettings::default();
    settings.repeated_region_min_updates = 1;
    assert_eq!(
        TemporalAnalyzer::new(0, 4, settings).err().map(|e| e.message()),
        Some("repeated region minimum must be at least two".to_string())
    );
}

#[test]
fn scanout_fields_must_fit_32_bits() {
    let (events, artifacts) = fixture();
    let mut analyzer = TemporalAnalyzer::new(0, 10, TemporalSettings::default()).unwrap();
    let mut wide = events[0].clone();
    wide.facts.width = Some(1 << 40);
    assert_eq!(
        analyzer.apply(&wide, &artifacts["sha256:initial"]).unwrap_err().message(),
        "width exceeds u32"
    );
    let mut missing = events[0].clone();
    missing.facts.stride = None;
    assert_eq!(
        analyzer.apply(&missing, &artifacts["sha256:initial"]).unwrap_err().message(),
        "display.scanout has no unsigned stride"
    );
}

#[test]
fn pixel_difference_counts_and_bounds_changed_pixels() {
    let a = Framebuffer::from_scanout(4, 2, 16, PIXMAN_X8R8G8B8, &[0; 32]).unwrap();
    let mut bytes = vec![0_u8; 32];
    bytes[4] = 1;
    bytes[28] = 1;
    let b = Framebuffer::from_scanout(4, 2, 16, PIXMAN_X8R8G8B8, &bytes).unwrap();
    let d = pixel_difference(&a, &b).unwrap();
    assert_eq!(d.changed_pixels, 2);
    assert_eq!(d.bounds, Some(PixelBounds { x: 1, y: 0, width: 3, height: 2 }));
    assert_eq!(d.mask, vec![false, true, false, false, false, false, false, true]);
    let regions = connected_components(&d.mask, 4, 2);
    assert_eq!(regions.len(), 2);
    assert_eq!(regions[0].pixels, vec![(1, 0)]);
    assert_eq!(regions[1].pixels, vec![(3, 1)]);
    let c = Framebuffer::from_scanout(2, 2, 8, PIXMAN_X8R8G8B8, &[0; 16]).unwrap();
    assert!(pixel_difference(&a, &c).is_none());
}

#[test]
fn regions_follow_four_neighbours_only() {
    let mask = vec![true, true, false, false, true, false, false, true, true];
    let regions = connected_components(&mask, 3, 3);
    assert_eq!(regions.len(), 1);
    assert_eq!(regions[0].pixels, vec![(0, 0), (1, 0), (1, 1), (1, 2), (2, 2)]);
    assert_eq!(regions[0].bounds, PixelBounds { x: 0, y: 0, width: 3, height: 3 });
    let separate = vec![true, true, false, false, false, true, true, false, false];
    assert_eq!(connected_components(&separate, 3, 3).len(), 3);
    let diagonal = vec![true, false, false, true];
    assert_eq!(connected_components(&diagonal, 2, 2).len(), 2);
}

#[test]
fn union_and_overlap_of_rectangles() {
    let a = PixelBounds { x: 0, y: 0, width: 4, height: 2 };
    let b = PixelBounds { x: 2, y: 0, width: 4, height: 2 };
    assert_eq!(union_bounds(a, b), PixelBounds { x: 0, y: 0, width: 6, height: 2 });
    assert!(!overlaps_by_half(a, b));
    assert!(overlaps_by_half(a, PixelBounds { x: 1, y: 0, width: 4, height: 2 }));
    assert!(!overlaps_by_half(a, PixelBounds { x: 4, y: 0, width: 4, height: 2 }));
}

fn artifact_list(artifacts: &HashMap<String, Vec<u8>>) -> Vec<(String, Vec<u8>)> {
    artifacts.iter().map(|(name, bytes)| (name.clone(), bytes.clone())).collect()
}

#[test]
fn derives_generic_delay_reversion_repetition_motion_and_no_response_facts() {
    let (events, artifacts) = fixture();
    let analysis =
        analyze_temporal(&events, &artifact_list(&artifacts), 0, 1_600_000_000, TemporalSettings::default()).unwrap();
    let kinds: Vec<&str> = analysis.observations.iter().map(|o| o.kind.name()).collect();
    assert!(kinds.contains(&"input.visual_response"));
    assert!(analysis.observations.iter().any(|o| matches!(
        o.detail,
        ObservationDetail::VisualResponse { delayed: true, .. }
    )));
    assert!(kinds.contains(&"display.region_updated_repeatedly"));
    assert!(kinds.contains(&"display.state_reverted"));
    assert!(kinds.contains(&"display.pixel_translation_detected"));
    assert!(kinds.contains(&"input.multiple_visual_states_while_pointer_down"));
    assert!(kinds.contains(&"input.pointer_move_without_display_response"));
    assert!(kinds.contains(&"display.visual_response_after_network_response"));
}

#[test]
fn translations_report_bounds_displacement_and_match() {
    let (events, artifacts) = fixture();
    let analysis =
        analyze_temporal(&events, &artifact_list(&artifacts), 0, 1_600_000_000, TemporalSettings::default()).unwrap();
    let moves: Vec<&ObservationDetail> = analysis
        .observations
        .iter()
        .filter(|o| o.kind == ObservationKind::PixelTranslationDetected)
        .map(|o| &o.detail)
        .collect();
    assert_eq!(moves.len(), 1);
    match moves[0] {
        ObservationDetail::Translation { from_bounds, to_bounds, delta_x, delta_y, matched, comparable } => {
            assert_eq!(*from_bounds, PixelBounds { x: 2, y: 2, width: 4, height: 2 });
            assert_eq!(*to_bounds, PixelBounds { x: 28, y: 2, width: 4, height: 2 });
            assert_eq!((*delta_x, *delta_y), (26, 0));
            assert_eq!((*matched, *comparable), (8, 8));
        }
        _ => panic!("a translation carries its displacement"),
    }
    let starts: Vec<u64> = analysis.observations.iter().map(|o| o.start_ns).collect();
    let mut sorted = starts.clone();
    sorted.sort();
    assert_eq!(starts, sorted);
    assert_eq!(analysis.display_update_facts.len(), 3);
    assert_eq!(analysis.frames.len(), 4);
}

#[test]
fn short_moves_and_small_changes_are_not_reported() {
    let (events, artifacts) = fixture();
    let mut settings = TemporalSettings::default();
    settings.motion_min_distance_px = 27;
    let analysis = analyze_temporal(&events, &artifact_list(&artifacts), 0, 1_600_000_000, settings).unwrap();
    assert!(!analysis.observations.iter().any(|o| o.kind == ObservationKind::PixelTranslationDetected));
    assert!(!analysis.observations.iter().any(|o| o.kind == ObservationKind::LargeRegionChanged));
    let mut low = TemporalSettings::default();
    low.large_changed_screen_permille = 20;
    let analysis = analyze_temporal(&events, &artifact_list(&artifacts), 0, 1_600_000_000, low).unwrap();
    let large = analysis.observations.iter().filter(|o| o.kind == ObservationKind::LargeRegionChanged).count();
    assert_eq!(large, 3);
}

#[test]
fn analysis_needs_every_framebuffer_artifact_and_valid_ratios() {
    let (events, artifacts) = fixture();
    let mut partial = artifact_list(&artifacts);
    partial.retain(|(name, _)| name != "sha256:cleared");
    let error = analyze_temporal(&events, &partial, 0, 1_600_000_000, TemporalSettings::default()).unwrap_err();
    assert_eq!(error.message(), "framebuffer artifact sha256:cleared is unavailable");
    let mut settings = TemporalSettings::default();
    settings.motion_min_match_permille = 1001;
    assert_eq!(
        analyze_temporal(&events, &partial, 0, 10, settings).unwrap_err(),
        TemporalError::MatchRatioOutOfRange
    );
    assert!(analyze_temporal(&events[1..3], &Vec::new(), 0, 10, TemporalSettings::default()).unwrap().observations.len() <= 2);
}

#[test]
fn pointer_repaints_are_cursor_only_and_answer_no_input() {
    let (mut events, mut artifacts) = fixture();
    events.truncate(1);
    let mut small = vec![0_u8; 32 * 2 * 4];
    for x in 0..2 {
        let offset = x * 4;
        small[offset..offset + 4].copy_from_slice(&[9, 9, 9, 0]);
    }
    artifacts.insert("sha256:small".to_string(), small);
    let mut pointer = PayloadFacts::empty();
    pointer.pointer_x = Some(3);
    pointer.pointer_y = Some(2);
    events.push(event("m1", 100_000_000, "input", "pointer.move", pointer));
    events.push(update_event("u1", 150_000_000, "sha256:small"));
    let analyzer = replay(&events, &artifacts);
    let ordered = analyzer.ordered_events(&events);
    let observations = sort_observations(&analyzer.finish(&events, &ordered));
    let cursor = observations.iter().find(|o| o.kind == ObservationKind::CursorOnlyChange).unwrap();
    assert_eq!(cursor.kind.name(), "display.cursor_only_change");
    assert_eq!(cursor.supporting_event_ids, vec!["m1", "u1"]);
    assert!(observations.iter().all(|o| o.kind != ObservationKind::VisualResponse));
    assert!(observations.iter().any(|o| o.kind == ObservationKind::PointerMoveWithoutDisplayResponse));
}
