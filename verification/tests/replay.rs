use avm::event::{EventRecord, PayloadFacts, RectFacts, Provenance};
use avm::framebuffer::{Framebuffer, Rect, PIXMAN_X8R8G8B8};
use avm::reconstruction::{frame_artifact, frame_events, ReconstructedFrame, Reconstruction};
use avm::replay::{replay_plan, significant_display_events, ReplayError};
use avm::storage::artifact_reference;

fn event(id: &str, at: u64, source: &str, kind: &str, facts: PayloadFacts, artifact: Option<String>) -> EventRecord {
    EventRecord {
        id: id.into(),
        host_monotonic_ns: at,
        wall_clock_time: "2026-01-01T00:00:00Z".into(),
        source: source.into(),
        kind: kind.into(),
        repository_fingerprint: None,
        artifact_refs: artifact.into_iter().collect(),
        provenance: Provenance::Observed,
        facts,
    }
}

fn frame_at(events: &[EventRecord], store: &[(String, Vec<u8>)], at_ns: u64) -> ReconstructedFrame {
    let mut replay = Reconstruction::new();
    for index in frame_events(events, at_ns) {
        let reference = frame_artifact(&events[index]).unwrap();
        let bytes = &store.iter().find(|(r, _)| *r == reference).unwrap().1;
        replay.apply(&events[index], bytes).unwrap();
    }
    replay.finish().unwrap()
}

#[test]
fn replay_works_after_recording_has_finished_without_repeating_actions() {
    let initial = vec![0_u8; 16];
    let update = vec![9_u8, 8, 7, 6];
    let initial_frame = Framebuffer::from_scanout(2, 2, 8, PIXMAN_X8R8G8B8, &initial).unwrap();
    let mut final_frame = initial_frame.clone();
    final_frame
        .apply_update(Rect { x: 0, y: 1, width: 1, height: 1 }, 4, PIXMAN_X8R8G8B8, &update)
        .unwrap();
    let store = vec![(artifact_reference(&initial), initial.clone()), (artifact_reference(&update), update.clone())];
    let mut scanout_facts = PayloadFacts::empty();
    scanout_facts.width = Some(2);
    scanout_facts.height = Some(2);
    scanout_facts.stride = Some(8);
    scanout_facts.pixman_format = Some(PIXMAN_X8R8G8B8 as u64);
    scanout_facts.frame_sha256 = Some(initial_frame.sha256());
    let mut update_facts = PayloadFacts::empty();
    update_facts.rect = Some(RectFacts { x: Some(0), y: Some(1), width: Some(1), height: Some(1) });
    update_facts.stride = Some(4);
    update_facts.pixman_format = Some(PIXMAN_X8R8G8B8 as u64);
    update_facts.frame_sha256 = Some(final_frame.sha256());
    let events = vec![
        event("a", 1_000, "display", "display.scanout", scanout_facts, Some(artifact_reference(&initial))),
        event("b", 2_000, "input", "pointer.down", PayloadFacts::empty(), None),
        event("c", 3_000, "display", "display.update", update_facts, Some(artifact_reference(&update))),
        event("d", 4_000, "input", "pointer.up", PayloadFacts::empty(), None),
    ];
    let plan = replay_plan(&events, 1_000, 4_000).unwrap();
    assert_eq!(plan.input_events.len(), 2);
    assert_eq!(plan.frame_times, vec![1_000, 3_000]);
    let keyframes: Vec<ReconstructedFrame> = plan.frame_times.iter().map(|t| frame_at(&events, &store, *t)).collect();
    assert_eq!(keyframes.len(), 2);
    assert_eq!(keyframes.last().unwrap().framebuffer.sha256(), final_frame.sha256());
    let ids: Vec<String> = keyframes.iter().map(|k| k.event_id.clone()).collect();
    assert_eq!(significant_display_events(&events, &plan.display_events, &ids), vec![0, 2]);
    assert_eq!(events.iter().filter(|e| e.source == "input").count(), 2);
}

#[test]
fn replay_keyframes_answer_inputs_and_are_limited_to_twelve() {
    let mut events = Vec::new();
    for k in 0..20u64 {
        events.push(event(&format!("i{k:02}"), 100 * k + 10, "input", "key.up", PayloadFacts::empty(), None));
        events.push(event(&format!("d{k:02}"), 100 * k + 50, "display", "display.update", PayloadFacts::empty(), None));
    }
    let plan = replay_plan(&events, 0, 10_000).unwrap();
    assert_eq!(plan.input_events.len(), 20);
    assert_eq!(plan.display_events.len(), 20);
    assert_eq!(plan.frame_times.len(), 12);
    assert_eq!(plan.frame_times[0], 50);
    assert_eq!(*plan.frame_times.last().unwrap(), 1950);
    let narrow = replay_plan(&events, 100, 260).unwrap();
    assert_eq!(narrow.input_events, vec![2, 4]);
    assert_eq!(narrow.frame_times, vec![150, 250]);
    let none = replay_plan(&events, 11, 49).unwrap();
    assert!(none.frame_times.is_empty());
    assert_eq!(replay_plan(&events, 5, 4).err(), Some(ReplayError::StartAfterEnd));
    assert_eq!(ReplayError::StartAfterEnd.message(), "replay start must not exceed end");
}
