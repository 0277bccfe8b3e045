use avm::event::{EventRecord, PayloadFacts, RectFacts, Provenance};
use avm::framebuffer::{Framebuffer, Rect, PIXMAN_X8R8G8B8};
use avm::reconstruction::{frame_artifact, frame_events, ReconstructError, ReconstructedFrame, Reconstruction};
use avm::storage::artifact_reference;

struct Store {
    items: Vec<(String, Vec<u8>)>,
}

impl Store {
    fn new() -> Store {
        Store { items: Vec::new() }
    }

    fn put(&mut self, bytes: &[u8]) -> String {
        let reference = artifact_reference(bytes);
        self.items.push((reference.clone(), bytes.to_vec()));
        reference
    }

    fn read(&self, reference: &str) -> Vec<u8> {
        self.items.iter().find(|(r, _)| r == reference).unwrap().1.clone()
    }
}

fn rebuild(events: &[EventRecord], store: &Store, at_ns: u64) -> Result<ReconstructedFrame, ReconstructError> {
    let mut replay = Reconstruction::new();
    for index in frame_events(events, at_ns) {
        let event = &events[index];
        let reference = frame_artifact(event)?;
        replay.apply(event, &store.read(&reference))?;
    }
    replay.finish()
}

fn display(id: &str, at: u64, kind: &str, facts: PayloadFacts, artifact: Option<String>) -> EventRecord {
    EventRecord {
        id: id.into(),
        host_monotonic_ns: at,
        wall_clock_time: "2026-01-01T00:00:00Z".into(),
        source: "display".into(),
        kind: kind.into(),
        repository_fingerprint: None,
        artifact_refs: artifact.into_iter().collect(),
        provenance: Provenance::Observed,
        facts,
    }
}

fn scanout_facts(width: u64, height: u64, stride: u64, sha: Option<String>) -> PayloadFacts {
    let mut facts = PayloadFacts::empty();
    facts.width = Some(width);
    facts.height = Some(height);
    facts.stride = Some(stride);
    facts.pixman_format = Some(PIXMAN_X8R8G8B8 as u64);
    facts.frame_sha256 = sha;
    facts
}

fn update_facts(x: i64, y: i64, width: i64, height: i64, stride: u64, sha: Option<String>) -> PayloadFacts {
    let mut facts = PayloadFacts::empty();
    facts.rect = Some(RectFacts { x: Some(x), y: Some(y), width: Some(width), height: Some(height) });
    facts.stride = Some(stride);
    facts.pixman_format = Some(PIXMAN_X8R8G8B8 as u64);
    facts.frame_sha256 = sha;
    facts
}

#[test]
fn reconstructs_scanout_and_update_from_immutable_artifacts() {
    let mut artifacts = Store::new();
    let initial = vec![0_u8; 16];
    let update = vec![1_u8, 2, 3, 4];
    let initial_frame = Framebuffer::from_scanout(2, 2, 8, PIXMAN_X8R8G8B8, &initial).unwrap();
    let mut final_frame = initial_frame.clone();
    final_frame
        .apply_update(Rect { x: 1, y: 0, width: 1, height: 1 }, 4, PIXMAN_X8R8G8B8, &update)
        .unwrap();
    let scanout_ref = artifacts.put(&initial);
    let scanout = display(
        "00000000-0000-4000-8000-000000000001",
        10,
        "display.scanout",
        scanout_facts(2, 2, 8, Some(initial_frame.sha256())),
        Some(scanout_ref),
    );
    let update_ref = artifacts.put(&update);
    let changed = display(
        "00000000-0000-4000-8000-000000000002",
        20,
        "display.update",
        update_facts(1, 0, 1, 1, 4, Some(final_frame.sha256())),
        Some(update_ref),
    );
    let reconstructed = rebuild(&[changed, scanout], &artifacts, 20).unwrap();
    assert_eq!(reconstructed.framebuffer, final_frame);
    assert_eq!(reconstructed.host_monotonic_ns, 20);
}

#[test]
fn reconstruction_stops_at_the_requested_time() {
    let mut artifacts = Store::new();
    let initial = vec![0_u8; 16];
    let scanout = display("a", 10, "display.scanout", scanout_facts(2, 2, 8, None), Some(artifacts.put(&initial)));
    let changed = display("b", 20, "display.update", update_facts(0, 0, 1, 1, 4, None), Some(artifacts.put(&[9, 9, 9, 9])));
    let events = [scanout, changed];
    let early = rebuild(&events, &artifacts, 15).unwrap();
    assert_eq!(early.event_id, "a");
    assert_eq!(early.framebuffer.bytes(), &initial[..]);
    let err = rebuild(&events, &artifacts, 5).err().unwrap();
    assert!(matches!(err, ReconstructError::NothingAtTime));
    assert_eq!(err.message(), "no reconstructable framebuffer at requested time");
}

#[test]
fn reconstruction_refuses_missing_or_inconsistent_inputs() {
    let mut artifacts = Store::new();
    let initial = vec![0_u8; 16];
    let r = artifacts.put(&initial);
    let orphan = display("u", 20, "display.update", update_facts(0, 0, 1, 1, 4, None), Some(r.clone()));
    let err = rebuild(&[orphan], &artifacts, 20).err().unwrap();
    assert_eq!(err.message(), "display update has no preceding scanout");

    let no_artifact = display("s", 10, "display.scanout", scanout_facts(2, 2, 8, None), None);
    let err = rebuild(&[no_artifact], &artifacts, 20).err().unwrap();
    assert_eq!(err.message(), "display.scanout has no raw framebuffer artifact");

    let mut facts = scanout_facts(2, 2, 8, None);
    facts.stride = None;
    let no_stride = display("s", 10, "display.scanout", facts, Some(r.clone()));
    let err = rebuild(&[no_stride], &artifacts, 20).err().unwrap();
    assert_eq!(err.message(), "display.scanout has no unsigned stride");

    let wide = display("s", 10, "display.scanout", scanout_facts(1 << 32, 2, 8, None), Some(r.clone()));
    let err = rebuild(&[wide], &artifacts, 20).err().unwrap();
    assert_eq!(err.message(), "width exceeds u32");

    let wrong = display("s", 10, "display.scanout", scanout_facts(2, 2, 8, Some("sha256:nope".into())), Some(r.clone()));
    let err = rebuild(&[wrong], &artifacts, 20).err().unwrap();
    assert_eq!(err.message(), "reconstructed frame hash differs at event s");

    let scanout = display("s", 10, "display.scanout", scanout_facts(2, 2, 8, None), Some(r.clone()));
    let mut facts = update_facts(0, 0, 1, 1, 4, None);
    facts.rect = None;
    let rectless = display("u", 20, "display.update", facts, Some(r.clone()));
    let err = rebuild(&[scanout.clone(), rectless], &artifacts, 20).err().unwrap();
    assert_eq!(err.message(), "display update has no rect");

    let far = display("u", 20, "display.update", update_facts(1 << 40, 0, 1, 1, 4, None), Some(r.clone()));
    let err = rebuild(&[scanout.clone(), far], &artifacts, 20).err().unwrap();
    assert_eq!(err.message(), "rect x exceeds i32");

    let outside = display("u", 20, "display.update", update_facts(1, 0, 2, 1, 8, None), Some(r.clone()));
    let err = rebuild(&[scanout, outside], &artifacts, 20).err().unwrap();
    assert!(matches!(err, ReconstructError::Frame(_)));
    assert!(err.message().contains("outside scanout"));
}
