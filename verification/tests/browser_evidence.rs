use avm::browser_evidence::{browser_evidence_record, browser_findings, BrowserEvidenceError, BrowserEvidenceOptions};
use avm::event::{EventRecord, PayloadFacts, Provenance};
use avm::policy::{DevelopmentDeclaration, EvidenceVerdict, PolicyConfig, PolicyPhase, PolicyState};

const FINGERPRINT: &str = "sha256:00000000000000000000000000000000000000000000000000000000000000aa";

fn state() -> PolicyState {
    PolicyState::create(
        "session-1".into(),
        "/work/candidate".into(),
        "/var/lib/avm/state".into(),
        FINGERPRINT.into(),
        PolicyConfig::default(),
    )
    .unwrap()
}

fn declared_state() -> PolicyState {
    let mut state = state();
    let declaration = DevelopmentDeclaration::new(
        "disable Save while its request is pending".into(),
        "duplicate dispatch occurs because both handlers remain active".into(),
        "browser_interaction".into(),
        "Playwright plus network observer".into(),
        "click Save once and count POST /api/document requests".into(),
        "one POST occurs and the button remains disabled until response".into(),
        "two POSTs mean duplicate event dispatch remains".into(),
        FINGERPRINT.into(),
    )
    .unwrap();
    state.declare(declaration, FINGERPRINT).unwrap();
    state
}

fn no_facts() -> PayloadFacts {
    PayloadFacts::empty()
}

fn make(id: &str, at: u64, kind: &str, facts: PayloadFacts) -> EventRecord {
    EventRecord {
        id: id.into(),
        host_monotonic_ns: at,
        source: "browser".into(),
        wall_clock_time: format!("2026-01-01T00:00:{:02}Z", at),
        kind: kind.into(),
        repository_fingerprint: Some(FINGERPRINT.into()),
        artifact_refs: Vec::new(),
        provenance: Provenance::Observed,
        facts,
    }
}

fn snapshot(id: &str, at: u64, text: &str) -> EventRecord {
    let mut facts = no_facts();
    facts.dom = Some(format!("{{\"strings\":[\"{}\"]}}", text));
    make(id, at, "browser.page.snapshot", facts)
}

fn options() -> BrowserEvidenceOptions {
    BrowserEvidenceOptions {
        expected_before_text: "Presses: 0".into(),
        expected_after_text: "Presses: 1".into(),
    }
}

fn click_events() -> Vec<EventRecord> {
    let mut before = snapshot("e1", 10, "Presses: 0");
    before.artifact_refs.push("sha256:before".into());
    let down = make("e2", 20, "pointer.down", no_facts());
    let up = make("e3", 21, "pointer.up", no_facts());
    let mut display = make("e4", 22, "display.update", no_facts());
    display.artifact_refs.push("sha256:display".into());
    let mut after = snapshot("e5", 30, "Presses: 1");
    after.artifact_refs.push("sha256:after".into());
    let mut facts = no_facts();
    facts.browser_snapshot_event_id = Some(after.id.clone());
    let mut correlation = make("e6", 31, "browser.coordinate_correlation", facts);
    correlation.artifact_refs.push("sha256:correlation".into());
    vec![before, down, up, display, after, correlation]
}

#[test]
fn browser_evidence_requires_input_display_snapshots_and_correlation() {
    let state = declared_state();
    let events = click_events();
    let supported = browser_findings(&state, &events, &options()).unwrap();
    assert_eq!(supported.verdict, EvidenceVerdict::Supported);
    assert_eq!(supported.supporting_event_ids.len(), 6);

    let wrong_after = snapshot("e7", 30, "Count: 1");
    let contradicted = browser_findings(
        &state,
        &[events[0].clone(), events[1].clone(), events[2].clone(), wrong_after],
        &options(),
    )
    .unwrap();
    assert_eq!(contradicted.verdict, EvidenceVerdict::Contradicted);

    let inconclusive = browser_findings(&state, &events[..5], &options()).unwrap();
    assert_eq!(inconclusive.verdict, EvidenceVerdict::Inconclusive);
}

#[test]
fn supported_findings_cite_the_observed_events_and_their_artifacts() {
    let state = declared_state();
    let events = click_events();
    let found = browser_findings(&state, &events, &options()).unwrap();
    assert!(found.missing.is_empty());
    assert_eq!(found.supporting_event_ids, vec!["e1", "e2", "e3", "e5", "e4", "e6"]);
    assert_eq!(
        found.raw_artifacts,
        vec!["sha256:after", "sha256:before", "sha256:correlation", "sha256:display"]
    );
    assert_eq!(found.claim, "disable Save while its request is pending");
    assert_eq!(found.started_at.as_deref(), Some("2026-01-01T00:00:10Z"));
    assert_eq!(found.completed_at.as_deref(), Some("2026-01-01T00:00:30Z"));
}

#[test]
fn missing_steps_are_named_in_order() {
    let state = declared_state();
    let events = click_events();
    let found = browser_findings(&state, &events[..2], &options()).unwrap();
    assert_eq!(
        found.missing,
        vec!["pointer up", "post-click snapshot", "display response", "coordinate correlation"]
    );
    assert_eq!(found.verdict, EvidenceVerdict::Inconclusive);
    assert_eq!(found.completed_at, None);
}

#[test]
fn events_of_another_repository_state_are_ignored() {
    let state = declared_state();
    let mut events = click_events();
    events[1].repository_fingerprint = Some("sha256:other".into());
    let found = browser_findings(&state, &events, &options()).unwrap();
    assert_eq!(found.missing, vec!["pointer down", "pointer up", "post-click snapshot", "display response", "coordinate correlation"]);
    assert_eq!(found.supporting_event_ids, vec!["e1"]);
}

#[test]
fn timeline_order_decides_and_not_recording_order() {
    let state = declared_state();
    let mut events = click_events();
    events.reverse();
    let found = browser_findings(&state, &events, &options()).unwrap();
    assert_eq!(found.verdict, EvidenceVerdict::Supported);
    assert_eq!(found.supporting_event_ids, vec!["e1", "e2", "e3", "e5", "e4", "e6"]);
}

#[test]
fn browser_evidence_needs_a_declaration() {
    let state = state();
    assert_eq!(
        browser_findings(&state, &click_events(), &options()).err(),
        Some(BrowserEvidenceError::NoDeclaration)
    );
    assert_eq!(
        BrowserEvidenceError::NoDeclaration.message(),
        "browser evidence has no declaration to test"
    );
}

#[test]
fn browser_evidence_waits_for_a_diagnosis_after_failure() {
    let mut state = declared_state();
    state.phase = PolicyPhase::EvidenceFailed;
    assert_eq!(
        browser_findings(&state, &click_events(), &options()).err(),
        Some(BrowserEvidenceError::DiagnosisPending)
    );
}

#[test]
fn browser_evidence_record_is_observed_and_bound_to_the_current_state() {
    let state = declared_state();
    let events = click_events();
    let found = browser_findings(&state, &events, &options()).unwrap();
    let record = browser_evidence_record(&state, found, &options(), "{}".into());
    assert_eq!(record.provenance, Provenance::Observed);
    assert_eq!(record.repository_fingerprint, FINGERPRINT);
    assert_eq!(record.session_id, "session-1");
    assert_eq!(record.verdict, EvidenceVerdict::Supported);
    assert_eq!(record.claim, "disable Save while its request is pending");
    assert_eq!(
        record.prediction,
        "one POST occurs and the button remains disabled until response; visible transition \"Presses: 0\" -> \"Presses: 1\""
    );
    assert_eq!(record.observation_type, "browser_interaction");
    assert_eq!(record.instrument, "QEMU D-Bus display plus Playwright/CDP browser observer");
    assert_eq!(record.action_or_command, "one physical pointer click through the QEMU input path");
    assert_eq!(record.environment_identity.as_deref(), Some("instrumented QEMU/KVM guest browser"));
    assert_eq!(record.working_directory, None);
    assert_eq!(record.exit_code, None);
    assert_eq!(record.started_at, "2026-01-01T00:00:10Z");
    assert_eq!(record.completed_at, "2026-01-01T00:00:30Z");
    assert_eq!(record.supporting_event_ids, vec!["e1", "e2", "e3", "e5", "e4", "e6"]);
    assert_eq!(record.raw_artifacts.len(), 4);
    assert_eq!(record.observed_result, "{}");
    assert_eq!(record.id.len(), 36);
    assert_eq!(record.id.as_bytes()[14], b'4');
    assert_eq!(record.id.as_bytes()[8], b'-');
}
