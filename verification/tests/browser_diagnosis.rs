use avm::browser_diagnosis::{diagnose_double_submit_failure, DoubleSubmitError};
use avm::event::{EventRecord, PayloadFacts, Provenance};

fn no_facts() -> PayloadFacts {
    PayloadFacts::empty()
}

fn event(id: &str, at: u64, kind: &str, facts: PayloadFacts) -> EventRecord {
    EventRecord {
        id: id.into(),
        host_monotonic_ns: at,
        source: "browser".into(),
        wall_clock_time: "2026-01-01T00:00:00Z".into(),
        kind: kind.into(),
        repository_fingerprint: None,
        artifact_refs: Vec::new(),
        provenance: Provenance::Observed,
        facts,
    }
}

fn request(id: &str, at: u64) -> EventRecord {
    let mut facts = no_facts();
    facts.method = Some("POST".into());
    facts.method_json = Some("\"POST\"".into());
    facts.url = Some("http://fixture/api/document".into());
    facts.url_json = Some("\"http://fixture/api/document\"".into());
    facts.post_data_json = Some("\"{\\\"x\\\":1}\"".into());
    event(id, at, "browser.network.request", facts)
}

fn response(id: &str, at: u64, status: u64) -> EventRecord {
    let mut facts = no_facts();
    facts.url = Some("http://fixture/api/document".into());
    facts.url_json = Some("\"http://fixture/api/document\"".into());
    facts.status = Some(status);
    event(id, at, "browser.network.response", facts)
}

fn double_submit_fixture() -> Vec<EventRecord> {
    let down = event("a01", 10, "pointer.down", no_facts());
    let up = event("a03", 30, "pointer.up", no_facts());
    let display = event("a02", 20, "display.update", no_facts());
    let first_request = request("a04", 40);
    let second_request = request("a05", 41);
    let first_response = response("a06", 50, 501);
    let second_response = response("a07", 51, 501);
    let mut console_facts = no_facts();
    console_facts.text = Some("Save failed [501, 501]".into());
    let console = event("a08", 60, "browser.console.message", console_facts);
    let mut mutation_facts = no_facts();
    mutation_facts.count = Some(2);
    let mutation = event("a09", 61, "browser.dom.mutation", mutation_facts);
    let mut snapshot_facts = no_facts();
    snapshot_facts.dom = Some("{\"strings\":[\"Save failed\"]}".into());
    let mut snapshot = event("a10", 70, "browser.page.snapshot", snapshot_facts);
    snapshot.artifact_refs.push("sha256:viewport".into());
    let mut correlation_facts = no_facts();
    correlation_facts.browser_snapshot_event_id = Some(snapshot.id.clone());
    let mut correlation = event("a11", 80, "browser.coordinate_correlation", correlation_facts);
    correlation.artifact_refs.push("sha256:frame".into());
    vec![
        down,
        display,
        up,
        first_request,
        second_request,
        first_response,
        second_response,
        console,
        mutation,
        snapshot,
        correlation,
    ]
}

#[test]
fn derives_double_submit_diagnosis_only_from_complete_observed_pattern() {
    let events = double_submit_fixture();
    let diagnosis = diagnose_double_submit_failure(&events, None).unwrap();
    assert_eq!(diagnosis.code, "duplicate_submit_with_unsupported_post");
    assert_eq!(diagnosis.supporting_event_ids.len(), 11);
    assert_eq!(diagnosis.artifact_refs, vec!["sha256:frame", "sha256:viewport"]);
}

#[test]
fn refuses_diagnosis_when_only_one_post_was_observed() {
    let mut events = double_submit_fixture();
    let second_request = events
        .iter()
        .filter(|event| event.kind == "browser.network.request")
        .nth(1)
        .unwrap()
        .id
        .clone();
    events.retain(|event| event.id != second_request);
    let error = diagnose_double_submit_failure(&events, None).unwrap_err();
    assert!(error.message().contains("exactly two POST requests"));
    assert_eq!(error, DoubleSubmitError::PostCount(1));
    assert_eq!(
        error.message(),
        "expected exactly two POST requests after one click, observed 1"
    );
}

#[test]
fn diagnosis_names_the_events_in_causal_order_and_summarises_the_url() {
    let events = double_submit_fixture();
    let diagnosis = diagnose_double_submit_failure(&events, Some("a01".into())).unwrap();
    assert_eq!(diagnosis.click_event_id, "a01");
    assert_eq!(
        diagnosis.supporting_event_ids,
        vec!["a01", "a03", "a02", "a04", "a05", "a06", "a07", "a08", "a09", "a10", "a11"]
    );
    assert_eq!(
        diagnosis.summary,
        "one physical click was followed by two identical POST requests to http://fixture/api/document; both returned 501 and the correlated UI state reported Save failed"
    );
    assert_eq!(diagnosis.causal_certainty[0], ("singlePhysicalClick", "directly_observed"));
    assert_eq!(diagnosis.causal_certainty.len(), 5);
}

#[test]
fn requested_click_must_exist_and_be_a_click() {
    let events = double_submit_fixture();
    let missing = diagnose_double_submit_failure(&events, Some("zzz".into())).unwrap_err();
    assert_eq!(missing, DoubleSubmitError::ClickNotInTimeline("zzz".into()));
    assert_eq!(missing.message(), "click event zzz is not in the timeline");
    let not_click = diagnose_double_submit_failure(&events, Some("a02".into())).unwrap_err();
    assert_eq!(not_click, DoubleSubmitError::NotPointerDown);
    let none = diagnose_double_submit_failure(&events[1..], None).unwrap_err();
    assert_eq!(none, DoubleSubmitError::NoPointerDown);
}

#[test]
fn a_later_click_closes_the_window() {
    let mut events = double_submit_fixture();
    events.push(event("a12", 35, "pointer.down", no_facts()));
    let error = diagnose_double_submit_failure(&events, Some("a01".into())).unwrap_err();
    assert_eq!(error, DoubleSubmitError::PostCount(0));
    let last = diagnose_double_submit_failure(&events, None).unwrap_err();
    assert_eq!(last, DoubleSubmitError::NoPointerUp);
}

#[test]
fn each_missing_observation_has_its_own_refusal() {
    let base = double_submit_fixture();
    let without = |id: &str| -> Vec<EventRecord> { base.iter().filter(|e| e.id != id).cloned().collect() };
    assert_eq!(diagnose_double_submit_failure(&without("a03"), None).unwrap_err(), DoubleSubmitError::NoPointerUp);
    assert_eq!(diagnose_double_submit_failure(&without("a02"), None).unwrap_err(), DoubleSubmitError::NoDisplayWhileHeld);
    assert_eq!(diagnose_double_submit_failure(&without("a07"), None).unwrap_err(), DoubleSubmitError::ResponsesNotRejected);
    assert_eq!(diagnose_double_submit_failure(&without("a08"), None).unwrap_err(), DoubleSubmitError::NoConsoleFailure);
    assert_eq!(diagnose_double_submit_failure(&without("a09"), None).unwrap_err(), DoubleSubmitError::NoDomMutation);
    assert_eq!(diagnose_double_submit_failure(&without("a10"), None).unwrap_err(), DoubleSubmitError::NoFailureSnapshot);
    assert_eq!(diagnose_double_submit_failure(&without("a11"), None).unwrap_err(), DoubleSubmitError::NoCorrelation);
}

#[test]
fn requests_must_be_identical_and_rejected() {
    let mut differing = double_submit_fixture();
    differing[4].facts.post_data_json = Some("\"{\\\"x\\\":2}\"".into());
    assert_eq!(diagnose_double_submit_failure(&differing, None).unwrap_err(), DoubleSubmitError::PostsDiffer);
    let mut accepted = double_submit_fixture();
    accepted[6].facts.status = Some(200);
    assert_eq!(diagnose_double_submit_failure(&accepted, None).unwrap_err(), DoubleSubmitError::ResponsesNotRejected);
    let mut no_url = double_submit_fixture();
    no_url[3].facts.url = None;
    no_url[4].facts.url = None;
    assert_eq!(diagnose_double_submit_failure(&no_url, None).unwrap_err(), DoubleSubmitError::PostWithoutUrl);
}
