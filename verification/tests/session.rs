use avm::session::{ExperimentSession, SessionError};

#[test]
fn creates_state_outside_candidate_and_rejects_inside_state() {
    let session = ExperimentSession::from_canonical("s-1", "/work/candidate", "/var/avm").unwrap();
    assert_eq!(session.state_dir, "/var/avm/s-1");
    assert_eq!(session.paths().config, "/var/avm/s-1/session.json");
    let error = ExperimentSession::from_canonical("s-2", "/work/candidate", "/work/candidate/state").unwrap_err();
    assert_eq!(error, SessionError::StateInsideCandidate);
    assert!(error.message().contains("outside"));
}

#[test]
fn session_files_are_named_in_the_state_directory() {
    let session = ExperimentSession::from_canonical("id", "/c", "/s/").unwrap();
    let paths = session.paths();
    assert_eq!(paths.events, "/s/id/events.jsonl");
    assert_eq!(paths.timeline, "/s/id/timeline.sqlite3");
    assert_eq!(paths.artifacts, "/s/id/artifacts");
}
