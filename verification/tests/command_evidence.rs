use avm::command_evidence::{
    check_command, check_unchanged, check_working_directory, command_result, evidence_subject, CommandEvidenceError,
    EvidenceCommandOptions,
};
use avm::policy::{DevelopmentDeclaration, PolicyConfig, PolicyState};

const FINGERPRINT: &str = "sha256:00000000000000000000000000000000000000000000000000000000000000cc";

fn state() -> PolicyState {
    PolicyState::create(
        "session-1".into(),
        "/work/candidate".into(),
        "/var/lib/avm/state".into(),
        FINGERPRINT.into(),
        PolicyConfig::default(),
    )
    .unwrap()
}

#[test]
fn commands_run_inside_an_unchanged_candidate() {
    let options = EvidenceCommandOptions { command: vec![], cwd: "/work/candidate".into(), expected_exit_code: 0 };
    assert_eq!(check_command(&options), Err(CommandEvidenceError::EmptyCommand));
    assert_eq!(check_working_directory("/work/candidate/src", "/work/candidate"), Ok(()));
    assert_eq!(check_working_directory("/work/candidate", "/work/candidate"), Ok(()));
    assert_eq!(
        check_working_directory("/work/candidate2", "/work/candidate"),
        Err(CommandEvidenceError::OutsideCandidate)
    );
    assert_eq!(check_unchanged(FINGERPRINT, FINGERPRINT), Ok(()));
    assert_eq!(
        check_unchanged("sha256:other", FINGERPRINT).unwrap_err().message(),
        "candidate changed outside the supervisor before evidence acquisition"
    );
}

#[test]
fn command_evidence_tests_the_pending_declaration() {
    let mut state = state();
    assert_eq!(evidence_subject(&state).err(), Some(CommandEvidenceError::NoDeclaration));
    let declaration = DevelopmentDeclaration::new(
        "disable Save while its request is pending".into(),
        "duplicate dispatch occurs because both handlers remain active".into(),
        "browser_interaction".into(),
        "Playwright plus network observer".into(),
        "click Save once and count POST /api/document requests".into(),
        "one POST occurs and the button remains disabled until response".into(),
        "two POSTs mean duplicate event dispatch remains".into(),
        FINGERPRINT.into(),
    )
    .unwrap();
    state.declare(declaration, FINGERPRINT).unwrap();
    let subject = evidence_subject(&state).unwrap();
    assert_eq!(subject.claim, "disable Save while its request is pending");
    assert_eq!(subject.prediction, "one POST occurs and the button remains disabled until response");
    assert_eq!(subject.instrument, "Playwright plus network observer");
}

#[test]
fn command_results_report_exit_outputs_and_mutation() {
    assert_eq!(
        command_result(Some(0), 8, 0, "sha256:a", "sha256:a"),
        "exitCode=Some(0); stdoutBytes=8; stderrBytes=0; repository fingerprint remained unchanged"
    );
    assert_eq!(
        command_result(Some(-9), 0, 3, "sha256:a", "sha256:b"),
        "exitCode=Some(-9); stdoutBytes=0; stderrBytes=3; repository changed during observation from sha256:a to sha256:b"
    );
    assert!(command_result(None, 0, 0, "x", "x").starts_with("exitCode=None;"));
    assert_eq!(format!("{:?}", Some(-9)), "Some(-9)");
}
