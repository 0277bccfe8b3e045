use avm::policy::{ChangedFile, DevelopmentDeclaration, PolicyConfig, PolicyState};
use avm::workspace_gate::{parse_porcelain_status, promotion_check, promotion_outcome, staged_copy_check, staging_check, GateError};

const FINGERPRINT: &str = "sha256:00000000000000000000000000000000000000000000000000000000000000aa";

fn pairs(files: &[ChangedFile]) -> Vec<(String, String)> {
    files.iter().map(|f| (f.path.clone(), f.status.clone())).collect()
}

#[test]
fn porcelain_status_classifies_and_sorts_changed_files() {
    let listing = b"M  b.txt\0?? a.txt\0R  new.txt\0old.txt\0 D gone.txt\0A  added.txt\0C  copy.txt\0orig.txt\0";
    let files = parse_porcelain_status(listing).unwrap();
    assert_eq!(
        pairs(&files),
        vec![
            ("a.txt".to_string(), "added".to_string()),
            ("added.txt".to_string(), "added".to_string()),
            ("b.txt".to_string(), "modified".to_string()),
            ("copy.txt".to_string(), "modified".to_string()),
            ("gone.txt".to_string(), "deleted".to_string()),
            ("new.txt".to_string(), "renamed".to_string()),
        ]
    );
    assert!(parse_porcelain_status(b"").unwrap().is_empty());
}

#[test]
fn porcelain_status_refuses_malformed_records() {
    assert!(matches!(parse_porcelain_status(b"M b\0"), Err(GateError::InvalidStatusRecord)));
    assert!(matches!(parse_porcelain_status(b"MMxb.txt\0"), Err(GateError::InvalidStatusRecord)));
    assert!(matches!(parse_porcelain_status(b"R  new.txt\0"), Err(GateError::MissingRenameSource)));
    assert!(matches!(parse_porcelain_status(b"M  \xff\xfe\0"), Err(GateError::PathNotUtf8)));
}

fn declared_state() -> (PolicyState, String) {
    let mut state = PolicyState::create(
        "session-1".into(),
        "/work/candidate".into(),
        "/var/lib/avm/state".into(),
        FINGERPRINT.into(),
        PolicyConfig::default(),
    )
    .unwrap();
    let declaration = DevelopmentDeclaration::new(
        "change the visible label".into(),
        "the label is static HTML".into(),
        "browser_interaction".into(),
        "browser observer".into(),
        "open the product and inspect the label".into(),
        "the new label is visible".into(),
        "the old label means promotion failed".into(),
        FINGERPRINT.into(),
    )
    .unwrap();
    let id = declaration.id.clone();
    state.declare(declaration, FINGERPRINT).unwrap();
    (state, id)
}

#[test]
fn promotion_checks_come_in_order() {
    let (state, id) = declared_state();
    let changed = vec![ChangedFile { path: "index.html".into(), status: "modified".into() }];
    assert!(promotion_check(&state, &id, FINGERPRINT, FINGERPRINT, "tree", "tree", &changed).is_ok());
    assert!(matches!(
        promotion_check(&state, "other", FINGERPRINT, FINGERPRINT, "tree", "tree", &changed),
        Err(GateError::DeclarationChanged)
    ));
    assert!(matches!(
        promotion_check(&state, &id, FINGERPRINT, "sha256:moved", "tree", "tree", &changed),
        Err(GateError::CandidateChanged)
    ));
    assert!(matches!(
        promotion_check(&state, &id, FINGERPRINT, FINGERPRINT, "tree", "other-tree", &changed),
        Err(GateError::IndexChanged)
    ));
    assert!(matches!(
        promotion_check(&state, &id, FINGERPRINT, FINGERPRINT, "tree", "tree", &Vec::new()),
        Err(GateError::NoMutation)
    ));
    let undeclared = PolicyState::create(
        "session-2".into(),
        "/work/candidate".into(),
        "/var/lib/avm/state".into(),
        FINGERPRINT.into(),
        PolicyConfig::default(),
    )
    .unwrap();
    assert!(matches!(
        promotion_check(&undeclared, &id, FINGERPRINT, FINGERPRINT, "tree", "tree", &changed),
        Err(GateError::Policy(_))
    ));
}

#[test]
fn promotion_outcome_requires_the_staging_fingerprint() {
    let changed = vec![ChangedFile { path: "index.html".into(), status: "modified".into() }];
    let done = promotion_outcome("sha256:before".into(), "sha256:staged".into(), "sha256:staged".into(), changed, "/state/staging/d".into())
        .unwrap();
    assert_eq!(done.before_repository_fingerprint, "sha256:before");
    assert_eq!(done.after_repository_fingerprint, "sha256:staged");
    assert_eq!(done.changed_files.len(), 1);
    assert_eq!(done.staging_workspace, "/state/staging/d");
    let refused = promotion_outcome("sha256:before".into(), "sha256:other".into(), "sha256:staged".into(), Vec::new(), "/s".into());
    match refused {
        Err(error) => assert_eq!(
            error.message(),
            "promoted fingerprint sha256:other differs from staging sha256:staged; candidate was rolled back"
        ),
        Ok(_) => panic!("a mismatched promotion was accepted"),
    }
    assert_eq!(GateError::NoMutation.message(), "staging workspace contains no mutation to promote");
}

#[test]
fn staging_requires_an_unchanged_candidate_with_a_standard_git_directory() {
    let (state, id) = declared_state();
    assert_eq!(staging_check(&state, FINGERPRINT, true).unwrap(), id);
    assert!(matches!(staging_check(&state, "sha256:moved", true), Err(GateError::CandidateChangedBeforeStaging)));
    assert!(matches!(staging_check(&state, FINGERPRINT, false), Err(GateError::NotStandardGit)));
    assert!(staged_copy_check("sha256:a".into(), "sha256:a".into()).is_ok());
    assert_eq!(
        staged_copy_check("sha256:b".into(), "sha256:a".into()).unwrap_err().message(),
        "staging fingerprint sha256:b differs from candidate sha256:a"
    );
}
