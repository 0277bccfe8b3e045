use avm::event::Provenance;
use avm::policy::{
    command_verdict, ChangedFile, DevelopmentDeclaration, DiagnosisPlan, DiagnosisPlanInput,
    EvidenceRecord, EvidenceVerdict, PolicyConfig, PolicyErrorOf, PolicyPhase, PolicyState,
};

const CANDIDATE: &str = "/work/candidate";
const FINGERPRINT: &str = "sha256:0000000000000000000000000000000000000000000000000000000000000001";

fn state() -> PolicyState {
    PolicyState::create(
        "session-1".into(),
        CANDIDATE.into(),
        "/var/lib/avm/state".into(),
        FINGERPRINT.into(),
        PolicyConfig::default(),
    )
    .unwrap()
}

fn declaration(fingerprint: String) -> DevelopmentDeclaration {
    DevelopmentDeclaration::new(
        "disable Save while its request is pending".into(),
        "duplicate dispatch occurs because both handlers remain active".into(),
        "browser_interaction".into(),
        "Playwright plus network observer".into(),
        "click Save once and count POST /api/document requests".into(),
        "one POST occurs and the button remains disabled until response".into(),
        "two POSTs mean duplicate event dispatch remains".into(),
        fingerprint,
    )
    .unwrap()
}

fn evidence(state: &PolicyState, verdict: EvidenceVerdict) -> EvidenceRecord {
    EvidenceRecord {
        id: "evidence-1".into(),
        session_id: state.session_id.clone(),
        repository_fingerprint: state.current_repository_fingerprint.clone(),
        claim: "Save dispatch is single-shot".into(),
        prediction: "one POST".into(),
        contradiction_meaning: "two POSTs indicate duplicate dispatch".into(),
        observation_type: "browser_interaction".into(),
        instrument: "Playwright network observer".into(),
        started_at: "2026-01-01T00:00:00Z".into(),
        completed_at: "2026-01-01T00:00:01Z".into(),
        action_or_command: "click Save once".into(),
        working_directory: None,
        environment_identity: Some("test".into()),
        exit_code: None,
        raw_artifacts: vec!["sha256:raw".into()],
        supporting_event_ids: Vec::new(),
        observed_result: "two POST requests".into(),
        verdict,
        provenance: Provenance::Observed,
    }
}

#[test]
fn declaration_is_required_and_vague_observations_are_rejected() {
    let mut state = state();
    assert!(state.ensure_mutation_allowed().is_err());
    let vague = DevelopmentDeclaration::new(
        "change behavior".into(),
        "a handler is wrong".into(),
        "test".into(),
        "test runner".into(),
        "verify it works".into(),
        "it works".into(),
        "it does not".into(),
        state.current_repository_fingerprint.clone(),
    );
    assert!(vague.is_err());
    state
        .declare(declaration(state.current_repository_fingerprint.clone()), FINGERPRINT)
        .unwrap();
    state.ensure_mutation_allowed().unwrap();
}

#[test]
fn debt_is_fingerprint_bound_and_subsystem_requirements_are_explainable() {
    let mut state = state();
    let before = state.current_repository_fingerprint.clone();
    state.declare(declaration(before.clone()), &before).unwrap();
    let after = "sha256:0000000000000000000000000000000000000000000000000000000000000002".to_string();
    state
        .record_mutation(
            &before,
            after.clone(),
            &[ChangedFile { path: "app.tsx".into(), status: "modified".into() }],
        )
        .unwrap();
    assert_eq!(state.current_repository_fingerprint, after);
    assert!(state.debt >= 4);
    assert!(state.required_observations.contains(&"browser_interaction".to_string()));
    assert!(state.required_observations.contains(&"targeted_test".to_string()));
    assert!(state.required_observations.contains(&"type_check".to_string()));
    assert!(state.block_reasons().iter().any(|reason| reason.contains("ui_interaction")));
}

#[test]
fn failed_evidence_requires_diagnosis_and_new_observation_before_editing() {
    let mut state = state();
    let contradicted = evidence(&state, EvidenceVerdict::Contradicted);
    state.record_evidence(&contradicted).unwrap();
    assert_eq!(state.phase, PolicyPhase::EvidenceFailed);
    assert!(state.record_evidence(&contradicted).is_err());
    state
        .register_diagnosis(DiagnosisPlan {
            suspected_layer: "browser event dispatch".into(),
            causal_hypothesis: "both click handlers remain registered".into(),
            observation_type: "browser_interaction".into(),
            instrument: "Playwright network observer".into(),
            action_or_command: "click Save once and count requests".into(),
            predicted_outcomes: "one request refutes duplication; two supports it".into(),
            created_at: "2026-01-01T00:00:02Z".into(),
        })
        .unwrap();
    assert_eq!(state.phase, PolicyPhase::DiagnosticObservationRequired);
    let diagnostic = evidence(&state, EvidenceVerdict::Inconclusive);
    state.record_evidence(&diagnostic).unwrap();
    assert_eq!(state.phase, PolicyPhase::AwaitingDeclaration);
}

#[test]
fn state_inside_the_candidate_is_refused() {
    let inside = PolicyState::create(
        "s".into(),
        CANDIDATE.into(),
        "/work/candidate/.avm".into(),
        FINGERPRINT.into(),
        PolicyConfig::default(),
    );
    assert!(matches!(inside, Err(PolicyErrorOf::StateInsideCandidate)));
    let sibling = PolicyState::create(
        "s".into(),
        CANDIDATE.into(),
        "/work/candidate-state".into(),
        FINGERPRINT.into(),
        PolicyConfig::default(),
    );
    assert!(sibling.is_ok());
}

#[test]
fn declarations_bind_to_the_observed_fingerprint() {
    let mut state = state();
    let stale = declaration("sha256:other".into());
    assert!(state.declare(stale, FINGERPRINT).is_err());
    assert_eq!(state.phase, PolicyPhase::AwaitingDeclaration);
    let fresh = declaration(FINGERPRINT.into());
    assert!(state.declare(fresh, "sha256:moved").is_err());
    assert_eq!(state.phase, PolicyPhase::AwaitingDeclaration);
}

#[test]
fn diagnosis_is_only_accepted_after_failed_evidence() {
    let mut state = state();
    let plan = DiagnosisPlanInput {
        suspected_layer: "network layer".into(),
        causal_hypothesis: "the request is sent twice".into(),
        observation_type: "browser_interaction".into(),
        instrument: "network observer".into(),
        action_or_command: "click once and count requests".into(),
        predicted_outcomes: "one request refutes it".into(),
    }
    .into_plan();
    assert!(state.register_diagnosis(plan).is_err());
    assert_eq!(state.phase, PolicyPhase::AwaitingDeclaration);
}

#[test]
fn command_verdicts_follow_exit_status_and_repository_state() {
    assert_eq!(command_verdict("a", "a", Some(0), 0), EvidenceVerdict::Supported);
    assert_eq!(command_verdict("a", "a", Some(1), 0), EvidenceVerdict::Contradicted);
    assert_eq!(command_verdict("a", "b", Some(0), 0), EvidenceVerdict::Inconclusive);
    assert_eq!(command_verdict("a", "a", None, 0), EvidenceVerdict::Inconclusive);
}

#[test]
fn default_policy_configuration_is_valid() {
    assert!(PolicyConfig::default().validate().is_ok());
}
