use avm::publication::{
    ensure_digest_matches, ensure_no_active_commands, ensure_no_state_conflict, validate_transfer_request,
    TransferError,
};

const DIGEST: &str = "ABCDEF0123456789abcdef0123456789abcdef0123456789abcdef0123456789";

#[test]
fn transfer_requests_name_a_digest_and_a_fingerprint() {
    let fingerprint = format!("sha256:{}", DIGEST.to_ascii_lowercase());
    assert_eq!(validate_transfer_request(DIGEST, &fingerprint), Ok(()));
    assert_eq!(validate_transfer_request("abc", &fingerprint), Err(TransferError::InvalidDigest));
    assert_eq!(
        validate_transfer_request(DIGEST, DIGEST),
        Err(TransferError::InvalidSourceFingerprint)
    );
    assert_eq!(
        validate_transfer_request(DIGEST, "sha256:xyz"),
        Err(TransferError::InvalidSourceFingerprint)
    );
    assert_eq!(TransferError::InvalidDigest.message(), "invalid SHA-256 digest");
}

#[test]
fn running_guest_commands_block_publication() {
    assert_eq!(ensure_no_active_commands(&vec![]), Ok(()));
    let error = ensure_no_active_commands(&vec!["cmd-1".into(), "cmd-2".into()]).unwrap_err();
    assert_eq!(
        error.message(),
        "workspace publication is blocked by active guest commands: cmd-1, cmd-2"
    );
}

#[test]
fn archive_digest_is_compared_in_lower_case() {
    assert_eq!(ensure_digest_matches(&DIGEST.to_ascii_lowercase(), DIGEST), Ok(()));
    assert_eq!(ensure_digest_matches(DIGEST, DIGEST), Err(TransferError::DigestMismatch));
}

#[test]
fn published_paths_may_not_touch_guest_state() {
    let states = vec!["node_modules".to_string(), "data/cache".to_string()];
    let entries = vec!["src/app.ts".to_string(), "data".to_string()];
    assert_eq!(
        ensure_no_state_conflict(&entries, &states, &[false, false]),
        Err(TransferError::StateConflict("data".into()))
    );
    let inside = vec!["node_modules/x/index.js".to_string()];
    assert_eq!(
        ensure_no_state_conflict(&inside, &states, &[false, false]),
        Err(TransferError::StateConflict("node_modules/x/index.js".into()))
    );
    let near = vec!["node_modules2/a".to_string(), "data/cached".to_string()];
    assert_eq!(ensure_no_state_conflict(&near, &states, &[false, false]), Ok(()));
    assert_eq!(
        ensure_no_state_conflict(&near, &states, &[false, true]),
        Err(TransferError::StateConflict("data/cache".into()))
    );
    assert_eq!(
        TransferError::StateConflict("data".into()).message(),
        "publication path conflicts with declared guest state: data"
    );
}
