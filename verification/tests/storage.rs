use avm::storage::{artifact_reference, content_matches, parse_ref, validate_digest, ArtifactError, ArtifactStore};

const EMPTY: &str = "e3b0c44298fc1c149afbf4c8996fb92427ae41e4649b934ca495991b7852b855";

#[test]
fn references_name_content_by_its_digest() {
    assert_eq!(artifact_reference(b""), format!("sha256:{EMPTY}"));
    assert!(content_matches(b"", EMPTY));
    assert!(!content_matches(b"x", EMPTY));
}

#[test]
fn artifact_paths_shard_by_the_first_two_digits() {
    let store = ArtifactStore::with_root("/artifacts");
    assert_eq!(
        store.path(&format!("sha256:{EMPTY}")).unwrap(),
        format!("/artifacts/sha256/e3/{EMPTY}")
    );
    assert_eq!(store.path("md5:abc").unwrap_err(), ArtifactError::MissingPrefix);
    assert_eq!(store.path("sha256:abc").unwrap_err(), ArtifactError::InvalidDigest);
    assert_eq!(store.root(), "/artifacts");
}

#[test]
fn digests_are_exactly_sixty_four_hex_characters() {
    assert!(validate_digest(EMPTY).is_ok());
    assert!(validate_digest(&EMPTY.to_uppercase()).is_ok());
    assert!(validate_digest(&EMPTY[..63]).is_err());
    assert!(validate_digest(&format!("{}g", &EMPTY[..63])).is_err());
    assert_eq!(parse_ref(&format!("sha256:{EMPTY}")).unwrap(), EMPTY);
    assert_eq!(ArtifactError::InvalidDigest.message(), "invalid SHA-256 artifact digest");
}
