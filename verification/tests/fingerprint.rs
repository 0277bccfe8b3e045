use avm::fingerprint::{fingerprint_of, fingerprint_stream, listed_paths, path_less, EntryState, FingerprintKind};

#[test]
fn listed_paths_are_unique_and_in_component_order() {
    let listed = listed_paths(b"b\0a/b\0a.b\0a\0\0a\0");
    assert_eq!(listed, vec![b"a".to_vec(), b"a/b".to_vec(), b"a.b".to_vec(), b"b".to_vec()]);
    assert!(listed_paths(b"\0\0").is_empty());
    assert!(path_less(b"a/b", b"a.b"));
    assert!(!path_less(b"a.b", b"a/b"));
}

fn be(n: u64) -> Vec<u8> {
    n.to_be_bytes().to_vec()
}

fn tagged(name: &[u8], value: &[u8]) -> Vec<u8> {
    let mut out = be(name.len() as u64);
    out.extend_from_slice(name);
    out.extend(be(value.len() as u64));
    out.extend_from_slice(value);
    out
}

#[test]
fn directory_stream_tags_format_path_type_mode_and_content() {
    let entries = vec![(b"run.sh".to_vec(), EntryState::File { executable: true, content: b"#!/bin/sh\n".to_vec() })];
    let stream = fingerprint_stream(FingerprintKind::Directory, b"", b"", &entries);
    let mut expected = tagged(b"format", b"avm-directory-v1");
    expected.extend(tagged(b"path", b"run.sh"));
    expected.extend(tagged(b"type", b"file"));
    expected.extend(tagged(b"executable", b"1"));
    expected.extend(tagged(b"content", b"#!/bin/sh\n"));
    assert_eq!(stream, expected);
}

#[test]
fn git_stream_records_head_index_and_every_kind_of_entry() {
    let entries = vec![
        (b"gone".to_vec(), EntryState::Deleted),
        (b"link".to_vec(), EntryState::Symlink { target: b"gone".to_vec() }),
        (b"pipe".to_vec(), EntryState::Other),
    ];
    let stream = fingerprint_stream(FingerprintKind::Git, b"UNBORN\n", b"", &entries);
    let mut expected = tagged(b"format", b"avm-working-tree-v1");
    expected.extend(tagged(b"head", b"UNBORN\n"));
    expected.extend(tagged(b"index", b""));
    expected.extend(tagged(b"path", b"gone"));
    expected.extend(tagged(b"type", b"deleted"));
    expected.extend(tagged(b"path", b"link"));
    expected.extend(tagged(b"type", b"symlink"));
    expected.extend(tagged(b"target", b"gone"));
    expected.extend(tagged(b"path", b"pipe"));
    expected.extend(tagged(b"type", b"other"));
    assert_eq!(stream, expected);
}

#[test]
fn fingerprints_change_with_mode_and_content() {
    let file = |executable: bool, content: &[u8]| {
        vec![(b"mode.sh".to_vec(), EntryState::File { executable, content: content.to_vec() })]
    };
    let base = fingerprint_of(&fingerprint_stream(FingerprintKind::Git, b"head\n", b"index", &file(false, b"one\n")));
    let same = fingerprint_of(&fingerprint_stream(FingerprintKind::Git, b"head\n", b"index", &file(false, b"one\n")));
    let mode = fingerprint_of(&fingerprint_stream(FingerprintKind::Git, b"head\n", b"index", &file(true, b"one\n")));
    let content = fingerprint_of(&fingerprint_stream(FingerprintKind::Git, b"head\n", b"index", &file(false, b"two\n")));
    assert_eq!(base, same);
    assert_ne!(base, mode);
    assert_ne!(base, content);
    assert!(base.starts_with("sha256:"));
    assert_eq!(base.len(), 71);
}

#[test]
fn fingerprint_of_the_empty_record_is_the_empty_digest() {
    assert_eq!(
        fingerprint_of(b""),
        "sha256:e3b0c44298fc1c149afbf4c8996fb92427ae41e4649b934ca495991b7852b855"
    );
}
