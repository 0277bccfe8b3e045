use avm::publish::{
    apply_transfer_arguments, check_archived_fingerprint, prepare_transfer_arguments, publication_status_arguments,
    remote_archive_path, transfer_file_names, upload_arguments, PublishError,
};

#[test]
fn remote_commands_name_the_run_and_transfer() {
    assert_eq!(publication_status_arguments("/srv/run"), vec!["publication-status", "--run", "/srv/run"]);
    assert_eq!(
        prepare_transfer_arguments("/srv/run", "t-1"),
        vec!["prepare-transfer", "--run", "/srv/run", "--transfer-id", "t-1"]
    );
    assert_eq!(
        apply_transfer_arguments("/srv/run", "t-1", "abcd", "sha256:ff"),
        vec![
            "apply-transfer", "--run", "/srv/run", "--transfer-id", "t-1", "--sha256", "abcd",
            "--source-fingerprint", "sha256:ff"
        ]
    );
}

#[test]
fn upload_targets_the_instance_path() {
    assert_eq!(
        upload_arguments("proj", "us-central1-a", "/tmp/t.tar", "vm-1", "/srv/incoming/t.tar"),
        vec![
            "compute", "scp", "--quiet", "--project", "proj", "--zone", "us-central1-a", "/tmp/t.tar",
            "vm-1:/srv/incoming/t.tar"
        ]
    );
    assert_eq!(transfer_file_names("t-1"), ("t-1.tar".to_string(), "t-1.files".to_string()));
}

#[test]
fn publication_checks_the_archive_and_remote_path() {
    assert_eq!(check_archived_fingerprint("sha256:aa", "sha256:aa"), Ok(()));
    assert_eq!(check_archived_fingerprint("sha256:ab", "sha256:aa"), Err(PublishError::SourceChanged));
    assert_eq!(remote_archive_path("  /srv/incoming/t.tar\n"), Ok("/srv/incoming/t.tar".to_string()));
    assert_eq!(remote_archive_path(" \n"), Err(PublishError::EmptyRemotePath));
    assert_eq!(PublishError::EmptyRemotePath.message(), "remote transfer path is empty");
    assert_eq!(
        PublishError::SourceChanged.message(),
        "source changed while publication archive was created; retry"
    );
}
