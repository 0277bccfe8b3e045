use avm::digest::sha256_hex_string;
use avm::run_setup::{
    check_base_digest, check_base_file, check_keys, check_state_root, check_workspace, sidecar_digest, RunSetupError,
};
use avm::vm::RunConfig;

#[test]
fn state_inside_candidate_is_refused() {
    let err = check_state_root("/tmp/work/state", "/tmp/work").err().unwrap();
    assert!(err.message().contains("outside"));
    assert_eq!(check_state_root("/tmp/work-state", "/tmp/work"), Ok(()));
}

#[test]
fn base_image_inside_candidate_is_refused() {
    let err = check_workspace(true, "/tmp/work/base.qcow2", "/tmp/work").err().unwrap();
    assert!(err.message().contains("base image must be outside"));
    assert_eq!(check_workspace(false, "/images/base.qcow2", "/tmp/work"), Err(RunSetupError::CandidateNotDirectory));
    assert_eq!(check_workspace(true, "/images/base.qcow2", "/tmp/work"), Ok(()));
}

#[test]
fn base_checksum_sidecar_is_checked() {
    let digest = sha256_hex_string(b"base bytes");
    let sidecar = format!("{}  base.qcow2\n", digest.to_uppercase());
    let expected = sidecar_digest(&sidecar).unwrap();
    assert_eq!(expected, digest);
    assert_eq!(check_base_digest(&sha256_hex_string(b"base bytes"), &expected), Ok(()));
    assert_eq!(
        check_base_digest(&sha256_hex_string(b"tampered"), &expected),
        Err(RunSetupError::BaseDigestMismatch)
    );
    assert_eq!(sidecar_digest(" \n"), Err(RunSetupError::ChecksumEmpty));
    assert_eq!(sidecar_digest("abc base.qcow2"), Err(RunSetupError::ChecksumInvalid));
    let bad = format!("{}g", &digest[..63]);
    assert_eq!(sidecar_digest(&bad), Err(RunSetupError::ChecksumInvalid));
    assert_eq!(check_base_file(false), Err(RunSetupError::BaseNotFile));
    assert_eq!(check_keys(true, false).err().unwrap().message(), "guest SSH host public key must be a file");
    assert_eq!(check_keys(false, true), Err(RunSetupError::PrivateKeyNotFile));
    assert_eq!(check_keys(true, true), Ok(()));
}

#[test]
fn new_runs_start_with_the_standard_machine() {
    let config = RunConfig::assemble(
        "0190f1a2-0000-7000-8000-000000000001",
        "/images/base.qcow2",
        "/var/lib/avm",
        vec!["cache".into()],
        "/keys/guest",
        "/keys/host.pub",
        Some("boot".into()),
    );
    assert_eq!(config.state_dir, "/var/lib/avm/0190f1a2-0000-7000-8000-000000000001");
    assert_eq!(config.workspace_root, "/var/lib/avm/0190f1a2-0000-7000-8000-000000000001/workspace");
    assert_eq!(config.candidate_workspace, "/var/lib/avm/0190f1a2-0000-7000-8000-000000000001/workspace/current");
    assert_eq!((config.memory_mib, config.cpus, config.width, config.height), (4096, 4, 1280, 720));
    assert_eq!((config.guest_ssh_port, config.guest_ssh_user.as_str()), (2222, "avm"));
    assert_eq!(config.guest_state_paths, vec!["cache".to_string()]);
}
