use avm::guest_paths::{validate_guest_state_paths, GuestPathError};
use avm::vm::{virtiofsd_args, RunConfig, RunContractError};

fn config() -> RunConfig {
    RunConfig {
        id: "00000000-0000-0000-0000-000000000000".into(),
        base_image: "/images/base.qcow2".into(),
        workspace_root: "/outside/run/workspace".into(),
        candidate_workspace: "/outside/run/workspace/current".into(),
        guest_state_paths: vec![],
        state_dir: "/outside/run".into(),
        memory_mib: 2048,
        cpus: 2,
        width: 1280,
        height: 720,
        host_boot_id: None,
        guest_ssh_port: 2222,
        guest_ssh_user: "avm".into(),
        guest_ssh_private_key: "/keys/guest".into(),
        guest_ssh_host_public_key: "/keys/host.pub".into(),
    }
}

fn strings(items: &[&str]) -> Vec<String> {
    items.iter().map(|s| s.to_string()).collect()
}

#[test]
fn guest_state_paths_must_be_relative_and_disjoint() {
    assert!(validate_guest_state_paths(strings(&["../cache"])).is_err());
    assert!(validate_guest_state_paths(strings(&["cache", "cache/npm"])).is_err());
    assert_eq!(
        validate_guest_state_paths(strings(&["tmp", "cache"])).unwrap(),
        strings(&["cache", "tmp"])
    );
}

#[test]
fn qemu_contract_uses_kvm_qmp_dbus_overlay_and_virtiofs() {
    let config = config();
    let args = config.qemu_args().join(" ");
    assert!(args.contains("q35,accel=kvm"));
    assert!(args.contains("driver=qcow2,node-name=os"));
    assert!(args.contains("-qmp unix:/outside/run/qmp.sock,server=on,wait=off"));
    assert!(args.contains("-display dbus,addr=unix:path=/outside/run/display.sock,gl=off,audiodev=avm-audio"));
    assert!(args.contains("-audiodev dbus,id=avm-audio"));
    assert!(args.contains("-device ich9-intel-hda"));
    assert!(args.contains("-device hda-duplex,audiodev=avm-audio"));
    assert!(args.contains("socket,id=charfs,path=/outside/run/virtiofs.sock"));
    assert!(args.contains("pcie-root-port,id=fs-root-port"));
    assert!(!args.contains("vhost-user-fs-pci"));
    assert!(args.contains("memory-backend-memfd,id=guestmem,size=2048M,share=on"));
    assert!(args.contains("virtio-serial-pci,id=guest-sensors"));
    assert!(args.contains("socket,id=accessibility,path=/outside/run/accessibility.sock,server=on,wait=off"));
    assert!(args.contains("virtserialport,bus=guest-sensors.0,chardev=accessibility,name=org.avm.accessibility"));
    assert!(args.contains("-numa node,memdev=guestmem"));
    assert!(args.contains("usb-tablet"));
    assert!(args.ends_with("-S"));

    let paths = config.paths();
    let virtiofs = virtiofsd_args(&paths, &config.workspace_root, 1001, 1002);
    assert!(virtiofs.contains(&"--sandbox=namespace".to_owned()));
    assert!(virtiofs.contains(&"--uid-map=:1000:1001:1:".to_owned()));
    assert!(virtiofs.contains(&"--gid-map=:1000:1002:1:".to_owned()));
}

#[test]
fn guest_paths_sort_by_components_and_drop_repeats() {
    assert_eq!(
        validate_guest_state_paths(strings(&["a-c", "a/b", "a/b/", "./x"])).unwrap_err(),
        GuestPathError::NotNormalRelative { path: "./x".into() }
    );
    assert_eq!(
        validate_guest_state_paths(strings(&["a-c", "a/b", "a//b/"])).unwrap(),
        strings(&["a/b", "a-c"])
    );
    assert_eq!(
        validate_guest_state_paths(strings(&["var/cache", "var"])).unwrap_err(),
        GuestPathError::Overlap { outer: "var".into(), inner: "var/cache".into() }
    );
    assert!(validate_guest_state_paths(strings(&["/abs"])).is_err());
    assert!(validate_guest_state_paths(strings(&[""])).is_err());
    assert_eq!(validate_guest_state_paths(Vec::new()).unwrap(), Vec::<String>::new());
}

#[test]
fn stored_runs_keep_their_contract() {
    let good = config();
    assert_eq!(good.validate_contract(), Ok(()));
    let mut moved = config();
    moved.workspace_root = "/elsewhere/workspace".into();
    assert_eq!(moved.validate_contract(), Err(RunContractError::WorkspaceRoot));
    let mut trailing = config();
    trailing.workspace_root = "/outside/run/workspace/".into();
    trailing.candidate_workspace = "/outside/run/workspace/current".into();
    assert_eq!(trailing.validate_contract(), Ok(()));
    let mut unsorted = config();
    unsorted.guest_state_paths = strings(&["tmp", "cache"]);
    assert_eq!(unsorted.validate_contract(), Err(RunContractError::GuestPathsNotCanonical));
    let mut user = config();
    user.guest_ssh_user = "root".into();
    assert_eq!(user.validate_contract(), Err(RunContractError::CommandEndpoint));
    let mut relative = config();
    relative.base_image = "images/base.qcow2".into();
    assert_eq!(relative.validate_contract(), Err(RunContractError::RelativePath));
}

#[test]
fn run_files_live_in_the_state_directory() {
    let paths = config().paths();
    assert_eq!(paths.config, "/outside/run/run.json");
    assert_eq!(paths.overlay, "/outside/run/overlay.qcow2");
    assert_eq!(paths.clean_snapshot, "/outside/run/clean.snapshot");
}
