//! The run contract of a virtual machine: where a run keeps its files, the QEMU and
//! virtiofsd command lines it launches, and the invariants a stored run must keep.
use vstd::prelude::*;
use crate::guest_paths::{validate_guest_state_paths, GuestPathError};
use crate::paths::{absolute, components, is_absolute, join, path_join, same_path};
use crate::text::{views, decimal, push_decimal, push_str, str_equal};

verus! {

broadcast use vstd::string::group_string_axioms;

/// The guest user that owns the shared workspace.
pub const GUEST_WORKSPACE_UID: u32 = 1000;
/// The guest group that owns the shared workspace.
pub const GUEST_WORKSPACE_GID: u32 = 1000;

/// A recorded run: the image it boots, the workspace it shares, and where it keeps state.
#[derive(Clone, Debug)]
pub struct RunConfig {
    pub id: String,
    pub base_image: String,
    pub workspace_root: String,
    pub candidate_workspace: String,
    pub guest_state_paths: Vec<String>,
    pub state_dir: String,
    pub memory_mib: u32,
    pub cpus: u8,
    pub width: u32,
    pub height: u32,
    pub host_boot_id: Option<String>,
    pub guest_ssh_port: u16,
    pub guest_ssh_user: String,
    pub guest_ssh_private_key: String,
    pub guest_ssh_host_public_key: String,
}

/// The files of a run's state directory.
#[derive(Clone, Debug)]
pub struct RunPaths {
    pub config: String,
    pub overlay: String,
    pub qmp_socket: String,
    pub display_socket: String,
    pub accessibility_socket: String,
    pub dbus_pid: String,
    pub dbus_log: String,
    pub virtiofs_socket: String,
    pub qemu_pid: String,
    pub virtiofs_pid: String,
    pub qemu_log: String,
    pub virtiofs_log: String,
    pub events: String,
    pub timeline: String,
    pub artifacts: String,
    pub clean_snapshot: String,
}

/// The file named `name` in a state directory.
pub open spec fn state_file(dir: Seq<char>, name: Seq<char>) -> Seq<char> {
    path_join(dir, name)
}

/// Why a stored run was refused.
#[derive(Clone, Debug, PartialEq, Eq)]
pub enum RunContractError {
    WorkspaceRoot,
    CandidateLink,
    GuestPaths { error: GuestPathError },
    GuestPathsNotCanonical,
    CommandEndpoint,
    RelativePath,
}

/// The stored run's first broken invariant, if any, with the outcome of checking its
/// guest state paths.
pub open spec fn contract_outcome(c: RunConfig, guest: Result<Vec<String>, GuestPathError>) -> Option<
    RunContractError,
> {
    if components(c.workspace_root@) != components(path_join(c.state_dir@, "workspace"@)) {
        Some(RunContractError::WorkspaceRoot)
    } else if components(c.candidate_workspace@) != components(
        path_join(c.workspace_root@, "current"@),
    ) {
        Some(RunContractError::CandidateLink)
    } else {
        match guest {
            Err(e) => Some(RunContractError::GuestPaths { error: e }),
            Ok(v) => if !same_paths(v@, c.guest_state_paths@) {
                Some(RunContractError::GuestPathsNotCanonical)
            } else if !(c.guest_ssh_port == 2222 && c.guest_ssh_user@ == "avm"@) {
                Some(RunContractError::CommandEndpoint)
            } else if !(is_absolute(c.base_image@) && is_absolute(c.state_dir@) && is_absolute(
                c.guest_ssh_private_key@,
            ) && is_absolute(c.guest_ssh_host_public_key@)) {
                Some(RunContractError::RelativePath)
            } else {
                None
            },
        }
    }
}

/// Equal lists of paths, compared as `Vec<PathBuf>` is: same length, equal components.
pub open spec fn same_paths(a: Seq<String>, b: Seq<String>) -> bool {
    a.len() == b.len() && forall|i: int| 0 <= i < a.len() ==> components(#[trigger] a[i]@) == components(
        b[i]@,
    )
}

fn owned(s: &str) -> (r: String)
    ensures
        r@ == s@,
{
    let mut o = String::new();
    push_str(&mut o, s);
    o
}

/// A copy of a list of strings.
pub fn copy_strings(v: &Vec<String>) -> (r: Vec<String>)
    ensures
        views(r@) == views(v@),
{
    let mut out: Vec<String> = Vec::new();
    let mut i: usize = 0;
    while i < v.len()
        invariant
            i <= v@.len(),
            out@.len() == i,
            forall|k: int| 0 <= k < i ==> #[trigger] out@[k]@ == v@[k]@,
        decreases v@.len() - i,
    {
        out.push(owned(v[i].as_str()));
        i = i + 1;
    }
    assert(views(out@) =~= views(v@));
    out
}

/// Whether two lists of paths are equal as `Vec<PathBuf>`s are.
pub fn same_path_lists(a: &Vec<String>, b: &Vec<String>) -> (r: bool)
    ensures
        r == same_paths(a@, b@),
{
    if a.len() != b.len() {
        return false;
    }
    let mut i: usize = 0;
    while i < a.len()
        invariant
            a@.len() == b@.len(),
            i <= a@.len(),
            forall|k: int| 0 <= k < i ==> components(#[trigger] a@[k]@) == components(b@[k]@),
        decreases a@.len() - i,
    {
        if !same_path(a[i].as_str(), b[i].as_str()) {
            return false;
        }
        i = i + 1;
    }
    true
}

fn cat(a: &str, b: &str) -> (r: String)
    ensures
        r@ == a@ + b@,
{
    let mut o = String::new();
    push_str(&mut o, a);
    push_str(&mut o, b);
    o
}

fn cat3(a: &str, b: &str, c: &str) -> (r: String)
    ensures
        r@ == a@ + b@ + c@,
{
    let mut o = String::new();
    push_str(&mut o, a);
    push_str(&mut o, b);
    push_str(&mut o, c);
    o
}

fn number(n: u64) -> (r: String)
    ensures
        r@ == decimal(n as nat),
{
    let mut o = String::new();
    push_decimal(&mut o, n);
    o
}

/// The QEMU command line of a run: KVM on q35, memory backed by a shared memfd, a
/// virtio GPU shown over D-Bus with audio, USB keyboard and tablet, the guest sensor
/// serial port, the overlay disk, the virtiofs socket, user networking that forwards the
/// guest's SSH and DevTools ports, a QMP socket, and a stopped CPU (`-S`).
pub open spec fn qemu_args_spec(c: RunConfig, p: RunPaths) -> Seq<Seq<char>> {
    seq![
        "-name"@,
        "avm-"@ + c.id@,
        "-machine"@,
        "q35,accel=kvm"@,
        "-cpu"@,
        "host"@,
        "-m"@,
        decimal(c.memory_mib as nat),
        "-object"@,
        "memory-backend-memfd,id=guestmem,size="@ + decimal(c.memory_mib as nat) + "M,share=on"@,
        "-numa"@,
        "node,memdev=guestmem"@,
        "-smp"@,
        decimal(c.cpus as nat),
        "-nodefaults"@,
        "-device"@,
        "virtio-vga"@,
        "-device"@,
        "qemu-xhci"@,
        "-device"@,
        "usb-kbd"@,
        "-device"@,
        "usb-tablet"@,
        "-device"@,
        "virtio-serial-pci,id=guest-sensors"@,
        "-chardev"@,
        "socket,id=accessibility,path="@ + p.accessibility_socket@ + ",server=on,wait=off"@,
        "-device"@,
        "virtserialport,bus=guest-sensors.0,chardev=accessibility,name=org.avm.accessibility"@,
        "-blockdev"@,
        "driver=qcow2,node-name=os,file.driver=file,file.filename="@ + p.overlay@,
        "-device"@,
        "virtio-blk-pci,drive=os"@,
        "-chardev"@,
        "socket,id=charfs,path="@ + p.virtiofs_socket@,
        "-device"@,
        "pcie-root-port,id=fs-root-port"@,
        "-netdev"@,
        "user,id=net0,hostfwd=tcp:127.0.0.1:2222-:22,hostfwd=tcp:127.0.0.1:9222-:9222"@,
        "-device"@,
        "virtio-net-pci,netdev=net0"@,
        "-qmp"@,
        "unix:"@ + p.qmp_socket@ + ",server=on,wait=off"@,
        "-display"@,
        "dbus,addr=unix:path="@ + p.display_socket@ + ",gl=off,audiodev=avm-audio"@,
        "-audiodev"@,
        "dbus,id=avm-audio"@,
        "-device"@,
        "ich9-intel-hda"@,
        "-device"@,
        "hda-duplex,audiodev=avm-audio"@,
        "-boot"@,
        "order=c"@,
        "-no-reboot"@,
        "-S"@,
    ]
}

/// The virtiofsd command line that shares the candidate, mapping the guest workspace
/// owner onto the host user and group.
pub open spec fn virtiofsd_args_spec(p: RunPaths, candidate: Seq<char>, host_uid: u32, host_gid: u32) -> Seq<
    Seq<char>,
> {
    seq![
        "--socket-path="@ + p.virtiofs_socket@,
        "--shared-dir="@ + candidate,
        "--sandbox=namespace"@,
        "--uid-map=:1000:"@ + decimal(host_uid as nat) + ":1:"@,
        "--gid-map=:1000:"@ + decimal(host_gid as nat) + ":1:"@,
    ]
}

/// The virtiofsd command line of a run.
pub fn virtiofsd_args(paths: &RunPaths, candidate_workspace: &str, host_uid: u32, host_gid: u32) -> (r:
    Vec<String>)
    ensures
        views(r@) == virtiofsd_args_spec(*paths, candidate_workspace@, host_uid, host_gid),
{
    let mut uid = owned("--uid-map=:1000:");
    push_decimal(&mut uid, host_uid as u64);
    push_str(&mut uid, ":1:");
    let mut gid = owned("--gid-map=:1000:");
    push_decimal(&mut gid, host_gid as u64);
    push_str(&mut gid, ":1:");
    let v = vec![
        cat("--socket-path=", paths.virtiofs_socket.as_str()),
        cat("--shared-dir=", candidate_workspace),
        owned("--sandbox=namespace"),
        uid,
        gid,
    ];
    assert(views(v@) =~= virtiofsd_args_spec(*paths, candidate_workspace@, host_uid, host_gid));
    v
}

impl RunConfig {
    /// The files of the run's state directory.
    pub fn paths(&self) -> (r: RunPaths)
        ensures
            r.config@ == state_file(self.state_dir@, "run.json"@),
            r.overlay@ == state_file(self.state_dir@, "overlay.qcow2"@),
            r.qmp_socket@ == state_file(self.state_dir@, "qmp.sock"@),
            r.display_socket@ == state_file(self.state_dir@, "display.sock"@),
            r.accessibility_socket@ == state_file(self.state_dir@, "accessibility.sock"@),
            r.dbus_pid@ == state_file(self.state_dir@, "dbus.pid"@),
            r.dbus_log@ == state_file(self.state_dir@, "dbus.log"@),
            r.virtiofs_socket@ == state_file(self.state_dir@, "virtiofs.sock"@),
            r.qemu_pid@ == state_file(self.state_dir@, "qemu.pid"@),
            r.virtiofs_pid@ == state_file(self.state_dir@, "virtiofs.pid"@),
            r.qemu_log@ == state_file(self.state_dir@, "qemu.log"@),
            r.virtiofs_log@ == state_file(self.state_dir@, "virtiofs.log"@),
            r.events@ == state_file(self.state_dir@, "events.jsonl"@),
            r.timeline@ == state_file(self.state_dir@, "timeline.sqlite3"@),
            r.artifacts@ == state_file(self.state_dir@, "artifacts"@),
            r.clean_snapshot@ == state_file(self.state_dir@, "clean.snapshot"@),
    {
        let d = self.state_dir.as_str();
        RunPaths {
            config: join(d, "run.json"),
            overlay: join(d, "overlay.qcow2"),
            qmp_socket: join(d, "qmp.sock"),
            display_socket: join(d, "display.sock"),
            accessibility_socket: join(d, "accessibility.sock"),
            dbus_pid: join(d, "dbus.pid"),
            dbus_log: join(d, "dbus.log"),
            virtiofs_socket: join(d, "virtiofs.sock"),
            qemu_pid: join(d, "qemu.pid"),
            virtiofs_pid: join(d, "virtiofs.pid"),
            qemu_log: join(d, "qemu.log"),
            virtiofs_log: join(d, "virtiofs.log"),
            events: join(d, "events.jsonl"),
            timeline: join(d, "timeline.sqlite3"),
            artifacts: join(d, "artifacts"),
            clean_snapshot: join(d, "clean.snapshot"),
        }
    }

    /// The QEMU command line of the run.
    pub fn qemu_args(&self) -> (r: Vec<String>)
        ensures
            exists|p: RunPaths|
                p.accessibility_socket@ == state_file(self.state_dir@, "accessibility.sock"@)
                    && p.overlay@ == state_file(self.state_dir@, "overlay.qcow2"@)
                    && p.virtiofs_socket@ == state_file(self.state_dir@, "virtiofs.sock"@)
                    && p.qmp_socket@ == state_file(self.state_dir@, "qmp.sock"@)
                    && p.display_socket@ == state_file(self.state_dir@, "display.sock"@)
                    && views(r@) == qemu_args_spec(*self, p),
    {
        let paths = self.paths();
        let mem = number(self.memory_mib as u64);
        let mut backend = owned("memory-backend-memfd,id=guestmem,size=");
        push_decimal(&mut backend, self.memory_mib as u64);
        push_str(&mut backend, "M,share=on");
        let v = vec![
            owned("-name"),
            cat("avm-", self.id.as_str()),
            owned("-machine"),
            owned("q35,accel=kvm"),
            owned("-cpu"),
            owned("host"),
            owned("-m"),
            mem,
            owned("-object"),
            backend,
            owned("-numa"),
            owned("node,memdev=guestmem"),
            owned("-smp"),
            number(self.cpus as u64),
            owned("-nodefaults"),
            owned("-device"),
            owned("virtio-vga"),
            owned("-device"),
            owned("qemu-xhci"),
            owned("-device"),
            owned("usb-kbd"),
            owned("-device"),
            owned("usb-tablet"),
            owned("-device"),
            owned("virtio-serial-pci,id=guest-sensors"),
            owned("-chardev"),
            cat3(
                "socket,id=accessibility,path=",
                paths.accessibility_socket.as_str(),
                ",server=on,wait=off",
            ),
            owned("-device"),
            owned(
                "virtserialport,bus=guest-sensors.0,chardev=accessibility,name=org.avm.accessibility",
            ),
            owned("-blockdev"),
            cat("driver=qcow2,node-name=os,file.driver=file,file.filename=", paths.overlay.as_str()),
            owned("-device"),
            owned("virtio-blk-pci,drive=os"),
            owned("-chardev"),
            cat("socket,id=charfs,path=", paths.virtiofs_socket.as_str()),
            owned("-device"),
            owned("pcie-root-port,id=fs-root-port"),
            owned("-netdev"),
            owned("user,id=net0,hostfwd=tcp:127.0.0.1:2222-:22,hostfwd=tcp:127.0.0.1:9222-:9222"),
            owned("-device"),
            owned("virtio-net-pci,netdev=net0"),
            owned("-qmp"),
            cat3("unix:", paths.qmp_socket.as_str(), ",server=on,wait=off"),
            owned("-display"),
            cat3(
                "dbus,addr=unix:path=",
                paths.display_socket.as_str(),
                ",gl=off,audiodev=avm-audio",
            ),
            owned("-audiodev"),
            owned("dbus,id=avm-audio"),
            owned("-device"),
            owned("ich9-intel-hda"),
            owned("-device"),
            owned("hda-duplex,audiodev=avm-audio"),
            owned("-boot"),
            owned("order=c"),
            owned("-no-reboot"),
            owned("-S"),
        ];
        assert(views(v@) =~= qemu_args_spec(*self, paths));
        v
    }

    /// Checks the invariants of a stored run: its workspace root and candidate link are
    /// where the run puts them, its guest state paths are already in canonical form, its
    /// command endpoint matches the image, and its host paths are absolute.
    pub fn validate_contract(&self) -> (r: Result<(), RunContractError>)
        ensures
            exists|guest: Result<Vec<String>, GuestPathError>|
                #[trigger] crate::guest_paths::guest_paths_outcome(
                    views(self.guest_state_paths@),
                    guest,
                ) && match contract_outcome(*self, guest) {
                    Some(e) => r == Err::<(), RunContractError>(e),
                    None => r is Ok,
                },
    {
        let expected_root = join(self.state_dir.as_str(), "workspace");
        let expected_candidate = join(self.workspace_root.as_str(), "current");
        let copy = copy_strings(&self.guest_state_paths);
        let guest = validate_guest_state_paths(copy);
        if !same_path(self.workspace_root.as_str(), expected_root.as_str()) {
            return Err(RunContractError::WorkspaceRoot);
        }
        if !same_path(self.candidate_workspace.as_str(), expected_candidate.as_str()) {
            return Err(RunContractError::CandidateLink);
        }
        let canonical = match guest {
            Err(e) => {
                return Err(RunContractError::GuestPaths { error: e });
            },
            Ok(v) => v,
        };
        if !same_path_lists(&canonical, &self.guest_state_paths) {
            return Err(RunContractError::GuestPathsNotCanonical);
        }
        if !(self.guest_ssh_port == 2222 && str_equal(self.guest_ssh_user.as_str(), "avm")) {
            return Err(RunContractError::CommandEndpoint);
        }
        if !(absolute(self.base_image.as_str()) && absolute(self.state_dir.as_str()) && absolute(
            self.guest_ssh_private_key.as_str(),
        ) && absolute(self.guest_ssh_host_public_key.as_str())) {
            return Err(RunContractError::RelativePath);
        }
        Ok(())
    }
}

} // verus!
