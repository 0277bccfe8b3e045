//! The readiness checks of a run: what each check reports for what its probe found. The
//! probes themselves (processes, sockets, files) are made by the caller.
use vstd::prelude::*;
use crate::doctor::{CheckStatus, Remediation};
use crate::text::{decimal, push_decimal, push_str, str_equal, views};

verus! {

broadcast use vstd::string::group_string_axioms;

/// A value of a check's evidence.
#[derive(Clone, Debug)]
pub enum EvidenceValue {
    Text(String),
    Flag(bool),
    Number(u64),
    Texts(Vec<String>),
}

/// A check's evidence: named values, or a document returned by the probed service.
#[derive(Debug)]
pub enum Evidence {
    Fields(Vec<(&'static str, EvidenceValue)>),
    Raw(serde_json::Value),
}

/// A check as the run's doctor decided it.
#[derive(Debug)]
pub struct CheckPlan {
    pub id: &'static str,
    pub status: CheckStatus,
    pub required: bool,
    pub summary: &'static str,
    pub evidence: Evidence,
    pub remediation: Vec<Remediation>,
}

/// The abstract content of an evidence value.
pub enum ValueView {
    Text(Seq<char>),
    Flag(bool),
    Number(u64),
    Texts(Seq<Seq<char>>),
}

/// The abstract content of evidence.
pub enum EvidenceView {
    Fields(Seq<(Seq<char>, ValueView)>),
    Raw(serde_json::Value),
}

/// The abstract content of a check.
pub struct PlanView {
    pub id: Seq<char>,
    pub status: CheckStatus,
    pub required: bool,
    pub summary: Seq<char>,
    pub evidence: EvidenceView,
    pub remediation: Seq<(Seq<char>, Seq<Seq<char>>)>,
}

impl View for EvidenceValue {
    type V = ValueView;

    open spec fn view(&self) -> ValueView {
        match self {
            EvidenceValue::Text(s) => ValueView::Text(s@),
            EvidenceValue::Flag(b) => ValueView::Flag(*b),
            EvidenceValue::Number(n) => ValueView::Number(*n),
            EvidenceValue::Texts(v) => ValueView::Texts(views(v@)),
        }
    }
}

impl View for Evidence {
    type V = EvidenceView;

    open spec fn view(&self) -> EvidenceView {
        match self {
            Evidence::Fields(fs) => EvidenceView::Fields(field_views(fs@)),
            Evidence::Raw(v) => EvidenceView::Raw(*v),
        }
    }
}

/// The abstract content of named evidence values.
pub open spec fn field_views(fs: Seq<(&'static str, EvidenceValue)>) -> Seq<(Seq<char>, ValueView)> {
    fs.map_values(|f: (&'static str, EvidenceValue)| (f.0@, f.1@))
}

/// The abstract content of remediations.
pub open spec fn remediation_views(rs: Seq<Remediation>) -> Seq<(Seq<char>, Seq<Seq<char>>)> {
    rs.map_values(|r: Remediation| (r.description@, views(r.command@)))
}

impl View for CheckPlan {
    type V = PlanView;

    open spec fn view(&self) -> PlanView {
        PlanView {
            id: self.id@,
            status: self.status,
            required: self.required,
            summary: self.summary@,
            evidence: self.evidence@,
            remediation: remediation_views(self.remediation@),
        }
    }
}

/// A check with its parts.
pub open spec fn plan(
    id: Seq<char>,
    status: CheckStatus,
    required: bool,
    summary: Seq<char>,
    evidence: EvidenceView,
    remediation: Seq<(Seq<char>, Seq<Seq<char>>)>,
) -> PlanView {
    PlanView { id, status, required, summary, evidence, remediation }
}

/// Evidence with no values.
pub open spec fn no_evidence() -> EvidenceView {
    EvidenceView::Fields(seq![])
}

/// Evidence with one text value.
pub open spec fn text_evidence(name: Seq<char>, value: Seq<char>) -> EvidenceView {
    EvidenceView::Fields(seq![(name, ValueView::Text(value))])
}

fn owned(s: &str) -> (r: String)
    ensures
        r@ == s@,
{
    let mut o = String::new();
    push_str(&mut o, s);
    o
}

fn fields0() -> (r: Evidence)
    ensures
        r@ == no_evidence(),
{
    let v: Vec<(&'static str, EvidenceValue)> = Vec::new();
    assert(field_views(v@) =~= Seq::<(Seq<char>, ValueView)>::empty());
    Evidence::Fields(v)
}

fn fields1(a: &'static str, va: EvidenceValue) -> (r: Evidence)
    ensures
        r@ == EvidenceView::Fields(seq![(a@, va@)]),
{
    let v = vec![(a, va)];
    assert(field_views(v@) =~= seq![(a@, va@)]);
    Evidence::Fields(v)
}

fn fields2(a: &'static str, va: EvidenceValue, b: &'static str, vb: EvidenceValue) -> (r: Evidence)
    ensures
        r@ == EvidenceView::Fields(seq![(a@, va@), (b@, vb@)]),
{
    let v = vec![(a, va), (b, vb)];
    assert(field_views(v@) =~= seq![(a@, va@), (b@, vb@)]);
    Evidence::Fields(v)
}

fn text(s: &str) -> (r: EvidenceValue)
    ensures
        r@ == ValueView::Text(s@),
{
    EvidenceValue::Text(owned(s))
}

fn no_remediation() -> (r: Vec<Remediation>)
    ensures
        remediation_views(r@) == Seq::<(Seq<char>, Seq<Seq<char>>)>::empty(),
{
    let r: Vec<Remediation> = Vec::new();
    assert(remediation_views(r@) =~= Seq::<(Seq<char>, Seq<Seq<char>>)>::empty());
    r
}

fn one_remediation(description: &str, command: Vec<String>) -> (r: Vec<Remediation>)
    ensures
        remediation_views(r@) == seq![(description@, views(command@))],
{
    let r = vec![Remediation { description: owned(description), command }];
    assert(remediation_views(r@) =~= seq![(description@, views(r@[0].command@))]);
    r
}

/// The host-boot check: the run must belong to the current boot of the host.
pub open spec fn host_boot_spec(expected: Option<Seq<char>>, actual: Option<Seq<char>>) -> PlanView {
    match (expected, actual) {
        (Some(e), Some(a)) => if e == a {
            plan("run.host_boot"@, CheckStatus::Pass, true, "run belongs to the current host boot"@, text_evidence("bootId"@, a), seq![])
        } else {
            plan(
                "run.host_boot"@,
                CheckStatus::Fail,
                true,
                "run belongs to a different host boot"@,
                EvidenceView::Fields(seq![("expected"@, ValueView::Text(e)), ("actual"@, ValueView::Text(a))]),
                seq![("Create a new run for this boot"@, seq!["avm"@, "create-run"@])],
            )
        },
        _ => plan("run.host_boot"@, CheckStatus::Unknown, true, "host boot identity is unavailable"@, no_evidence(), seq![]),
    }
}

/// The text of an optional string.
pub open spec fn opt_text(o: Option<String>) -> Option<Seq<char>> {
    match o {
        Some(s) => Some(s@),
        None => None,
    }
}

/// Decides the host-boot check from the boot the run was made on and the current boot.
pub fn host_boot_check(expected: &Option<String>, actual: &Option<String>) -> (r: CheckPlan)
    ensures
        r@ == host_boot_spec(opt_text(*expected), opt_text(*actual)),
{
    match (expected, actual) {
        (Some(e), Some(a)) => if str_equal(e.as_str(), a.as_str()) {
            CheckPlan {
                id: "run.host_boot",
                status: CheckStatus::Pass,
                required: true,
                summary: "run belongs to the current host boot",
                evidence: fields1("bootId", text(a.as_str())),
                remediation: no_remediation(),
            }
        } else {
            let command = vec![owned("avm"), owned("create-run")];
            assert(views(command@) =~= seq!["avm"@, "create-run"@]);
            CheckPlan {
                id: "run.host_boot",
                status: CheckStatus::Fail,
                required: true,
                summary: "run belongs to a different host boot",
                evidence: fields2("expected", text(e.as_str()), "actual", text(a.as_str())),
                remediation: one_remediation("Create a new run for this boot", command),
            }
        },
        _ => CheckPlan {
            id: "run.host_boot",
            status: CheckStatus::Unknown,
            required: true,
            summary: "host boot identity is unavailable",
            evidence: fields0(),
            remediation: no_remediation(),
        },
    }
}

/// The VM-process check.
pub open spec fn vm_pid_spec(running: bool, config_path: Seq<char>) -> PlanView {
    if running {
        plan("vm.pid"@, CheckStatus::Pass, true, "VM process is present"@, EvidenceView::Fields(seq![("running"@, ValueView::Flag(true))]), seq![])
    } else {
        plan(
            "vm.pid"@,
            CheckStatus::Fail,
            true,
            "VM process is not running"@,
            EvidenceView::Fields(seq![("running"@, ValueView::Flag(false))]),
            seq![("Start the run"@, seq!["avm"@, "start"@, "--run"@, config_path])],
        )
    }
}

/// Decides the VM-process check.
pub fn vm_pid_check(running: bool, config_path: &str) -> (r: CheckPlan)
    ensures
        r@ == vm_pid_spec(running, config_path@),
{
    if running {
        CheckPlan {
            id: "vm.pid",
            status: CheckStatus::Pass,
            required: true,
            summary: "VM process is present",
            evidence: fields1("running", EvidenceValue::Flag(true)),
            remediation: no_remediation(),
        }
    } else {
        let command = vec![owned("avm"), owned("start"), owned("--run"), owned(config_path)];
        assert(views(command@) =~= seq!["avm"@, "start"@, "--run"@, config_path@]);
        CheckPlan {
            id: "vm.pid",
            status: CheckStatus::Fail,
            required: true,
            summary: "VM process is not running",
            evidence: fields1("running", EvidenceValue::Flag(false)),
            remediation: one_remediation("Start the run", command),
        }
    }
}

/// What a probe of a service found.
#[derive(Debug)]
pub enum ServiceProbe {
    /// The service answered with this document.
    Answered(serde_json::Value),
    /// The service refused, with this error.
    Failed(String),
    TimedOut,
}

/// The QMP check; `None` when the VM is stopped and QMP was not probed.
pub open spec fn qmp_spec(probe: Option<ServiceProbe>) -> PlanView {
    match probe {
        None => plan("vm.qmp"@, CheckStatus::Skip, true, "QMP skipped because the VM is stopped"@, no_evidence(), seq![]),
        Some(ServiceProbe::Answered(v)) => plan("vm.qmp"@, CheckStatus::Pass, true, "QMP is responsive"@, EvidenceView::Raw(v), seq![]),
        Some(ServiceProbe::Failed(e)) => plan("vm.qmp"@, CheckStatus::Fail, true, "QMP connection failed"@, text_evidence("error"@, e@), seq![]),
        Some(ServiceProbe::TimedOut) => plan(
            "vm.qmp"@,
            CheckStatus::Fail,
            true,
            "QMP probe timed out"@,
            EvidenceView::Fields(seq![("timeoutMs"@, ValueView::Number(2000))]),
            seq![],
        ),
    }
}

/// Decides the QMP check.
pub fn qmp_check(probe: Option<ServiceProbe>) -> (r: CheckPlan)
    ensures
        r@ == qmp_spec(probe),
{
    match probe {
        None => CheckPlan {
            id: "vm.qmp",
            status: CheckStatus::Skip,
            required: true,
            summary: "QMP skipped because the VM is stopped",
            evidence: fields0(),
            remediation: no_remediation(),
        },
        Some(ServiceProbe::Answered(v)) => CheckPlan {
            id: "vm.qmp",
            status: CheckStatus::Pass,
            required: true,
            summary: "QMP is responsive",
            evidence: Evidence::Raw(v),
            remediation: no_remediation(),
        },
        Some(ServiceProbe::Failed(e)) => CheckPlan {
            id: "vm.qmp",
            status: CheckStatus::Fail,
            required: true,
            summary: "QMP connection failed",
            evidence: fields1("error", EvidenceValue::Text(e)),
            remediation: no_remediation(),
        },
        Some(ServiceProbe::TimedOut) => CheckPlan {
            id: "vm.qmp",
            status: CheckStatus::Fail,
            required: true,
            summary: "QMP probe timed out",
            evidence: fields1("timeoutMs", EvidenceValue::Number(2000)),
            remediation: no_remediation(),
        },
    }
}

/// The candidate-workspace check, from the repository fingerprint or the error of
/// computing it.
pub open spec fn workspace_spec(path: Seq<char>, fingerprint: Result<Seq<char>, Seq<char>>) -> PlanView {
    match fingerprint {
        Ok(f) => plan(
            "guest.workspace.exists"@,
            CheckStatus::Pass,
            true,
            "candidate workspace is readable"@,
            EvidenceView::Fields(seq![("path"@, ValueView::Text(path)), ("repositoryFingerprint"@, ValueView::Text(f))]),
            seq![],
        ),
        Err(e) => plan("guest.workspace.exists"@, CheckStatus::Fail, true, "candidate workspace is unreadable"@, text_evidence("error"@, e), seq![]),
    }
}

/// The text of a result of strings.
pub open spec fn result_text(r: Result<String, String>) -> Result<Seq<char>, Seq<char>> {
    match r {
        Ok(s) => Ok(s@),
        Err(e) => Err(e@),
    }
}

/// Decides the candidate-workspace check.
pub fn workspace_check(path: &str, fingerprint: Result<String, String>) -> (r: CheckPlan)
    ensures
        r@ == workspace_spec(path@, result_text(fingerprint)),
{
    match fingerprint {
        Ok(f) => CheckPlan {
            id: "guest.workspace.exists",
            status: CheckStatus::Pass,
            required: true,
            summary: "candidate workspace is readable",
            evidence: fields2("path", text(path), "repositoryFingerprint", EvidenceValue::Text(f)),
            remediation: no_remediation(),
        },
        Err(e) => CheckPlan {
            id: "guest.workspace.exists",
            status: CheckStatus::Fail,
            required: true,
            summary: "candidate workspace is unreadable",
            evidence: fields1("error", EvidenceValue::Text(e)),
            remediation: no_remediation(),
        },
    }
}

/// The guest SSH-identity check.
pub open spec fn ssh_identity_spec(configured: bool) -> PlanView {
    plan(
        "guest.ssh.identity"@,
        if configured { CheckStatus::Pass } else { CheckStatus::Fail },
        true,
        if configured { "trusted guest host key is configured"@ } else { "trusted guest host key is missing"@ },
        EvidenceView::Fields(seq![("configured"@, ValueView::Flag(configured))]),
        seq![],
    )
}

/// Decides the guest SSH-identity check.
pub fn ssh_identity_check(configured: bool) -> (r: CheckPlan)
    ensures
        r@ == ssh_identity_spec(configured),
{
    CheckPlan {
        id: "guest.ssh.identity",
        status: if configured { CheckStatus::Pass } else { CheckStatus::Fail },
        required: true,
        summary: if configured { "trusted guest host key is configured" } else { "trusted guest host key is missing" },
        evidence: fields1("configured", EvidenceValue::Flag(configured)),
        remediation: no_remediation(),
    }
}

/// The local address of the guest's forwarded SSH port.
pub open spec fn ssh_address_spec(port: u16) -> Seq<char> {
    "127.0.0.1:"@ + decimal(port as nat)
}

/// The local address of the guest's forwarded SSH port.
pub fn ssh_address(port: u16) -> (r: String)
    ensures
        r@ == ssh_address_spec(port),
{
    let mut s = owned("127.0.0.1:");
    push_decimal(&mut s, port as u64);
    s
}

/// What a connection attempt found.
#[derive(Clone, Debug)]
pub enum ConnectProbe {
    Reachable,
    /// The connection failed with this error.
    Unreachable(String),
    TimedOut,
}

/// The guest-SSH reachability check at `address`; `None` when the VM is stopped.
pub open spec fn ssh_reach_spec(address: Seq<char>, probe: Option<ConnectProbe>) -> PlanView {
    match probe {
        None => plan("guest.ssh"@, CheckStatus::Skip, true, "guest SSH skipped because the VM is stopped"@, no_evidence(), seq![]),
        Some(ConnectProbe::Reachable) => plan("guest.ssh"@, CheckStatus::Pass, true, "guest SSH port is reachable"@, text_evidence("address"@, address), seq![]),
        Some(ConnectProbe::Unreachable(e)) => plan(
            "guest.ssh"@,
            CheckStatus::Fail,
            true,
            "guest SSH port is unreachable"@,
            EvidenceView::Fields(seq![("address"@, ValueView::Text(address)), ("error"@, ValueView::Text(e@))]),
            seq![],
        ),
        Some(ConnectProbe::TimedOut) => plan("guest.ssh"@, CheckStatus::Fail, true, "guest SSH probe timed out"@, text_evidence("address"@, address), seq![]),
    }
}

/// Decides the guest-SSH reachability check.
pub fn ssh_reach_check(address: &str, probe: Option<ConnectProbe>) -> (r: CheckPlan)
    ensures
        r@ == ssh_reach_spec(address@, probe),
{
    match probe {
        None => CheckPlan {
            id: "guest.ssh",
            status: CheckStatus::Skip,
            required: true,
            summary: "guest SSH skipped because the VM is stopped",
            evidence: fields0(),
            remediation: no_remediation(),
        },
        Some(ConnectProbe::Reachable) => CheckPlan {
            id: "guest.ssh",
            status: CheckStatus::Pass,
            required: true,
            summary: "guest SSH port is reachable",
            evidence: fields1("address", text(address)),
            remediation: no_remediation(),
        },
        Some(ConnectProbe::Unreachable(e)) => CheckPlan {
            id: "guest.ssh",
            status: CheckStatus::Fail,
            required: true,
            summary: "guest SSH port is unreachable",
            evidence: fields2("address", text(address), "error", EvidenceValue::Text(e)),
            remediation: no_remediation(),
        },
        Some(ConnectProbe::TimedOut) => CheckPlan {
            id: "guest.ssh",
            status: CheckStatus::Fail,
            required: true,
            summary: "guest SSH probe timed out",
            evidence: fields1("address", text(address)),
            remediation: no_remediation(),
        },
    }
}

/// The command-agent check; `None` when the VM or the SSH identity is unavailable.
pub open spec fn command_agent_spec(probe: Option<Result<serde_json::Value, Seq<char>>>) -> PlanView {
    match probe {
        None => plan(
            "guest.command_agent"@,
            CheckStatus::Skip,
            true,
            "command-agent probe skipped because the VM or SSH identity is unavailable"@,
            no_evidence(),
            seq![],
        ),
        Some(Ok(v)) => plan("guest.command_agent"@, CheckStatus::Pass, true, "command agent accepts the canonical workspace"@, EvidenceView::Raw(v), seq![]),
        Some(Err(e)) => plan(
            "guest.command_agent"@,
            CheckStatus::Fail,
            true,
            "command agent execution path is unusable"@,
            text_evidence("error"@, e),
            seq![("Rebuild the guest image and create a new run"@, seq!["vm/image/build-base.sh"@, "OUTPUT_DIRECTORY"@])],
        ),
    }
}

/// The text of a probe result.
pub open spec fn probe_text(p: Option<Result<serde_json::Value, String>>) -> Option<Result<serde_json::Value, Seq<char>>> {
    match p {
        None => None,
        Some(Ok(v)) => Some(Ok(v)),
        Some(Err(e)) => Some(Err(e@)),
    }
}

/// Decides the command-agent check.
pub fn command_agent_check(probe: Option<Result<serde_json::Value, String>>) -> (r: CheckPlan)
    ensures
        r@ == command_agent_spec(probe_text(probe)),
{
    match probe {
        None => CheckPlan {
            id: "guest.command_agent",
            status: CheckStatus::Skip,
            required: true,
            summary: "command-agent probe skipped because the VM or SSH identity is unavailable",
            evidence: fields0(),
            remediation: no_remediation(),
        },
        Some(Ok(v)) => CheckPlan {
            id: "guest.command_agent",
            status: CheckStatus::Pass,
            required: true,
            summary: "command agent accepts the canonical workspace",
            evidence: Evidence::Raw(v),
            remediation: no_remediation(),
        },
        Some(Err(e)) => {
            let command = vec![owned("vm/image/build-base.sh"), owned("OUTPUT_DIRECTORY")];
            assert(views(command@) =~= seq!["vm/image/build-base.sh"@, "OUTPUT_DIRECTORY"@]);
            CheckPlan {
                id: "guest.command_agent",
                status: CheckStatus::Fail,
                required: true,
                summary: "command agent execution path is unusable",
                evidence: fields1("error", EvidenceValue::Text(e)),
                remediation: one_remediation("Rebuild the guest image and create a new run", command),
            }
        },
    }
}

/// The inspector check: optional, from the inspector's URL when one is available.
pub open spec fn inspector_spec(url: Option<Seq<char>>) -> PlanView {
    match url {
        Some(u) => plan("webui.inspector"@, CheckStatus::Pass, false, "inspector is available"@, text_evidence("url"@, u), seq![]),
        None => plan("webui.inspector"@, CheckStatus::Warn, false, "inspector is not available"@, no_evidence(), seq![]),
    }
}

/// Decides the inspector check.
pub fn inspector_check(url: Option<String>) -> (r: CheckPlan)
    ensures
        r@ == inspector_spec(opt_text(url)),
{
    match url {
        Some(u) => CheckPlan {
            id: "webui.inspector",
            status: CheckStatus::Pass,
            required: false,
            summary: "inspector is available",
            evidence: fields1("url", EvidenceValue::Text(u)),
            remediation: no_remediation(),
        },
        None => CheckPlan {
            id: "webui.inspector",
            status: CheckStatus::Warn,
            required: false,
            summary: "inspector is not available",
            evidence: fields0(),
            remediation: no_remediation(),
        },
    }
}

/// The publication check: optional, from the active publication manifest if any.
pub open spec fn publication_spec(manifest: Option<serde_json::Value>) -> PlanView {
    match manifest {
        Some(v) => plan("publication.materialized"@, CheckStatus::Pass, false, "an atomic publication manifest is active"@, EvidenceView::Raw(v), seq![]),
        None => plan("publication.materialized"@, CheckStatus::Unknown, false, "no atomic publication manifest exists"@, no_evidence(), seq![]),
    }
}

/// Decides the publication check.
pub fn publication_check(manifest: Option<serde_json::Value>) -> (r: CheckPlan)
    ensures
        r@ == publication_spec(manifest),
{
    match manifest {
        Some(v) => CheckPlan {
            id: "publication.materialized",
            status: CheckStatus::Pass,
            required: false,
            summary: "an atomic publication manifest is active",
            evidence: Evidence::Raw(v),
            remediation: no_remediation(),
        },
        None => CheckPlan {
            id: "publication.materialized",
            status: CheckStatus::Unknown,
            required: false,
            summary: "no atomic publication manifest exists",
            evidence: fields0(),
            remediation: no_remediation(),
        },
    }
}

/// The guest-state boundary check.
pub open spec fn boundary_spec(valid: bool, paths: Seq<Seq<char>>, state_root: Seq<char>) -> PlanView {
    plan(
        "guest_state.boundary"@,
        if valid { CheckStatus::Pass } else { CheckStatus::Fail },
        true,
        if valid {
            "workspace generations and declared guest state are separated"@
        } else {
            "workspace generation or guest-state boundary is invalid"@
        },
        EvidenceView::Fields(seq![("paths"@, ValueView::Texts(paths)), ("stateRoot"@, ValueView::Text(state_root))]),
        seq![],
    )
}

/// Decides the guest-state boundary check.
pub fn boundary_check(valid: bool, paths: Vec<String>, state_root: &str) -> (r: CheckPlan)
    ensures
        r@ == boundary_spec(valid, views(paths@), state_root@),
{
    CheckPlan {
        id: "guest_state.boundary",
        status: if valid { CheckStatus::Pass } else { CheckStatus::Fail },
        required: true,
        summary: if valid {
            "workspace generations and declared guest state are separated"
        } else {
            "workspace generation or guest-state boundary is invalid"
        },
        evidence: fields2("paths", EvidenceValue::Texts(paths), "stateRoot", text(state_root)),
        remediation: no_remediation(),
    }
}

/// The identity of a remote channel as its configuration gives it.
#[derive(Clone, Debug)]
pub struct ChannelIdentity {
    pub id: String,
    pub run_id: String,
    pub remote_candidate: String,
    pub project: String,
    pub zone: String,
    pub instance: String,
}

/// The channel check: the channel must target this run and candidate; a configuration
/// that could not be loaded fails its own check.
pub open spec fn channel_spec(channel: Result<ChannelIdentity, Seq<char>>, run_id: Seq<char>, candidate: Seq<char>) -> PlanView {
    match channel {
        Ok(c) => if c.run_id@ == run_id && c.remote_candidate@ == candidate {
            plan(
                "channel.run.identity"@,
                CheckStatus::Pass,
                true,
                "channel targets this run"@,
                EvidenceView::Fields(seq![
                    ("channelId"@, ValueView::Text(c.id@)),
                    ("project"@, ValueView::Text(c.project@)),
                    ("zone"@, ValueView::Text(c.zone@)),
                    ("instance"@, ValueView::Text(c.instance@)),
                ]),
                seq![],
            )
        } else {
            plan(
                "channel.run.identity"@,
                CheckStatus::Fail,
                true,
                "channel targets a different run or candidate"@,
                EvidenceView::Fields(seq![("channelRunId"@, ValueView::Text(c.run_id@)), ("runId"@, ValueView::Text(run_id))]),
                seq![],
            )
        },
        Err(e) => plan("channel.config.valid"@, CheckStatus::Fail, true, "channel configuration is invalid"@, text_evidence("error"@, e), seq![]),
    }
}

/// The text of a loaded channel or of the error of loading it.
pub open spec fn channel_text(c: Result<ChannelIdentity, String>) -> Result<ChannelIdentity, Seq<char>> {
    match c {
        Ok(i) => Ok(i),
        Err(e) => Err(e@),
    }
}

/// Decides the channel check.
pub fn channel_check(channel: Result<ChannelIdentity, String>, run_id: &str, candidate: &str) -> (r: CheckPlan)
    ensures
        r@ == channel_spec(channel_text(channel), run_id@, candidate@),
{
    match channel {
        Ok(c) => if str_equal(c.run_id.as_str(), run_id) && str_equal(c.remote_candidate.as_str(), candidate) {
            let v = vec![
                ("channelId", text(c.id.as_str())),
                ("project", text(c.project.as_str())),
                ("zone", text(c.zone.as_str())),
                ("instance", text(c.instance.as_str())),
            ];
            assert(field_views(v@) =~= seq![
                ("channelId"@, ValueView::Text(c.id@)),
                ("project"@, ValueView::Text(c.project@)),
                ("zone"@, ValueView::Text(c.zone@)),
                ("instance"@, ValueView::Text(c.instance@)),
            ]);
            let evidence = Evidence::Fields(v);
            CheckPlan {
                id: "channel.run.identity",
                status: CheckStatus::Pass,
                required: true,
                summary: "channel targets this run",
                evidence,
                remediation: no_remediation(),
            }
        } else {
            CheckPlan {
                id: "channel.run.identity",
                status: CheckStatus::Fail,
                required: true,
                summary: "channel targets a different run or candidate",
                evidence: fields2("channelRunId", text(c.run_id.as_str()), "runId", text(run_id)),
                remediation: no_remediation(),
            }
        },
        Err(e) => CheckPlan {
            id: "channel.config.valid",
            status: CheckStatus::Fail,
            required: true,
            summary: "channel configuration is invalid",
            evidence: fields1("error", EvidenceValue::Text(e)),
            remediation: no_remediation(),
        },
    }
}

/// What the probes of a run found. Some probes are made only in some states: QMP and the
/// guest's SSH port only while the VM runs, the command agent only while it runs with a
/// trusted SSH identity, and the channel only when one was named.
#[derive(Debug)]
pub struct RunProbes {
    pub config_path: String,
    pub run_id: String,
    pub expected_boot: Option<String>,
    pub current_boot: Option<String>,
    pub running: bool,
    pub qmp: Option<ServiceProbe>,
    pub candidate_workspace: String,
    pub workspace_fingerprint: Result<String, String>,
    pub ssh_configured: bool,
    pub ssh_port: u16,
    pub ssh: Option<ConnectProbe>,
    pub command_agent: Option<Result<serde_json::Value, String>>,
    pub inspector_url: Option<String>,
    pub publication: Option<serde_json::Value>,
    pub state_boundary_valid: bool,
    pub guest_state_paths: Vec<String>,
    pub state_root: String,
    pub channel: Option<Result<ChannelIdentity, String>>,
}

/// The probes were made exactly in the states that call for them.
pub open spec fn probes_consistent(p: RunProbes) -> bool {
    &&& (p.qmp is Some <==> p.running)
    &&& (p.ssh is Some <==> p.running)
    &&& (p.command_agent is Some <==> (p.running && p.ssh_configured))
}

/// The checks of a run, in order.
pub open spec fn run_checks_spec(p: RunProbes) -> Seq<PlanView> {
    seq![
        host_boot_spec(opt_text(p.expected_boot), opt_text(p.current_boot)),
        vm_pid_spec(p.running, p.config_path@),
        qmp_spec(p.qmp),
        workspace_spec(p.candidate_workspace@, result_text(p.workspace_fingerprint)),
        ssh_identity_spec(p.ssh_configured),
        ssh_reach_spec(ssh_address_spec(p.ssh_port), p.ssh),
        command_agent_spec(probe_text(p.command_agent)),
        inspector_spec(opt_text(p.inspector_url)),
        publication_spec(p.publication),
        boundary_spec(p.state_boundary_valid, views(p.guest_state_paths@), p.state_root@),
    ] + match p.channel {
        Some(c) => seq![channel_spec(channel_text(c), p.run_id@, p.candidate_workspace@)],
        None => seq![],
    }
}

/// The abstract content of a list of checks.
pub open spec fn plan_views(v: Seq<CheckPlan>) -> Seq<PlanView> {
    v.map_values(|c: CheckPlan| c@)
}

fn push_plan(out: &mut Vec<CheckPlan>, c: CheckPlan)
    ensures
        plan_views(final(out)@) == plan_views(old(out)@).push(c@),
{
    let ghost before = plan_views(out@);
    let ghost cv = c@;
    out.push(c);
    assert(plan_views(out@) =~= before.push(cv));
}

/// Decides every check of a run from what its probes found.
pub fn run_checks(p: RunProbes) -> (r: Vec<CheckPlan>)
    requires
        probes_consistent(p),
    ensures
        plan_views(r@) == run_checks_spec(p),
{
    let ghost pg = p;
    let address = ssh_address(p.ssh_port);
    let mut out: Vec<CheckPlan> = Vec::new();
    push_plan(&mut out, host_boot_check(&p.expected_boot, &p.current_boot));
    push_plan(&mut out, vm_pid_check(p.running, p.config_path.as_str()));
    push_plan(&mut out, qmp_check(p.qmp));
    push_plan(&mut out, workspace_check(p.candidate_workspace.as_str(), p.workspace_fingerprint));
    push_plan(&mut out, ssh_identity_check(p.ssh_configured));
    push_plan(&mut out, ssh_reach_check(address.as_str(), p.ssh));
    push_plan(&mut out, command_agent_check(p.command_agent));
    push_plan(&mut out, inspector_check(p.inspector_url));
    push_plan(&mut out, publication_check(p.publication));
    push_plan(&mut out, boundary_check(p.state_boundary_valid, p.guest_state_paths, p.state_root.as_str()));
    let ghost ten = plan_views(out@);
    match p.channel {
        Some(c) => push_plan(&mut out, channel_check(c, p.run_id.as_str(), p.candidate_workspace.as_str())),
        None => {},
    }
    assert(plan_views(out@) =~= run_checks_spec(pg));
    out
}

/// The check that the run asked for is the channel's remote run.
pub open spec fn channel_path_spec(requested: Seq<char>, remote_run: Seq<char>, same: bool) -> PlanView {
    if same {
        plan("channel.run.path"@, CheckStatus::Pass, true, "requested remote run matches the channel"@, text_evidence("remoteRun"@, remote_run), seq![])
    } else {
        plan(
            "channel.run.path"@,
            CheckStatus::Fail,
            true,
            "requested run does not match the channel remote run"@,
            EvidenceView::Fields(seq![("requested"@, ValueView::Text(requested)), ("remoteRun"@, ValueView::Text(remote_run))]),
            seq![],
        )
    }
}

/// Decides whether the run asked for is the channel's remote run, comparing the paths
/// component by component.
pub fn channel_path_check(requested: &str, remote_run: &str) -> (r: CheckPlan)
    ensures
        r@ == channel_path_spec(requested@, remote_run@, crate::paths::components(requested@) == crate::paths::components(remote_run@)),
{
    if crate::paths::same_path(requested, remote_run) {
        CheckPlan {
            id: "channel.run.path",
            status: CheckStatus::Pass,
            required: true,
            summary: "requested remote run matches the channel",
            evidence: fields1("remoteRun", text(remote_run)),
            remediation: no_remediation(),
        }
    } else {
        CheckPlan {
            id: "channel.run.path",
            status: CheckStatus::Fail,
            required: true,
            summary: "requested run does not match the channel remote run",
            evidence: fields2("requested", text(requested), "remoteRun", text(remote_run)),
            remediation: no_remediation(),
        }
    }
}

/// The check that the remote report is about the channel's run.
pub open spec fn report_identity_spec(report_run_id: Seq<char>, c: ChannelIdentity) -> PlanView {
    if report_run_id == c.run_id@ {
        plan(
            "channel.run.identity"@,
            CheckStatus::Pass,
            true,
            "remote report matches the channel run identity"@,
            EvidenceView::Fields(seq![
                ("channelId"@, ValueView::Text(c.id@)),
                ("runId"@, ValueView::Text(c.run_id@)),
                ("project"@, ValueView::Text(c.project@)),
                ("zone"@, ValueView::Text(c.zone@)),
                ("instance"@, ValueView::Text(c.instance@)),
            ]),
            seq![],
        )
    } else {
        plan(
            "channel.run.identity"@,
            CheckStatus::Fail,
            true,
            "remote report returned a different run identity"@,
            EvidenceView::Fields(seq![("expected"@, ValueView::Text(c.run_id@)), ("actual"@, ValueView::Text(report_run_id))]),
            seq![],
        )
    }
}

/// Decides whether the remote report is about the channel's run.
pub fn report_identity_check(report_run_id: &str, c: &ChannelIdentity) -> (r: CheckPlan)
    ensures
        r@ == report_identity_spec(report_run_id@, *c),
{
    if str_equal(report_run_id, c.run_id.as_str()) {
        let v = vec![
            ("channelId", text(c.id.as_str())),
            ("runId", text(c.run_id.as_str())),
            ("project", text(c.project.as_str())),
            ("zone", text(c.zone.as_str())),
            ("instance", text(c.instance.as_str())),
        ];
        assert(field_views(v@) =~= seq![
            ("channelId"@, ValueView::Text(c.id@)),
            ("runId"@, ValueView::Text(c.run_id@)),
            ("project"@, ValueView::Text(c.project@)),
            ("zone"@, ValueView::Text(c.zone@)),
            ("instance"@, ValueView::Text(c.instance@)),
        ]);
        CheckPlan {
            id: "channel.run.identity",
            status: CheckStatus::Pass,
            required: true,
            summary: "remote report matches the channel run identity",
            evidence: Evidence::Fields(v),
            remediation: no_remediation(),
        }
    } else {
        CheckPlan {
            id: "channel.run.identity",
            status: CheckStatus::Fail,
            required: true,
            summary: "remote report returned a different run identity",
            evidence: fields2("expected", text(c.run_id.as_str()), "actual", text(report_run_id)),
            remediation: no_remediation(),
        }
    }
}

/// The check of the local source's fingerprint: optional, a warning when it failed.
pub open spec fn local_fingerprint_spec(path: Seq<char>, fingerprint: Result<Seq<char>, Seq<char>>) -> PlanView {
    match fingerprint {
        Ok(f) => plan(
            "local.source.fingerprint"@,
            CheckStatus::Pass,
            false,
            "local source fingerprint computed"@,
            EvidenceView::Fields(seq![("path"@, ValueView::Text(path)), ("repositoryFingerprint"@, ValueView::Text(f))]),
            seq![],
        ),
        Err(e) => plan("local.source.fingerprint"@, CheckStatus::Warn, false, "local source fingerprint failed"@, text_evidence("error"@, e), seq![]),
    }
}

/// Decides the check of the local source's fingerprint.
pub fn local_fingerprint_check(path: &str, fingerprint: Result<String, String>) -> (r: CheckPlan)
    ensures
        r@ == local_fingerprint_spec(path@, result_text(fingerprint)),
{
    match fingerprint {
        Ok(f) => CheckPlan {
            id: "local.source.fingerprint",
            status: CheckStatus::Pass,
            required: false,
            summary: "local source fingerprint computed",
            evidence: fields2("path", text(path), "repositoryFingerprint", EvidenceValue::Text(f)),
            remediation: no_remediation(),
        },
        Err(e) => CheckPlan {
            id: "local.source.fingerprint",
            status: CheckStatus::Warn,
            required: false,
            summary: "local source fingerprint failed",
            evidence: fields1("error", EvidenceValue::Text(e)),
            remediation: no_remediation(),
        },
    }
}

} // verus!
