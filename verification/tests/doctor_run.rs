use avm::doctor::CheckStatus;
use avm::doctor_run::{
    channel_path_check, host_boot_check, inspector_check, local_fingerprint_check, qmp_check, report_identity_check,
    run_checks, ssh_address, ssh_reach_check, vm_pid_check, ChannelIdentity, ConnectProbe, Evidence, EvidenceValue,
    RunProbes, ServiceProbe,
};

fn text_field<'a>(evidence: &'a Evidence, name: &str) -> Option<&'a str> {
    match evidence {
        Evidence::Fields(fields) => fields.iter().find(|(n, _)| *n == name).and_then(|(_, v)| match v {
            EvidenceValue::Text(t) => Some(t.as_str()),
            _ => None,
        }),
        Evidence::Raw(_) => None,
    }
}

#[test]
fn host_boot_must_match_the_current_boot() {
    let same = host_boot_check(&Some("boot-1".into()), &Some("boot-1".into()));
    assert_eq!(same.status, CheckStatus::Pass);
    assert_eq!(text_field(&same.evidence, "bootId"), Some("boot-1"));
    let other = host_boot_check(&Some("boot-1".into()), &Some("boot-2".into()));
    assert_eq!(other.status, CheckStatus::Fail);
    assert_eq!(other.remediation[0].command, vec!["avm", "create-run"]);
    assert_eq!(host_boot_check(&None, &Some("boot-2".into())).status, CheckStatus::Unknown);
}

#[test]
fn a_stopped_vm_fails_and_skips_its_probes() {
    let stopped = vm_pid_check(false, "/runs/a/run.json");
    assert_eq!(stopped.status, CheckStatus::Fail);
    assert_eq!(stopped.remediation[0].command, vec!["avm", "start", "--run", "/runs/a/run.json"]);
    assert_eq!(qmp_check(None).status, CheckStatus::Skip);
    assert_eq!(qmp_check(Some(ServiceProbe::TimedOut)).summary, "QMP probe timed out");
    assert_eq!(ssh_reach_check("127.0.0.1:2222", None).status, CheckStatus::Skip);
    let refused = ssh_reach_check("127.0.0.1:2222", Some(ConnectProbe::Unreachable("refused".into())));
    assert_eq!(text_field(&refused.evidence, "error"), Some("refused"));
    assert_eq!(ssh_address(2222), "127.0.0.1:2222");
}

#[test]
fn optional_checks_only_warn() {
    let missing = inspector_check(None);
    assert_eq!((missing.status, missing.required), (CheckStatus::Warn, false));
    let failed = local_fingerprint_check("/src", Err("not a git repository".into()));
    assert_eq!((failed.status, failed.required), (CheckStatus::Warn, false));
}

fn probes(running: bool) -> RunProbes {
    RunProbes {
        config_path: "/runs/a/run.json".into(),
        run_id: "run-a".into(),
        expected_boot: Some("boot-1".into()),
        current_boot: Some("boot-1".into()),
        running,
        qmp: if running { Some(ServiceProbe::Answered(serde_json::Value::Null)) } else { None },
        candidate_workspace: "/work/candidate".into(),
        workspace_fingerprint: Ok("sha256:abc".into()),
        ssh_configured: true,
        ssh_port: 2222,
        ssh: if running { Some(ConnectProbe::Reachable) } else { None },
        command_agent: if running { Some(Ok(serde_json::Value::Null)) } else { None },
        inspector_url: Some("http://127.0.0.1:8080".into()),
        publication: None,
        state_boundary_valid: true,
        guest_state_paths: vec!["node_modules".into()],
        state_root: "/work/state".into(),
        channel: Some(Ok(ChannelIdentity {
            id: "channel-1".into(),
            run_id: "run-a".into(),
            remote_candidate: "/work/candidate".into(),
            project: "p".into(),
            zone: "z".into(),
            instance: "i".into(),
        })),
    }
}

#[test]
fn run_checks_come_in_order_with_the_channel_last() {
    let ids: Vec<&str> = run_checks(probes(true)).iter().map(|c| c.id).collect();
    assert_eq!(
        ids,
        vec![
            "run.host_boot",
            "vm.pid",
            "vm.qmp",
            "guest.workspace.exists",
            "guest.ssh.identity",
            "guest.ssh",
            "guest.command_agent",
            "webui.inspector",
            "publication.materialized",
            "guest_state.boundary",
            "channel.run.identity",
        ]
    );
    let stopped = run_checks(probes(false));
    assert_eq!(stopped[2].status, CheckStatus::Skip);
    assert_eq!(stopped[6].status, CheckStatus::Skip);
    assert_eq!(stopped[8].status, CheckStatus::Unknown);
}

#[test]
fn remote_reports_are_checked_against_the_channel() {
    assert_eq!(channel_path_check("/runs/a/", "/runs/a").status, CheckStatus::Pass);
    assert_eq!(channel_path_check("/runs/b", "/runs/a").status, CheckStatus::Fail);
    let channel = ChannelIdentity {
        id: "channel-1".into(),
        run_id: "run-a".into(),
        remote_candidate: "/work/candidate".into(),
        project: "p".into(),
        zone: "z".into(),
        instance: "i".into(),
    };
    assert_eq!(report_identity_check("run-a", &channel).status, CheckStatus::Pass);
    let other = report_identity_check("run-b", &channel);
    assert_eq!(other.summary, "remote report returned a different run identity");
    assert_eq!(text_field(&other.evidence, "actual"), Some("run-b"));
}
