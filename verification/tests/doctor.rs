use avm::doctor::{aggregate, check, remediation, shell_display, CheckStatus, DoctorReport, OverallStatus};

#[test]
fn aggregation_distinguishes_ready_degraded_and_unusable() {
    assert_eq!(
        aggregate(&[check("ok", CheckStatus::Pass, true, "ok".into(), serde_json::Value::Null, vec![])]),
        OverallStatus::Ready
    );
    assert_eq!(
        aggregate(&[check("warn", CheckStatus::Warn, false, "warn".into(), serde_json::Value::Null, vec![])]),
        OverallStatus::Degraded
    );
    assert_eq!(
        aggregate(&[check("bad", CheckStatus::Fail, true, "bad".into(), serde_json::Value::Null, vec![])]),
        OverallStatus::Unusable
    );
}

#[test]
fn remediation_rendering_quotes_arguments() {
    assert_eq!(shell_display(&["avm".into(), "a b".into()]), "avm 'a b'");
}

#[test]
fn optional_failures_only_degrade() {
    let checks = [
        check("a", CheckStatus::Pass, true, "a".into(), serde_json::Value::Null, vec![]),
        check("b", CheckStatus::Fail, false, "b".into(), serde_json::Value::Null, vec![]),
        check("c", CheckStatus::Skip, true, "c".into(), serde_json::Value::Null, vec![]),
    ];
    assert_eq!(aggregate(&checks), OverallStatus::Degraded);
    assert_eq!(aggregate(&[]), OverallStatus::Ready);
}

#[test]
fn report_renders_checks_and_remediations() {
    let report = DoctorReport {
        generated_at: "now".into(),
        overall_status: OverallStatus::Unusable,
        run_id: "run-1".into(),
        checks: vec![check(
            "kvm",
            CheckStatus::Fail,
            true,
            "no /dev/kvm".into(),
            serde_json::Value::Null,
            vec![remediation("load the module", &["sudo", "modprobe", "kvm intel"])],
        )],
    };
    assert_eq!(
        report.render_human(),
        "AVM DOCTOR: UNUSABLE\nrun: run-1\n[FAIL] kvm: no /dev/kvm\nremediation:\n- load the module: sudo modprobe 'kvm intel'"
    );
    assert_eq!(report.exit_code(), 20);
}

#[test]
fn run_report_takes_the_status_of_its_checks() {
    let report = DoctorReport::from_checks(
        "run-1".into(),
        vec![
            check("a", CheckStatus::Pass, true, "ok".into(), serde_json::Value::Null, vec![]),
            check("b", CheckStatus::Fail, true, "down".into(), serde_json::Value::Null, vec![]),
        ],
    );
    assert_eq!(report.overall_status, OverallStatus::Unusable);
    assert_eq!(report.exit_code(), 20);
    assert_eq!(report.run_id, "run-1");
    assert_eq!(report.checks.len(), 2);
    let ready = DoctorReport::from_checks("run-2".into(), vec![]);
    assert_eq!(ready.overall_status, OverallStatus::Ready);
    assert_eq!(ready.exit_code(), 0);
}
