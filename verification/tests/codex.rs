use avm::codex::{
    approval_policy_supported, classify_exec_message, classify_message, exec_extra_arguments,
    sandbox_policy_type, server_request_reply, AppServerOptions, ApprovalMode, ExecOptions,
    LegacyDecision, ServerRequestReply,
};

#[test]
fn stock_options_run_codex_with_declined_approvals() {
    let options = AppServerOptions::codex("/work", "fix it");
    assert_eq!(options.command, vec!["codex", "app-server", "--stdio"]);
    assert_eq!(options.approval_mode, ApprovalMode::Decline);
    assert_eq!(options.approval_policy, "on-request");
    assert_eq!(options.sandbox, "workspace-write");
    assert!(options.model.is_none());
    let exec = ExecOptions::codex("/work", "fix it");
    assert_eq!(
        exec_extra_arguments(&exec),
        vec!["exec", "--json", "--skip-git-repo-check", "--sandbox", "workspace-write", "-C", "/work", "fix it"]
    );
    let custom = ExecOptions { command: vec!["my-agent".into()], cwd: "/w".into(), prompt: "p".into() };
    assert!(exec_extra_arguments(&custom).is_empty());
}

#[test]
fn approval_answers_follow_the_mode() {
    assert_eq!(ApprovalMode::Accept.modern_decision(), "accept");
    assert_eq!(ApprovalMode::Decline.modern_decision(), "decline");
    assert_eq!(ApprovalMode::Accept.legacy_decision(), LegacyDecision::Approved);
    assert_eq!(ApprovalMode::Decline.legacy_decision(), LegacyDecision::Denied);
    assert_eq!(server_request_reply("item/fileChange/requestApproval"), ServerRequestReply::Modern);
    assert_eq!(server_request_reply("execCommandApproval"), ServerRequestReply::Legacy);
    assert_eq!(server_request_reply("item/tool/call"), ServerRequestReply::Unsupported);
}

#[test]
fn sandbox_modes_map_to_policy_types() {
    assert_eq!(sandbox_policy_type("workspace-write"), Some("workspaceWrite"));
    assert_eq!(sandbox_policy_type("read-only"), Some("readOnly"));
    assert_eq!(sandbox_policy_type("danger-full-access"), Some("dangerFullAccess"));
    assert_eq!(sandbox_policy_type("anything"), None);
    assert!(approval_policy_supported("never"));
    assert!(!approval_policy_supported("always"));
}

#[test]
fn wire_messages_are_classified_by_method_and_item() {
    assert_eq!(classify_message("inbound", None, None), ("agent", "codex.inbound.response".to_string()));
    assert_eq!(
        classify_message("inbound", Some("item/started"), Some("commandExecution")),
        ("process", "codex.command.started".to_string())
    );
    assert_eq!(
        classify_message("inbound", Some("item/completed"), Some("fileChange")),
        ("repository", "codex.file_change.completed".to_string())
    );
    assert_eq!(
        classify_message("inbound", Some("item/commandExecution/requestApproval"), None),
        ("agent", "codex.approval.requested".to_string())
    );
    assert_eq!(
        classify_message("outbound", Some("turn/start"), None),
        ("agent", "codex.turn.start".to_string())
    );
    assert_eq!(
        classify_exec_message(Some("item.completed"), Some("command_execution")),
        ("process", "codex.exec.item_completed".to_string())
    );
    assert_eq!(classify_exec_message(None, None), ("agent", "codex.exec.unknown".to_string()));
}
