use avm::codex::{AppServerOptions, ServerRequestReply};
use avm::codex_turn::{check_turn_options, turn_step, InboundMessage, TurnError, TurnStage, TurnStep};

fn message() -> InboundMessage {
    InboundMessage {
        has_id: false,
        id_json: None,
        has_method: false,
        method: None,
        error_json: None,
        thread_id: None,
        turn_id: None,
        completed_turn_id: None,
        completed_status: None,
    }
}

fn response(id: &str) -> InboundMessage {
    let mut m = message();
    m.has_id = true;
    m.id_json = Some(id.into());
    m
}

fn notification(method: &str) -> InboundMessage {
    let mut m = message();
    m.has_method = true;
    m.method = Some(method.into());
    m
}

#[test]
fn supervises_handshake_approval_and_turn_completion() {
    let (stage, step) = turn_step(TurnStage::Initializing, &notification("mcpServer/started")).unwrap();
    assert_eq!((stage.clone(), step), (TurnStage::Initializing, TurnStep::Ignore));
    let (stage, step) = turn_step(stage, &response("1")).unwrap();
    assert_eq!(step, TurnStep::StartThread);
    let mut thread = response("2");
    thread.thread_id = Some("thread-1".into());
    let (stage, step) = turn_step(stage, &thread).unwrap();
    assert_eq!(step, TurnStep::StartTurn { thread_id: "thread-1".into() });
    let mut approval = notification("item/commandExecution/requestApproval");
    approval.has_id = true;
    approval.id_json = Some("\"req-7\"".into());
    let (stage, step) = turn_step(stage, &approval).unwrap();
    assert_eq!(step, TurnStep::Reply(ServerRequestReply::Modern));
    let mut turn = response("3");
    turn.turn_id = Some("turn-1".into());
    let (stage, step) = turn_step(stage, &turn).unwrap();
    assert_eq!(step, TurnStep::Ignore);
    assert_eq!(stage, TurnStage::Running { thread_id: "thread-1".into(), turn_id: "turn-1".into() });
    let mut other = notification("turn/completed");
    other.completed_turn_id = Some("turn-0".into());
    let (stage, step) = turn_step(stage, &other).unwrap();
    assert_eq!(step, TurnStep::Ignore);
    let mut done = notification("turn/completed");
    done.completed_turn_id = Some("turn-1".into());
    done.completed_status = Some("completed".into());
    let (_, step) = turn_step(stage.clone(), &done).unwrap();
    assert_eq!(step, TurnStep::Completed { status: "completed".into() });
    done.completed_status = None;
    let (_, step) = turn_step(stage, &done).unwrap();
    assert_eq!(step, TurnStep::Completed { status: "unknown".into() });
}

#[test]
fn failed_requests_and_missing_identifiers_end_the_turn() {
    let mut failed = response("1");
    failed.error_json = Some("{\"code\":-1}".into());
    let error = turn_step(TurnStage::Initializing, &failed).unwrap_err();
    assert_eq!(error.message(), "Codex App Server request failed: {\"code\":-1}");
    assert_eq!(turn_step(TurnStage::StartingThread, &response("2")).unwrap_err(), TurnError::NoThreadId);
    assert_eq!(
        turn_step(TurnStage::StartingTurn { thread_id: "t".into() }, &response("3")).unwrap_err(),
        TurnError::NoTurnId
    );
    let mut odd = response("9");
    odd.has_method = true;
    assert_eq!(turn_step(TurnStage::Initializing, &odd).unwrap_err(), TurnError::ServerRequestWithoutMethod);
    assert_eq!(turn_step(TurnStage::StartingThread, &response("1")).unwrap().1, TurnStep::Ignore);
}

#[test]
fn turn_options_need_a_command_and_a_known_policy() {
    let mut options = AppServerOptions::codex("/work", "fix it");
    assert_eq!(check_turn_options(&options), Ok(()));
    options.approval_policy = "sometimes".into();
    assert_eq!(check_turn_options(&options), Err(TurnError::UnsupportedApprovalPolicy));
    options.command.clear();
    assert_eq!(check_turn_options(&options).unwrap_err().message(), "app-server command is empty");
}
