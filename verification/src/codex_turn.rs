//! The decisions of a supervised App Server turn: after each message the server sends,
//! what the supervisor does next (answer a server request, start the thread, start the
//! turn, keep reading, or finish) and which replies end the turn in an error.
use vstd::prelude::*;
use crate::codex::{approval_policy_supported, server_request_reply, server_request_reply_spec, supported_approval_policy, AppServerOptions, ServerRequestReply};
use crate::text::{push_str, str_equal};

verus! {

broadcast use vstd::string::group_string_axioms;

/// Why a turn failed.
#[derive(Clone, Debug, PartialEq, Eq)]
pub enum TurnError {
    EmptyCommand,
    UnsupportedApprovalPolicy,
    /// A server request whose `method` is not a string.
    ServerRequestWithoutMethod,
    /// The response to a request of the supervisor carried this error, as JSON text.
    RequestFailed(String),
    NoThreadId,
    NoTurnId,
}

impl TurnError {
    /// The human-readable description of the error.
    pub open spec fn text(&self) -> Seq<char> {
        match self {
            TurnError::EmptyCommand => "app-server command is empty"@,
            TurnError::UnsupportedApprovalPolicy => "unsupported App Server approval policy"@,
            TurnError::ServerRequestWithoutMethod => "server request has no method"@,
            TurnError::RequestFailed(e) => "Codex App Server request failed: "@ + e@,
            TurnError::NoThreadId => "thread/start response has no thread id"@,
            TurnError::NoTurnId => "turn/start response has no turn id"@,
        }
    }

    /// Renders the description of the error.
    pub fn message(&self) -> (r: String)
        ensures
            r@ == self.text(),
    {
        let mut s = String::new();
        match self {
            TurnError::EmptyCommand => push_str(&mut s, "app-server command is empty"),
            TurnError::UnsupportedApprovalPolicy => push_str(&mut s, "unsupported App Server approval policy"),
            TurnError::ServerRequestWithoutMethod => push_str(&mut s, "server request has no method"),
            TurnError::RequestFailed(e) => {
                push_str(&mut s, "Codex App Server request failed: ");
                push_str(&mut s, e.as_str());
            },
            TurnError::NoThreadId => push_str(&mut s, "thread/start response has no thread id"),
            TurnError::NoTurnId => push_str(&mut s, "turn/start response has no turn id"),
        }
        s
    }
}

/// A turn needs a command to run and an approval policy the server supports.
pub fn check_turn_options(options: &AppServerOptions) -> (r: Result<(), TurnError>)
    ensures
        r == (if options.command@.len() == 0 {
            Err(TurnError::EmptyCommand)
        } else if !supported_approval_policy(options.approval_policy@) {
            Err(TurnError::UnsupportedApprovalPolicy)
        } else {
            Ok(())
        }),
{
    if options.command.len() == 0 {
        return Err(TurnError::EmptyCommand);
    }
    if !approval_policy_supported(options.approval_policy.as_str()) {
        return Err(TurnError::UnsupportedApprovalPolicy);
    }
    Ok(())
}

/// A message from the App Server, as the supervisor reads it: whether it has an `id`
/// (and its JSON text) and a `method` (and its text when a string), its `error` as JSON
/// text, and the identifiers and status it may carry.
#[derive(Clone, Debug)]
pub struct InboundMessage {
    pub has_id: bool,
    pub id_json: Option<String>,
    pub has_method: bool,
    pub method: Option<String>,
    pub error_json: Option<String>,
    /// `result.thread.id`, when a string.
    pub thread_id: Option<String>,
    /// `result.turn.id`, when a string.
    pub turn_id: Option<String>,
    /// `params.turn.id`, when a string.
    pub completed_turn_id: Option<String>,
    /// `params.turn.status`, when a string.
    pub completed_status: Option<String>,
}

/// Where a turn stands: waiting for the response to `initialize` (request 1), to
/// `thread/start` (request 2) or to `turn/start` (request 3), or running the turn.
#[derive(Clone, Debug, PartialEq, Eq)]
pub enum TurnStage {
    Initializing,
    StartingThread,
    StartingTurn { thread_id: String },
    Running { thread_id: String, turn_id: String },
}

/// What the supervisor does after a message.
#[derive(Clone, Debug, PartialEq, Eq)]
pub enum TurnStep {
    /// Answer the server's request in this way.
    Reply(ServerRequestReply),
    /// Keep reading.
    Ignore,
    /// Send `initialized`, then `thread/start` as request 2.
    StartThread,
    /// Send `turn/start` for this thread as request 3.
    StartTurn { thread_id: String },
    /// The turn completed with this status.
    Completed { status: String },
}

/// The text of an optional string.
pub open spec fn opt_view(o: Option<String>) -> Option<Seq<char>> {
    match o {
        Some(s) => Some(s@),
        None => None,
    }
}

/// The abstract content of a stage.
pub enum StageView {
    Initializing,
    StartingThread,
    StartingTurn { thread_id: Seq<char> },
    Running { thread_id: Seq<char>, turn_id: Seq<char> },
}

/// The abstract content of a step.
pub enum StepView {
    Reply(ServerRequestReply),
    Ignore,
    StartThread,
    StartTurn { thread_id: Seq<char> },
    Completed { status: Seq<char> },
}

impl View for TurnStage {
    type V = StageView;

    open spec fn view(&self) -> StageView {
        match self {
            TurnStage::Initializing => StageView::Initializing,
            TurnStage::StartingThread => StageView::StartingThread,
            TurnStage::StartingTurn { thread_id } => StageView::StartingTurn { thread_id: thread_id@ },
            TurnStage::Running { thread_id, turn_id } => StageView::Running { thread_id: thread_id@, turn_id: turn_id@ },
        }
    }
}

impl View for TurnStep {
    type V = StepView;

    open spec fn view(&self) -> StepView {
        match self {
            TurnStep::Reply(r) => StepView::Reply(*r),
            TurnStep::Ignore => StepView::Ignore,
            TurnStep::StartThread => StepView::StartThread,
            TurnStep::StartTurn { thread_id } => StepView::StartTurn { thread_id: thread_id@ },
            TurnStep::Completed { status } => StepView::Completed { status: status@ },
        }
    }
}

/// The abstract content of the outcome of a step.
pub open spec fn outcome_view(r: Result<(TurnStage, TurnStep), TurnError>) -> Result<(StageView, StepView), TurnError> {
    match r {
        Ok((s, t)) => Ok((s@, t@)),
        Err(e) => Err(e),
    }
}

/// The response to the request numbered by the JSON text `id`, or its error.
pub open spec fn answers(m: InboundMessage, id: Seq<char>) -> bool {
    opt_view(m.id_json) == Some(id)
}

/// What the supervisor does after a message: a message with both an `id` and a `method`
/// is a request of the server, answered by method; otherwise the awaited response (by
/// request number) moves the turn on, failing when it carries an error or lacks the
/// identifier it must return; while running, the completion of the turn ends it (with
/// status `unknown` when none is given); anything else is read past.
pub open spec fn turn_step_spec(stage: StageView, m: InboundMessage) -> Result<(StageView, StepView), TurnError> {
    if m.has_id && m.has_method {
        match m.method {
            None => Err(TurnError::ServerRequestWithoutMethod),
            Some(method) => Ok((stage, StepView::Reply(server_request_reply_spec(method@)))),
        }
    } else {
        match stage {
            StageView::Initializing => if answers(m, "1"@) {
                match m.error_json {
                    Some(e) => Err(TurnError::RequestFailed(e)),
                    None => Ok((StageView::StartingThread, StepView::StartThread)),
                }
            } else {
                Ok((stage, StepView::Ignore))
            },
            StageView::StartingThread => if answers(m, "2"@) {
                match m.error_json {
                    Some(e) => Err(TurnError::RequestFailed(e)),
                    None => match m.thread_id {
                        None => Err(TurnError::NoThreadId),
                        Some(t) => Ok((StageView::StartingTurn { thread_id: t@ }, StepView::StartTurn { thread_id: t@ })),
                    },
                }
            } else {
                Ok((stage, StepView::Ignore))
            },
            StageView::StartingTurn { thread_id } => if answers(m, "3"@) {
                match m.error_json {
                    Some(e) => Err(TurnError::RequestFailed(e)),
                    None => match m.turn_id {
                        None => Err(TurnError::NoTurnId),
                        Some(t) => Ok((StageView::Running { thread_id, turn_id: t@ }, StepView::Ignore)),
                    },
                }
            } else {
                Ok((stage, StepView::Ignore))
            },
            StageView::Running { thread_id, turn_id } => if opt_view(m.method) == Some("turn/completed"@)
                && opt_view(m.completed_turn_id) == Some(turn_id) {
                Ok((stage, StepView::Completed {
                    status: match m.completed_status {
                        Some(s) => s@,
                        None => "unknown"@,
                    },
                }))
            } else {
                Ok((stage, StepView::Ignore))
            },
        }
    }
}

fn opt_is(o: &Option<String>, s: &str) -> (r: bool)
    ensures
        r == (opt_view(*o) == Some(s@)),
{
    match o {
        Some(x) => str_equal(x.as_str(), s),
        None => false,
    }
}

/// Decides what the supervisor does after a message.
pub fn turn_step(stage: TurnStage, m: &InboundMessage) -> (r: Result<(TurnStage, TurnStep), TurnError>)
    ensures
        outcome_view(r) == turn_step_spec(stage@, *m),
{
    if m.has_id && m.has_method {
        return match &m.method {
            None => Err(TurnError::ServerRequestWithoutMethod),
            Some(method) => Ok((stage, TurnStep::Reply(server_request_reply(method.as_str())))),
        };
    }
    match stage {
        TurnStage::Initializing => if opt_is(&m.id_json, "1") {
            match &m.error_json {
                Some(e) => Err(TurnError::RequestFailed(e.clone())),
                None => Ok((TurnStage::StartingThread, TurnStep::StartThread)),
            }
        } else {
            Ok((TurnStage::Initializing, TurnStep::Ignore))
        },
        TurnStage::StartingThread => if opt_is(&m.id_json, "2") {
            match &m.error_json {
                Some(e) => Err(TurnError::RequestFailed(e.clone())),
                None => match &m.thread_id {
                    None => Err(TurnError::NoThreadId),
                    Some(t) => Ok((TurnStage::StartingTurn { thread_id: t.clone() }, TurnStep::StartTurn { thread_id: t.clone() })),
                },
            }
        } else {
            Ok((TurnStage::StartingThread, TurnStep::Ignore))
        },
        TurnStage::StartingTurn { thread_id } => if opt_is(&m.id_json, "3") {
            match &m.error_json {
                Some(e) => Err(TurnError::RequestFailed(e.clone())),
                None => match &m.turn_id {
                    None => Err(TurnError::NoTurnId),
                    Some(t) => Ok((TurnStage::Running { thread_id, turn_id: t.clone() }, TurnStep::Ignore)),
                },
            }
        } else {
            Ok((TurnStage::StartingTurn { thread_id }, TurnStep::Ignore))
        },
        TurnStage::Running { thread_id, turn_id } => {
            if opt_is(&m.method, "turn/completed") && opt_is(&m.completed_turn_id, turn_id.as_str()) {
                let status = match &m.completed_status {
                    Some(s) => s.clone(),
                    None => {
                        let mut u = String::new();
                        push_str(&mut u, "unknown");
                        u
                    },
                };
                Ok((TurnStage::Running { thread_id, turn_id }, TurnStep::Completed { status }))
            } else {
                Ok((TurnStage::Running { thread_id, turn_id }, TurnStep::Ignore))
            }
        },
    }
}

/// A request of the server is answered without moving the turn on.
pub proof fn lemma_server_requests_keep_stage(stage: StageView, m: InboundMessage)
    requires
        m.has_id && m.has_method,
    ensures
        turn_step_spec(stage, m) matches Ok((next, _)) ==> next == stage,
{
}

/// A turn completes only while it runs, and only for the turn it started.
pub proof fn lemma_completion_only_for_the_started_turn(stage: StageView, m: InboundMessage)
    ensures
        turn_step_spec(stage, m) matches Ok((_, StepView::Completed { .. })) ==> (stage matches StageView::Running { turn_id, .. } && opt_view(m.completed_turn_id) == Some(turn_id)),
{
}

} // verus!
