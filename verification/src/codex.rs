//! Supervising Codex: the options of a supervised turn, the answers given to approval
//! requests, and how each wire message is classified as an event.
use vstd::prelude::*;
use crate::scan::{last_index, last_index_of, lemma_last_index_bounds};
use crate::text::{views, chars_of, contains_seq, contains_str, has_prefix, push_char, push_str, starts_with, str_equal, string_from_chars};

verus! {

broadcast use vstd::string::group_string_axioms;

/// How the supervisor answers approval requests.
#[derive(Clone, Copy, Debug, PartialEq, Eq, Structural)]
pub enum ApprovalMode {
    Accept,
    Decline,
}

/// The answer to a legacy approval request.
#[derive(Clone, Copy, Debug, PartialEq, Eq, Structural)]
pub enum LegacyDecision {
    /// The string `approved`.
    Approved,
    /// A denial, with the supervisor's rejection message.
    Denied,
}

impl ApprovalMode {
    pub open spec fn modern_decision_spec(self) -> Seq<char> {
        match self {
            ApprovalMode::Accept => "accept"@,
            ApprovalMode::Decline => "decline"@,
        }
    }

    /// The decision string of the current approval protocol.
    pub fn modern_decision(self) -> (r: &'static str)
        ensures
            r@ == self.modern_decision_spec(),
    {
        match self {
            ApprovalMode::Accept => "accept",
            ApprovalMode::Decline => "decline",
        }
    }

    /// The decision of the legacy approval protocol.
    pub fn legacy_decision(self) -> (r: LegacyDecision)
        ensures
            (self == ApprovalMode::Accept) == (r == LegacyDecision::Approved),
    {
        match self {
            ApprovalMode::Accept => LegacyDecision::Approved,
            ApprovalMode::Decline => LegacyDecision::Denied,
        }
    }
}

/// How a supervised App Server turn is run.
#[derive(Clone, Debug)]
pub struct AppServerOptions {
    pub command: Vec<String>,
    pub cwd: String,
    pub prompt: String,
    pub model: Option<String>,
    pub approval_mode: ApprovalMode,
    pub approval_policy: String,
    pub sandbox: String,
}

fn owned(s: &str) -> (r: String)
    ensures
        r@ == s@,
{
    let mut o = String::new();
    push_str(&mut o, s);
    o
}

impl AppServerOptions {
    /// The stock `codex app-server --stdio` turn in `cwd`: approvals declined,
    /// `on-request` approval policy, `workspace-write` sandbox, the default model.
    pub fn codex(cwd: &str, prompt: &str) -> (r: Self)
        ensures
            r.command@.len() == 3,
            r.command@[0]@ == "codex"@,
            r.command@[1]@ == "app-server"@,
            r.command@[2]@ == "--stdio"@,
            r.cwd@ == cwd@,
            r.prompt@ == prompt@,
            r.model is None,
            r.approval_mode == ApprovalMode::Decline,
            r.approval_policy@ == "on-request"@,
            r.sandbox@ == "workspace-write"@,
    {
        AppServerOptions {
            command: vec![owned("codex"), owned("app-server"), owned("--stdio")],
            cwd: owned(cwd),
            prompt: owned(prompt),
            model: None,
            approval_mode: ApprovalMode::Decline,
            approval_policy: owned("on-request"),
            sandbox: owned("workspace-write"),
        }
    }
}

/// What a supervised App Server turn produced.
#[derive(Clone, Debug)]
pub struct AppServerResult {
    pub thread_id: String,
    pub turn_id: String,
    pub turn_status: String,
    pub received_messages: u64,
}

/// How a non-interactive `codex exec --json` run is made.
#[derive(Clone, Debug)]
pub struct ExecOptions {
    pub command: Vec<String>,
    pub cwd: String,
    pub prompt: String,
}

impl ExecOptions {
    /// The stock `codex` command in `cwd`.
    pub fn codex(cwd: &str, prompt: &str) -> (r: Self)
        ensures
            r.command@.len() == 1,
            r.command@[0]@ == "codex"@,
            r.cwd@ == cwd@,
            r.prompt@ == prompt@,
    {
        ExecOptions { command: vec![owned("codex")], cwd: owned(cwd), prompt: owned(prompt) }
    }
}

/// What a `codex exec --json` run produced.
#[derive(Clone, Debug)]
pub struct ExecResult {
    pub exit_code: Option<i32>,
    pub event_count: u64,
}

/// The arguments the stock `codex` command gets after its name, or none for another
/// command: `exec --json --skip-git-repo-check --sandbox workspace-write -C <cwd> <prompt>`.
pub open spec fn exec_extra_arguments_spec(command: Seq<Seq<char>>, cwd: Seq<char>, prompt: Seq<char>) -> Seq<
    Seq<char>,
> {
    if command == seq!["codex"@] {
        seq![
            "exec"@,
            "--json"@,
            "--skip-git-repo-check"@,
            "--sandbox"@,
            "workspace-write"@,
            "-C"@,
            cwd,
            prompt,
        ]
    } else {
        seq![]
    }
}

/// The arguments added after the configured command of an exec run.
pub fn exec_extra_arguments(options: &ExecOptions) -> (r: Vec<String>)
    ensures
        views(r@) == exec_extra_arguments_spec(
            views(options.command@),
            options.cwd@,
            options.prompt@,
        ),
{
    let ghost cmd = views(options.command@);
    let stock = options.command.len() == 1 && str_equal(options.command[0].as_str(), "codex");
    proof {
        assert(cmd.len() == options.command@.len());
        if options.command@.len() == 1 {
            assert(cmd[0] == options.command@[0]@);
            if options.command@[0]@ == "codex"@ {
                assert(cmd =~= seq!["codex"@]);
            }
        }
    }
    if stock {
        let v = vec![
            owned("exec"),
            owned("--json"),
            owned("--skip-git-repo-check"),
            owned("--sandbox"),
            owned("workspace-write"),
            owned("-C"),
            owned(options.cwd.as_str()),
            owned(options.prompt.as_str()),
        ];
        assert(views(v@) =~= exec_extra_arguments_spec(
            cmd,
            options.cwd@,
            options.prompt@,
        ));
        v
    } else {
        let v: Vec<String> = Vec::new();
        assert(views(v@) =~= exec_extra_arguments_spec(
            cmd,
            options.cwd@,
            options.prompt@,
        ));
        v
    }
}

/// The approval policies an App Server accepts.
pub open spec fn supported_approval_policy(p: Seq<char>) -> bool {
    p == "untrusted"@ || p == "on-request"@ || p == "never"@
}

/// Whether an approval policy is one the App Server accepts.
pub fn approval_policy_supported(policy: &str) -> (r: bool)
    ensures
        r == supported_approval_policy(policy@),
{
    str_equal(policy, "untrusted") || str_equal(policy, "on-request") || str_equal(policy, "never")
}

/// The sandbox policy type of a turn, for a sandbox mode the App Server knows.
pub open spec fn sandbox_policy_type_spec(sandbox: Seq<char>) -> Option<Seq<char>> {
    if sandbox == "workspace-write"@ {
        Some("workspaceWrite"@)
    } else if sandbox == "read-only"@ {
        Some("readOnly"@)
    } else if sandbox == "danger-full-access"@ {
        Some("dangerFullAccess"@)
    } else {
        None
    }
}

/// The sandbox policy type of a turn; `None` for an unsupported sandbox mode.
pub fn sandbox_policy_type(sandbox: &str) -> (r: Option<&'static str>)
    ensures
        match sandbox_policy_type_spec(sandbox@) {
            Some(t) => r matches Some(x) && x@ == t,
            None => r is None,
        },
{
    if str_equal(sandbox, "workspace-write") {
        Some("workspaceWrite")
    } else if str_equal(sandbox, "read-only") {
        Some("readOnly")
    } else if str_equal(sandbox, "danger-full-access") {
        Some("dangerFullAccess")
    } else {
        None
    }
}

/// How the supervisor answers a request the App Server sends it.
#[derive(Clone, Copy, Debug, PartialEq, Eq, Structural)]
pub enum ServerRequestReply {
    /// `{"decision": <modern decision>}`.
    Modern,
    /// `{"decision": <legacy decision>}`.
    Legacy,
    /// A method-not-found error.
    Unsupported,
}

pub open spec fn server_request_reply_spec(method: Seq<char>) -> ServerRequestReply {
    if method == "item/commandExecution/requestApproval"@ || method
        == "item/fileChange/requestApproval"@ {
        ServerRequestReply::Modern
    } else if method == "execCommandApproval"@ || method == "applyPatchApproval"@ {
        ServerRequestReply::Legacy
    } else {
        ServerRequestReply::Unsupported
    }
}

/// Which answer a server request gets.
pub fn server_request_reply(method: &str) -> (r: ServerRequestReply)
    ensures
        r == server_request_reply_spec(method@),
{
    if str_equal(method, "item/commandExecution/requestApproval") || str_equal(
        method,
        "item/fileChange/requestApproval",
    ) {
        ServerRequestReply::Modern
    } else if str_equal(method, "execCommandApproval") || str_equal(method, "applyPatchApproval") {
        ServerRequestReply::Legacy
    } else {
        ServerRequestReply::Unsupported
    }
}

/// The supervisor answers the two approval requests of the current protocol (a command
/// execution and a file change) with a decision string, those of the legacy protocol
/// (`execCommandApproval`, `applyPatchApproval`) with a legacy decision, and no other
/// request; accepting is `accept` or approval, declining is `decline` or a denial.
pub proof fn law_approval_replies(method: Seq<char>, mode: ApprovalMode)
    ensures
        (method == "item/commandExecution/requestApproval"@ || method == "item/fileChange/requestApproval"@)
            <==> server_request_reply_spec(method) == ServerRequestReply::Modern,
        (method == "execCommandApproval"@ || method == "applyPatchApproval"@) <==> server_request_reply_spec(method)
            == ServerRequestReply::Legacy,
        mode == ApprovalMode::Accept <==> mode.modern_decision_spec() == "accept"@,
        mode == ApprovalMode::Decline <==> mode.modern_decision_spec() == "decline"@,
{
    reveal_strlit("item/commandExecution/requestApproval");
    reveal_strlit("item/fileChange/requestApproval");
    reveal_strlit("execCommandApproval");
    reveal_strlit("applyPatchApproval");
    reveal_strlit("accept");
    reveal_strlit("decline");
    assert("item/commandExecution/requestApproval"@.len() == 37);
    assert("item/fileChange/requestApproval"@.len() == 31);
    assert("execCommandApproval"@.len() == 19);
    assert("applyPatchApproval"@.len() == 18);
    assert("accept"@.len() == 6);
    assert("decline"@.len() == 7);
}

/// Sandbox modes name their policy types in camel case: `workspace-write` is
/// `workspaceWrite`, `read-only` is `readOnly`, `danger-full-access` is
/// `dangerFullAccess`, and no other mode has a policy type.
pub proof fn law_sandbox_policy_types(mode: Seq<char>)
    ensures
        mode == "workspace-write"@ <==> sandbox_policy_type_spec(mode) == Some("workspaceWrite"@),
        mode == "read-only"@ <==> sandbox_policy_type_spec(mode) == Some("readOnly"@),
        mode == "danger-full-access"@ <==> sandbox_policy_type_spec(mode) == Some("dangerFullAccess"@),
        sandbox_policy_type_spec(mode) is Some <==> (mode == "workspace-write"@ || mode == "read-only"@ || mode
            == "danger-full-access"@),
{
    reveal_strlit("workspaceWrite");
    reveal_strlit("readOnly");
    reveal_strlit("dangerFullAccess");
    reveal_strlit("workspace-write");
    reveal_strlit("read-only");
    reveal_strlit("danger-full-access");
    assert("workspaceWrite"@.len() == 14);
    assert("readOnly"@.len() == 8);
    assert("dangerFullAccess"@.len() == 16);
    assert("workspace-write"@.len() == 15);
    assert("read-only"@.len() == 9);
    assert("danger-full-access"@.len() == 18);
}

/// `s` with every `from` replaced by `to`.
pub open spec fn replace_char(s: Seq<char>, from: char, to: char) -> Seq<char> {
    s.map_values(|c: char| if c == from { to } else { c })
}

/// The text after the last `/` (all of `s` when it has none).
pub open spec fn last_segment(s: Seq<char>) -> Seq<char> {
    s.skip(last_index_of(s, '/') + 1)
}

/// The event source and kind of an App Server wire message, from its direction, its
/// `method` (absent for a response) and its `params.item.type`.
pub open spec fn message_class(direction: Seq<char>, method: Option<Seq<char>>, item_type: Option<
    Seq<char>,
>) -> (Seq<char>, Seq<char>) {
    match method {
        None => ("agent"@, "codex."@ + direction + ".response"@),
        Some(m) => if has_prefix(m, "item/"@) {
            let phase = last_segment(m);
            if item_type == Some("commandExecution"@) {
                ("process"@, "codex.command."@ + phase)
            } else if item_type == Some("fileChange"@) {
                ("repository"@, "codex.file_change."@ + phase)
            } else if item_type == Some("mcpToolCall"@) {
                ("agent"@, "codex.mcp_tool_call."@ + phase)
            } else if contains_seq(m, "requestApproval"@) {
                ("agent"@, "codex.approval.requested"@)
            } else {
                ("agent"@, "codex."@ + replace_char(m, '/', '.'))
            }
        } else {
            ("agent"@, "codex."@ + replace_char(m, '/', '.'))
        },
    }
}

fn push_replaced(s: &mut String, t: &str, from: char, to: char)
    ensures
        final(s)@ == old(s)@ + replace_char(t@, from, to),
{
    let c = chars_of(t);
    let mut i: usize = 0;
    while i < c.len()
        invariant
            c@ == t@,
            i <= c@.len(),
            s@ == old(s)@ + replace_char(t@, from, to).take(i as int),
        decreases c@.len() - i,
    {
        if c[i] == from {
            push_char(s, to);
        } else {
            push_char(s, c[i]);
        }
        assert(replace_char(t@, from, to).take(i + 1) =~= replace_char(t@, from, to).take(
            i as int,
        ).push(replace_char(t@, from, to)[i as int]));
        i = i + 1;
    }
    assert(replace_char(t@, from, to).take(i as int) =~= replace_char(t@, from, to));
}

fn push_last_segment(s: &mut String, t: &str)
    ensures
        final(s)@ == old(s)@ + last_segment(t@),
{
    let c = chars_of(t);
    let found = last_index(c.as_slice(), c.len(), '/');
    proof {
        assert(c@.take(c@.len() as int) =~= c@);
        lemma_last_index_bounds(t@, '/');
    }
    let start: usize = match found {
        Some(k) => k + 1,
        None => 0,
    };
    let mut i: usize = start;
    while i < c.len()
        invariant
            c@ == t@,
            start <= i <= c@.len(),
            start == last_index_of(t@, '/') + 1,
            s@ == old(s)@ + t@.subrange(start as int, i as int),
        decreases c@.len() - i,
    {
        push_char(s, c[i]);
        assert(t@.subrange(start as int, i + 1) =~= t@.subrange(start as int, i as int).push(
            t@[i as int],
        ));
        i = i + 1;
    }
    assert(t@.subrange(start as int, i as int) =~= last_segment(t@));
}

/// The event source and kind of an App Server wire message.
pub fn classify_message(direction: &str, method: Option<&str>, item_type: Option<&str>) -> (r: (
    &'static str,
    String,
))
    ensures
        (r.0@, r.1@) == message_class(
            direction@,
            match method {
                Some(m) => Some(m@),
                None => None,
            },
            match item_type {
                Some(t) => Some(t@),
                None => None,
            },
        ),
{
    let mut kind = String::new();
    match method {
        None => {
            push_str(&mut kind, "codex.");
            push_str(&mut kind, direction);
            push_str(&mut kind, ".response");
            ("agent", kind)
        },
        Some(m) => {
            if starts_with(m, "item/") {
                let (is_command, is_file, is_mcp) = match item_type {
                    Some(t) => (
                        str_equal(t, "commandExecution"),
                        str_equal(t, "fileChange"),
                        str_equal(t, "mcpToolCall"),
                    ),
                    None => (false, false, false),
                };
                if is_command {
                    push_str(&mut kind, "codex.command.");
                    push_last_segment(&mut kind, m);
                    ("process", kind)
                } else if is_file {
                    push_str(&mut kind, "codex.file_change.");
                    push_last_segment(&mut kind, m);
                    ("repository", kind)
                } else if is_mcp {
                    push_str(&mut kind, "codex.mcp_tool_call.");
                    push_last_segment(&mut kind, m);
                    ("agent", kind)
                } else if contains_str(m, "requestApproval") {
                    push_str(&mut kind, "codex.approval.requested");
                    ("agent", kind)
                } else {
                    push_str(&mut kind, "codex.");
                    push_replaced(&mut kind, m, '/', '.');
                    ("agent", kind)
                }
            } else {
                push_str(&mut kind, "codex.");
                push_replaced(&mut kind, m, '/', '.');
                ("agent", kind)
            }
        },
    }
}

/// The event source and kind of a `codex exec --json` line, from its `type` and its
/// `item.type`.
pub open spec fn exec_message_class(event_type: Option<Seq<char>>, item_type: Option<Seq<char>>) -> (
    Seq<char>,
    Seq<char>,
) {
    let t = match event_type {
        Some(t) => t,
        None => "unknown"@,
    };
    let source = if item_type == Some("command_execution"@) || item_type == Some(
        "commandExecution"@,
    ) {
        "process"@
    } else if item_type == Some("file_change"@) || item_type == Some("fileChange"@) {
        "repository"@
    } else {
        "agent"@
    };
    (source, "codex.exec."@ + replace_char(t, '.', '_'))
}

/// The event source and kind of a `codex exec --json` line.
pub fn classify_exec_message(event_type: Option<&str>, item_type: Option<&str>) -> (r: (
    &'static str,
    String,
))
    ensures
        (r.0@, r.1@) == exec_message_class(
            match event_type {
                Some(m) => Some(m@),
                None => None,
            },
            match item_type {
                Some(t) => Some(t@),
                None => None,
            },
        ),
{
    let t: &str = match event_type {
        Some(t) => t,
        None => "unknown",
    };
    let source: &'static str = match item_type {
        Some(i) => if str_equal(i, "command_execution") || str_equal(i, "commandExecution") {
            "process"
        } else if str_equal(i, "file_change") || str_equal(i, "fileChange") {
            "repository"
        } else {
            "agent"
        },
        None => "agent",
    };
    let mut kind = String::new();
    push_str(&mut kind, "codex.exec.");
    push_replaced(&mut kind, t, '.', '_');
    (source, kind)
}

} // verus!
