//! The transport to the guest command agent: which files it needs, the pinned host key
//! entry it trusts, the SSH invocation, how the agent's reply is judged, and which
//! commands are still active. Running SSH and reading files are the caller's.
use vstd::prelude::*;
use crate::scan::{split_words, words};
use crate::text::{chars_of, decimal, decimal_string, push_chars, push_str, str_equal, string_from_chars};

verus! {

broadcast use vstd::string::group_string_axioms;

/// Why a guest command cannot be sent or was refused.
#[derive(Clone, Debug, PartialEq, Eq)]
pub enum GuestCommandError {
    IdentityMissing(String),
    HostKeyMissing(String),
    NoKeyType,
    NoKeyBody,
    NotEd25519,
    Rejected(String),
}

impl GuestCommandError {
    /// The human-readable description of the error.
    pub open spec fn text(&self) -> Seq<char> {
        match self {
            GuestCommandError::IdentityMissing(p) => "guest SSH identity is missing at "@ + p@,
            GuestCommandError::HostKeyMissing(p) => "trusted guest SSH host key is missing at "@ + p@,
            GuestCommandError::NoKeyType => "guest host key has no type"@,
            GuestCommandError::NoKeyBody => "guest host key has no body"@,
            GuestCommandError::NotEd25519 => "guest host key must be Ed25519"@,
            GuestCommandError::Rejected(m) => "guest command agent rejected request: "@ + m@,
        }
    }

    /// Renders the description of the error.
    pub fn message(&self) -> (r: String)
        ensures
            r@ == self.text(),
    {
        let mut s = String::new();
        match self {
            GuestCommandError::IdentityMissing(p) => {
                push_str(&mut s, "guest SSH identity is missing at ");
                push_str(&mut s, p.as_str());
            },
            GuestCommandError::HostKeyMissing(p) => {
                push_str(&mut s, "trusted guest SSH host key is missing at ");
                push_str(&mut s, p.as_str());
            },
            GuestCommandError::NoKeyType => push_str(&mut s, "guest host key has no type"),
            GuestCommandError::NoKeyBody => push_str(&mut s, "guest host key has no body"),
            GuestCommandError::NotEd25519 => push_str(&mut s, "guest host key must be Ed25519"),
            GuestCommandError::Rejected(m) => {
                push_str(&mut s, "guest command agent rejected request: ");
                push_str(&mut s, m.as_str());
            },
        }
        s
    }
}

fn owned(s: &str) -> (r: String)
    ensures
        r@ == s@,
{
    let mut o = String::new();
    push_str(&mut o, s);
    o
}

/// The SSH identity and the trusted host key must both be files.
pub fn check_transport_files(identity: &str, identity_is_file: bool, host_key: &str, host_key_is_file: bool) -> (r: Result<(), GuestCommandError>)
    ensures
        !identity_is_file ==> (r matches Err(GuestCommandError::IdentityMissing(p)) && p@ == identity@),
        identity_is_file && !host_key_is_file ==> (r matches Err(GuestCommandError::HostKeyMissing(p)) && p@ == host_key@),
        identity_is_file && host_key_is_file ==> r is Ok,
{
    if !identity_is_file {
        return Err(GuestCommandError::IdentityMissing(owned(identity)));
    }
    if !host_key_is_file {
        return Err(GuestCommandError::HostKeyMissing(owned(host_key)));
    }
    Ok(())
}

/// The known-hosts line that pins the guest's Ed25519 host key to the forwarded port.
pub open spec fn known_hosts_line(port: u16, kind: Seq<char>, body: Seq<char>) -> Seq<char> {
    "[127.0.0.1]:"@ + decimal(port as nat) + " "@ + kind + " "@ + body + "\n"@
}

/// The known-hosts entry for a host public key file's text: its type, which must be
/// `ssh-ed25519`, and its body, pinned to `[127.0.0.1]:port`.
pub fn known_hosts_entry(key_text: &str, port: u16) -> (r: Result<String, GuestCommandError>)
    ensures
        words(key_text@).len() == 0 ==> r == Err::<String, GuestCommandError>(GuestCommandError::NoKeyType),
        words(key_text@).len() == 1 ==> r == Err::<String, GuestCommandError>(GuestCommandError::NoKeyBody),
        words(key_text@).len() >= 2 && words(key_text@)[0] != "ssh-ed25519"@ ==> r == Err::<String, GuestCommandError>(GuestCommandError::NotEd25519),
        words(key_text@).len() >= 2 && words(key_text@)[0] == "ssh-ed25519"@ ==> (r matches Ok(line)
            && line@ == known_hosts_line(port, words(key_text@)[0], words(key_text@)[1])),
{
    let c = chars_of(key_text);
    let fields = split_words(c.as_slice());
    if fields.len() == 0 {
        return Err(GuestCommandError::NoKeyType);
    }
    if fields.len() == 1 {
        return Err(GuestCommandError::NoKeyBody);
    }
    let kind = string_from_chars(fields[0].as_slice());
    if !str_equal(kind.as_str(), "ssh-ed25519") {
        return Err(GuestCommandError::NotEd25519);
    }
    let mut line = String::new();
    push_str(&mut line, "[127.0.0.1]:");
    push_str(&mut line, decimal_string(port as u64).as_str());
    push_str(&mut line, " ");
    push_str(&mut line, kind.as_str());
    push_str(&mut line, " ");
    push_chars(&mut line, fields[1].as_slice());
    push_str(&mut line, "\n");
    Ok(line)
}

/// The views of a list of strings.
pub open spec fn texts(v: Seq<String>) -> Seq<Seq<char>> {
    v.map_values(|s: String| s@)
}

/// The SSH arguments that run the guest command agent over the forwarded port, trusting
/// only the pinned host key.
pub fn transport_arguments(known_hosts: &str, identity: &str, port: u16, user: &str) -> (r: Vec<String>)
    ensures
        texts(r@) == seq![
            "-T"@, "-o"@, "BatchMode=yes"@, "-o"@, "ConnectTimeout=5"@, "-o"@, "IdentitiesOnly=yes"@,
            "-o"@, "StrictHostKeyChecking=yes"@, "-o"@, "UserKnownHostsFile="@ + known_hosts@, "-i"@, identity@,
            "-p"@, decimal(port as nat), user@ + "@127.0.0.1"@, "sudo -n /usr/local/bin/avm-command-agent"@,
        ],
{
    let mut known = owned("UserKnownHostsFile=");
    push_str(&mut known, known_hosts);
    let mut target = owned(user);
    push_str(&mut target, "@127.0.0.1");
    let r = vec![
        owned("-T"), owned("-o"), owned("BatchMode=yes"), owned("-o"), owned("ConnectTimeout=5"), owned("-o"),
        owned("IdentitiesOnly=yes"), owned("-o"), owned("StrictHostKeyChecking=yes"), owned("-o"), known, owned("-i"),
        owned(identity), owned("-p"), decimal_string(port as u64), target, owned("sudo -n /usr/local/bin/avm-command-agent"),
    ];
    assert(texts(r@) =~= seq![
        "-T"@, "-o"@, "BatchMode=yes"@, "-o"@, "ConnectTimeout=5"@, "-o"@, "IdentitiesOnly=yes"@,
        "-o"@, "StrictHostKeyChecking=yes"@, "-o"@, "UserKnownHostsFile="@ + known_hosts@, "-i"@, identity@,
        "-p"@, decimal(port as nat), user@ + "@127.0.0.1"@, "sudo -n /usr/local/bin/avm-command-agent"@,
    ]);
    r
}

/// What the agent's reply holds under `error`: nothing, or a value with its text (when it
/// is a string) and its JSON rendering.
pub enum ReplyError {
    Absent,
    Present { text: Option<String>, json: String },
}

/// Judges the agent's reply: a failed exit is a rejection with the reply's error text
/// (`unknown agent error` when there is none); a reply with an error is a rejection
/// with that error as JSON.
pub fn check_reply(exit_success: bool, error: &ReplyError) -> (r: Result<(), GuestCommandError>)
    ensures
        !exit_success ==> (r matches Err(GuestCommandError::Rejected(m)) && m@ == (match error {
            ReplyError::Present { text: Some(t), .. } => t@,
            _ => "unknown agent error"@,
        })),
        exit_success ==> match error {
            ReplyError::Absent => r is Ok,
            ReplyError::Present { json, .. } => r matches Err(GuestCommandError::Rejected(m)) && m@ == json@,
        },
{
    if !exit_success {
        return match error {
            ReplyError::Present { text: Some(t), .. } => Err(GuestCommandError::Rejected(owned(t.as_str()))),
            _ => Err(GuestCommandError::Rejected(owned("unknown agent error"))),
        };
    }
    match error {
        ReplyError::Absent => Ok(()),
        ReplyError::Present { json, .. } => Err(GuestCommandError::Rejected(owned(json.as_str()))),
    }
}

/// A command the agent lists: its `state` and `commandId`, each when a string.
pub struct ListedCommand {
    pub state: Option<String>,
    pub command_id: Option<String>,
}

/// A command that still holds the guest: accepted, starting or running.
pub open spec fn is_active(c: ListedCommand) -> bool {
    c.state matches Some(s) && (s@ == "accepted"@ || s@ == "starting"@ || s@ == "running"@)
}

/// The identifiers of the active commands, in listed order.
pub open spec fn active_ids(cs: Seq<ListedCommand>) -> Seq<Seq<char>>
    decreases cs.len(),
{
    if cs.len() == 0 {
        Seq::empty()
    } else {
        let rest = active_ids(cs.drop_last());
        let c = cs.last();
        if is_active(c) && c.command_id is Some {
            rest.push(c.command_id->0@)
        } else {
            rest
        }
    }
}

/// The identifiers of the listed commands that are still active.
pub fn active_command_ids(commands: &[ListedCommand]) -> (r: Vec<String>)
    ensures
        texts(r@) == active_ids(commands@),
{
    let mut out: Vec<String> = Vec::new();
    let mut k: usize = 0;
    while k < commands.len()
        invariant
            k <= commands@.len(),
            texts(out@) == active_ids(commands@.take(k as int)),
        decreases commands@.len() - k,
    {
        let c = &commands[k];
        assert(commands@.take(k + 1).drop_last() =~= commands@.take(k as int));
        let active = match &c.state {
            Some(s) => str_equal(s.as_str(), "accepted") || str_equal(s.as_str(), "starting") || str_equal(s.as_str(), "running"),
            None => false,
        };
        if active {
            match &c.command_id {
                Some(id) => {
                    out.push(owned(id.as_str()));
                    assert(texts(out@) =~= active_ids(commands@.take(k as int)).push(id@));
                },
                None => {},
            }
        }
        k = k + 1;
    }
    assert(commands@.take(k as int) =~= commands@);
    out
}

} // verus!
