//! The remote development channel: endpoint names that are safe to hand to `gcloud`,
//! shell quoting of remote command lines, and the decisions taken on remote replies.
use vstd::prelude::*;
use crate::text::{views, 
    chars_of, contains_seq, contains_str, has_prefix, push_char, push_single_quoted, push_str,
    single_quoted, starts_with, str_equal,
};

verus! {

broadcast use vstd::string::group_string_axioms;

/// A forwarded port of a remote connection.
#[derive(Clone, Debug)]
pub struct RemoteEndpoint {
    pub purpose: String,
    pub guest_port: u16,
    pub remote_port: u16,
    pub local_port: u16,
    pub url: String,
    pub ready: bool,
}

/// The three names that locate a cloud instance.
#[derive(Clone, Copy, Debug, PartialEq, Eq, Structural)]
pub enum EndpointField {
    Project,
    Zone,
    Instance,
}

/// Why an instance locator was refused.
#[derive(Clone, Copy, Debug, PartialEq, Eq, Structural)]
pub enum EndpointError {
    Empty { field: EndpointField },
    UnsupportedCharacters { field: EndpointField },
}

pub open spec fn field_name(f: EndpointField) -> Seq<char> {
    match f {
        EndpointField::Project => "project"@,
        EndpointField::Zone => "zone"@,
        EndpointField::Instance => "instance"@,
    }
}

impl EndpointError {
    /// The human-readable description of the error.
    pub open spec fn text(&self) -> Seq<char> {
        match *self {
            EndpointError::Empty { field } => field_name(field) + " must not be empty"@,
            EndpointError::UnsupportedCharacters { field } => field_name(field)
                + " contains unsupported characters"@,
        }
    }

    /// Renders the description of the error.
    pub fn message(&self) -> (r: String)
        ensures
            r@ == self.text(),
    {
        let mut s = String::new();
        let (field, rest) = match *self {
            EndpointError::Empty { field } => (field, " must not be empty"),
            EndpointError::UnsupportedCharacters { field } => (field, " contains unsupported characters"),
        };
        match field {
            EndpointField::Project => push_str(&mut s, "project"),
            EndpointField::Zone => push_str(&mut s, "zone"),
            EndpointField::Instance => push_str(&mut s, "instance"),
        }
        push_str(&mut s, rest);
        s
    }
}

/// A character allowed in a project, zone or instance name: ASCII letters and digits,
/// `-` and `_`.
pub open spec fn locator_char(c: char) -> bool {
    ||| 'a' <= c <= 'z'
    ||| 'A' <= c <= 'Z'
    ||| '0' <= c <= '9'
    ||| c == '-'
    ||| c == '_'
}

/// What is wrong with one locator value, if anything.
pub open spec fn locator_error(v: Seq<char>, field: EndpointField) -> Option<EndpointError> {
    if v.len() == 0 {
        Some(EndpointError::Empty { field })
    } else if exists|i: int| 0 <= i < v.len() && !locator_char(#[trigger] v[i]) {
        Some(EndpointError::UnsupportedCharacters { field })
    } else {
        None
    }
}

/// The first problem among project, zone and instance, checked in that order.
pub open spec fn endpoint_error(project: Seq<char>, zone: Seq<char>, instance: Seq<char>) -> Option<
    EndpointError,
> {
    match locator_error(project, EndpointField::Project) {
        Some(e) => Some(e),
        None => match locator_error(zone, EndpointField::Zone) {
            Some(e) => Some(e),
            None => locator_error(instance, EndpointField::Instance),
        },
    }
}

fn check_locator(value: &str, field: EndpointField) -> (r: Result<(), EndpointError>)
    ensures
        match locator_error(value@, field) {
            Some(e) => r == Err::<(), EndpointError>(e),
            None => r is Ok,
        },
{
    let c = chars_of(value);
    if c.len() == 0 {
        return Err(EndpointError::Empty { field });
    }
    let mut i: usize = 0;
    while i < c.len()
        invariant
            c@ == value@,
            i <= c@.len(),
            forall|k: int| 0 <= k < i ==> locator_char(#[trigger] c@[k]),
        decreases c@.len() - i,
    {
        let x = c[i];
        if !(('a' <= x && x <= 'z') || ('A' <= x && x <= 'Z') || ('0' <= x && x <= '9') || x == '-'
            || x == '_') {
            assert(!locator_char(c@[i as int]));
            return Err(EndpointError::UnsupportedCharacters { field });
        }
        i = i + 1;
    }
    Ok(())
}

/// Accepts a project, zone and instance only when each is a non-empty run of ASCII
/// letters, digits, `-` and `_`, so that none can carry shell syntax.
pub fn validate_endpoint(project: &str, zone: &str, instance: &str) -> (r: Result<(), EndpointError>)
    ensures
        match endpoint_error(project@, zone@, instance@) {
            Some(e) => r == Err::<(), EndpointError>(e),
            None => r is Ok,
        },
{
    check_locator(project, EndpointField::Project)?;
    check_locator(zone, EndpointField::Zone)?;
    check_locator(instance, EndpointField::Instance)?;
    Ok(())
}

/// Quotes a path for a POSIX shell: in single quotes, with every `'` written `'\''`.
pub fn shell_quote(path: &str) -> (r: String)
    ensures
        r@ == single_quoted(path@),
{
    let mut s = String::new();
    push_single_quoted(&mut s, path);
    s
}

/// The `gcloud` arguments that run `remote_command` on an instance over SSH.
pub open spec fn ssh_arguments_spec(
    project: Seq<char>,
    zone: Seq<char>,
    instance: Seq<char>,
    remote_command: Seq<char>,
) -> Seq<Seq<char>> {
    seq![
        "compute"@,
        "ssh"@,
        instance,
        "--quiet"@,
        "--project"@,
        project,
        "--zone"@,
        zone,
        "--command"@,
        remote_command,
    ]
}

fn owned(s: &str) -> (r: String)
    ensures
        r@ == s@,
{
    let mut o = String::new();
    push_str(&mut o, s);
    o
}

/// The `gcloud` arguments that run `remote_command` on an instance over SSH.
pub fn ssh_arguments(project: &str, zone: &str, instance: &str, remote_command: &str) -> (r: Vec<
    String,
>)
    ensures
        r@.len() == 10,
        forall|i: int| 0 <= i < 10 ==> #[trigger] r@[i]@ == ssh_arguments_spec(
            project@,
            zone@,
            instance@,
            remote_command@,
        )[i],
{
    let v = vec![
        owned("compute"),
        owned("ssh"),
        owned(instance),
        owned("--quiet"),
        owned("--project"),
        owned(project),
        owned("--zone"),
        owned(zone),
        owned("--command"),
        owned(remote_command),
    ];
    v
}

/// The command line that runs the remote AVM binary with arguments: every word shell
/// quoted, separated by single spaces.
pub open spec fn remote_command_line(program: Seq<char>, arguments: Seq<Seq<char>>) -> Seq<char>
    decreases arguments.len(),
{
    if arguments.len() == 0 {
        single_quoted(program)
    } else {
        remote_command_line(program, arguments.drop_last()) + seq![' '] + single_quoted(
            arguments.last(),
        )
    }
}

/// Builds the quoted command line for the remote AVM binary.
pub fn remote_command(program: &str, arguments: &[String]) -> (r: String)
    ensures
        r@ == remote_command_line(program@, views(arguments@)),
{
    let ghost args = views(arguments@);
    let mut s = shell_quote(program);
    let mut i: usize = 0;
    assert(args.take(0) =~= Seq::<Seq<char>>::empty());
    while i < arguments.len()
        invariant
            args == views(arguments@),
            i <= arguments@.len(),
            s@ == remote_command_line(program@, args.take(i as int)),
        decreases arguments@.len() - i,
    {
        push_char(&mut s, ' ');
        push_single_quoted(&mut s, arguments[i].as_str());
        assert(args.take(i + 1).drop_last() =~= args.take(i as int));
        i = i + 1;
    }
    assert(args.take(i as int) =~= args);
    s
}

/// Whether the reply to `GET /json/version` shows a Chrome DevTools endpoint: a
/// `200` status and a `webSocketDebuggerUrl` field.
pub open spec fn devtools_ready_spec(response: Seq<char>) -> bool {
    has_prefix(response, "HTTP/1.1 200"@) && contains_seq(response, "webSocketDebuggerUrl"@)
}

/// Whether a DevTools version reply shows a usable browser endpoint.
pub fn devtools_version_ready(response: &str) -> (r: bool)
    ensures
        r == devtools_ready_spec(response@),
{
    starts_with(response, "HTTP/1.1 200") && contains_str(response, "webSocketDebuggerUrl")
}

/// The fields of a remote publication status that decide whether publishing again is
/// needed: each is `None` where the reply did not hold a value of the right type.
#[derive(Clone, Debug)]
pub struct PublicationStatus {
    pub run_id: Option<String>,
    pub active: Option<bool>,
    pub source_repository_fingerprint: Option<String>,
}

/// The remote run is the channel's run, its publication is active, and it was made from
/// the same source fingerprint.
pub open spec fn publication_unchanged_spec(
    status: PublicationStatus,
    run_id: Seq<char>,
    source_fingerprint: Seq<char>,
) -> bool {
    &&& status.run_id matches Some(r) && r@ == run_id
    &&& status.active == Some(true)
    &&& status.source_repository_fingerprint matches Some(f) && f@ == source_fingerprint
}

/// Whether a publication can be skipped because the remote already holds this source.
pub fn publication_is_unchanged(status: &PublicationStatus, run_id: &str, source_fingerprint: &str) -> (r:
    bool)
    ensures
        r == publication_unchanged_spec(*status, run_id@, source_fingerprint@),
{
    let same_run = match &status.run_id {
        Some(r) => str_equal(r.as_str(), run_id),
        None => false,
    };
    let active = match status.active {
        Some(a) => a,
        None => false,
    };
    let same_source = match &status.source_repository_fingerprint {
        Some(f) => str_equal(f.as_str(), source_fingerprint),
        None => false,
    };
    same_run && active && same_source
}

} // verus!
