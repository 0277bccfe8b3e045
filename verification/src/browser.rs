//! Browser observation: how the Playwright observer is launched, what it reports, and
//! the colour distance used to match a viewport screenshot against the host frame.
use vstd::prelude::*;
use crate::paths::{components, components_prefix, path_starts_with};
use crate::text::{decimal, decimal_string, join, join_strings, push_str, trim, trim_chars, chars_of, views};

verus! {

broadcast use vstd::string::group_string_axioms;

/// How the browser observer process is run.
#[derive(Clone, Debug)]
pub struct BrowserObserverOptions {
    pub command: Vec<String>,
    pub endpoint: String,
    pub trace_path: String,
    pub sensor_artifacts_dir: String,
    pub duration_ms: u64,
}

fn owned(s: &str) -> (r: String)
    ensures
        r@ == s@,
{
    let mut o = String::new();
    push_str(&mut o, s);
    o
}

impl BrowserObserverOptions {
    /// Runs `script` with Node against the DevTools `endpoint`.
    pub fn playwright(
        script: &str,
        endpoint: String,
        trace_path: String,
        sensor_artifacts_dir: String,
        duration_ms: u64,
    ) -> (r: Self)
        ensures
            r.command@.len() == 2,
            r.command@[0]@ == "node"@,
            r.command@[1]@ == script@,
            r.endpoint == endpoint,
            r.trace_path == trace_path,
            r.sensor_artifacts_dir == sensor_artifacts_dir,
            r.duration_ms == duration_ms,
    {
        BrowserObserverOptions {
            command: vec![owned("node"), owned(script)],
            endpoint,
            trace_path,
            sensor_artifacts_dir,
            duration_ms,
        }
    }
}

/// What a browser observation produced.
#[derive(Clone, Debug)]
pub struct BrowserObserverResult {
    pub event_count: u64,
    pub trace_artifact_ref: String,
}

/// The distance between two colours: the sum of the channel differences.
pub open spec fn color_error_spec(actual: [u8; 3], expected: [u8; 3]) -> nat {
    let d = |a: u8, b: u8| if a >= b { (a - b) as nat } else { (b - a) as nat };
    d(actual[0], expected[0]) + d(actual[1], expected[1]) + d(actual[2], expected[2])
}

/// The sum of the absolute channel differences of two RGB colours.
pub fn color_error(actual: [u8; 3], expected: [u8; 3]) -> (r: u64)
    ensures
        r == color_error_spec(actual, expected),
{
    let mut total: u64 = 0;
    let mut i: usize = 0;
    while i < 3
        invariant
            i <= 3,
            total <= 255 * i,
            total == (if i > 0 {
                if actual[0] >= expected[0] { (actual[0] - expected[0]) as nat } else { (expected[0] - actual[0]) as nat }
            } else {
                0nat
            }) + (if i > 1 {
                if actual[1] >= expected[1] { (actual[1] - expected[1]) as nat } else { (expected[1] - actual[1]) as nat }
            } else {
                0nat
            }) + (if i > 2 {
                if actual[2] >= expected[2] { (actual[2] - expected[2]) as nat } else { (expected[2] - actual[2]) as nat }
            } else {
                0nat
            }),
        decreases 3 - i,
    {
        let a = actual[i];
        let b = expected[i];
        let d: u64 = if a >= b {
            (a - b) as u64
        } else {
            (b - a) as u64
        };
        total = total + d;
        i = i + 1;
    }
    total
}

/// Why a browser observation fails.
#[derive(Clone, Debug, PartialEq, Eq)]
pub enum ObserverError {
    EmptyCommand,
    EmptySource,
    EmptyKind,
    ArtifactEscaped,
    Failed { status: String, stderr: String },
    NoTrace,
}

impl ObserverError {
    /// The human-readable description of the error.
    pub open spec fn text(&self) -> Seq<char> {
        match self {
            ObserverError::EmptyCommand => "browser observer command is empty"@,
            ObserverError::EmptySource => "browser event source is empty"@,
            ObserverError::EmptyKind => "browser event kind is empty"@,
            ObserverError::ArtifactEscaped => "browser sensor artifact escaped its owned directory"@,
            ObserverError::Failed { status, stderr } => "browser observer failed with "@ + status@ + ": "@ + stderr@,
            ObserverError::NoTrace => "browser observer produced no trace"@,
        }
    }

    /// Renders the description of the error.
    pub fn message(&self) -> (r: String)
        ensures
            r@ == self.text(),
    {
        let mut s = String::new();
        match self {
            ObserverError::EmptyCommand => push_str(&mut s, "browser observer command is empty"),
            ObserverError::EmptySource => push_str(&mut s, "browser event source is empty"),
            ObserverError::EmptyKind => push_str(&mut s, "browser event kind is empty"),
            ObserverError::ArtifactEscaped => push_str(&mut s, "browser sensor artifact escaped its owned directory"),
            ObserverError::Failed { status, stderr } => {
                push_str(&mut s, "browser observer failed with ");
                push_str(&mut s, status.as_str());
                push_str(&mut s, ": ");
                push_str(&mut s, stderr.as_str());
            },
            ObserverError::NoTrace => push_str(&mut s, "browser observer produced no trace"),
        }
        s
    }
}

/// The arguments the observer program is given, after the program itself: the rest of
/// the configured command, then the endpoint, trace path, artifact directory and duration.
pub open spec fn observer_arguments_spec(command: Seq<Seq<char>>, endpoint: Seq<char>, trace_path: Seq<char>, artifacts_dir: Seq<char>, duration_ms: u64) -> Seq<Seq<char>> {
    command.skip(1) + seq![
        "--endpoint"@, endpoint, "--trace"@, trace_path, "--artifacts-dir"@, artifacts_dir, "--duration-ms"@,
        decimal(duration_ms as nat),
    ]
}

impl BrowserObserverOptions {
    /// The program to run and its arguments, with the artifact directory as resolved on
    /// disk. Refused when no program is configured.
    pub fn observer_command(&self, artifacts_dir: &str) -> (r: Result<(String, Vec<String>), ObserverError>)
        ensures
            self.command@.len() == 0 ==> r == Err::<(String, Vec<String>), ObserverError>(ObserverError::EmptyCommand),
            self.command@.len() > 0 ==> (r matches Ok((program, args)) && program@ == self.command@[0]@
                && views(args@) == observer_arguments_spec(views(self.command@), self.endpoint@, self.trace_path@, artifacts_dir@, self.duration_ms)),
    {
        let n = self.command.len();
        if n == 0 {
            return Err(ObserverError::EmptyCommand);
        }
        let program = owned(self.command[0].as_str());
        let ghost cmd = views(self.command@);
        let mut args: Vec<String> = Vec::new();
        let mut k: usize = 1;
        while k < n
            invariant
                n == self.command@.len(),
                cmd == views(self.command@),
                1 <= k <= n,
                args@.len() == k - 1,
                forall|i: int| 0 <= i < k - 1 ==> (#[trigger] args@[i])@ == cmd[i + 1],
            decreases n - k,
        {
            args.push(owned(self.command[k].as_str()));
            k = k + 1;
        }
        assert(views(args@) =~= cmd.skip(1));
        let ghost head = views(args@);
        args.push(owned("--endpoint"));
        args.push(owned(self.endpoint.as_str()));
        args.push(owned("--trace"));
        args.push(owned(self.trace_path.as_str()));
        args.push(owned("--artifacts-dir"));
        args.push(owned(artifacts_dir));
        args.push(owned("--duration-ms"));
        args.push(decimal_string(self.duration_ms));
        assert(views(args@) =~= observer_arguments_spec(cmd, self.endpoint@, self.trace_path@, artifacts_dir@, self.duration_ms));
        Ok((program, args))
    }
}

/// An observer output line that carries no event: empty after trimming whitespace.
pub fn is_blank_line(line: &str) -> (r: bool)
    ensures
        r == (trim(line@).len() == 0),
{
    let c = chars_of(line);
    trim_chars(c.as_slice()).len() == 0
}

/// A sensor event must name its source and kind.
pub fn check_sensor_event(source: &str, kind: &str) -> (r: Result<(), ObserverError>)
    ensures
        r == (if source@.len() == 0 {
            Err::<(), ObserverError>(ObserverError::EmptySource)
        } else if kind@.len() == 0 {
            Err(ObserverError::EmptyKind)
        } else {
            Ok(())
        }),
{
    if source.unicode_len() == 0 {
        return Err(ObserverError::EmptySource);
    }
    if kind.unicode_len() == 0 {
        return Err(ObserverError::EmptyKind);
    }
    Ok(())
}

/// A sensor artifact, as resolved on disk, must be a file inside the observer's own
/// artifact directory.
pub fn check_sensor_artifact(path: &str, artifacts_dir: &str, is_file: bool) -> (r: Result<(), ObserverError>)
    ensures
        r == (if components_prefix(components(artifacts_dir@), components(path@)) && is_file {
            Ok::<(), ObserverError>(())
        } else {
            Err(ObserverError::ArtifactEscaped)
        }),
{
    if path_starts_with(path, artifacts_dir) && is_file {
        Ok(())
    } else {
        Err(ObserverError::ArtifactEscaped)
    }
}

/// How an observation ends once the observer exited: it must have succeeded (else its
/// status and captured error lines are reported) and left a trace.
pub fn observer_outcome(success: bool, status: &str, stderr_lines: &[String], trace_exists: bool) -> (r: Result<(), ObserverError>)
    ensures
        !success ==> (r matches Err(ObserverError::Failed { status: s, stderr: e }) && s@ == status@
            && e@ == join(views(stderr_lines@), "\n"@)),
        success && !trace_exists ==> r == Err::<(), ObserverError>(ObserverError::NoTrace),
        success && trace_exists ==> r is Ok,
{
    if !success {
        return Err(ObserverError::Failed { status: owned(status), stderr: join_strings(stderr_lines, "\n") });
    }
    if !trace_exists {
        return Err(ObserverError::NoTrace);
    }
    Ok(())
}

} // verus!
