//! Readiness reports: aggregation of checks and their human-readable rendering.
use vstd::prelude::*;

use crate::text::{join, push_char, push_single_quoted, push_str, single_quoted, views};

verus! {

/// Declares `serde_json::Value`, carried through reports as opaque evidence.
#[verifier::external_type_specification]
#[verifier::external_body]
pub struct ExJsonValue(serde_json::Value);

/// The outcome of one check.
#[derive(Clone, Copy, Debug, PartialEq, Eq, Structural)]
pub enum CheckStatus {
    Pass,
    Warn,
    Fail,
    Skip,
    Unknown,
}

/// A suggested command that repairs a failed check.
#[derive(Clone, Debug)]
pub struct Remediation {
    pub description: String,
    pub command: Vec<String>,
}

/// One readiness check.
#[derive(Debug)]
pub struct DoctorCheck {
    pub id: String,
    pub status: CheckStatus,
    pub required: bool,
    pub summary: String,
    pub evidence: serde_json::Value,
    pub remediation: Vec<Remediation>,
}

/// The overall readiness of a run.
#[derive(Clone, Copy, Debug, PartialEq, Eq, Structural)]
pub enum OverallStatus {
    Ready,
    Degraded,
    Unusable,
}

/// The readiness report of a run.
pub struct DoctorReport {
    pub generated_at: String,
    pub overall_status: OverallStatus,
    pub run_id: String,
    pub checks: Vec<DoctorCheck>,
}

/// A check.
pub fn check(
    id: &str,
    status: CheckStatus,
    required: bool,
    summary: String,
    evidence: serde_json::Value,
    remediation: Vec<Remediation>,
) -> (r: DoctorCheck)
    ensures
        r.id@ == id@,
        r.status == status,
        r.required == required,
        r.summary@ == summary@,
        r.evidence == evidence,
        r.remediation@ == remediation@,
{
    DoctorCheck { id: crate::policy::string_from_str(id), status, required, summary, evidence, remediation }
}

/// A remediation.
pub fn remediation(description: &str, command: &[&str]) -> (r: Remediation)
    ensures
        r.description@ == description@,
        views(r.command@) == command@.map_values(|s: &str| s@),
{
    Remediation {
        description: crate::policy::string_from_str(description),
        command: crate::policy::strings_from(command),
    }
}

/// The overall status of a list of checks: unusable when a required check failed,
/// degraded when any check warned, failed or is unknown, ready otherwise.
pub open spec fn aggregate_spec(checks: Seq<DoctorCheck>) -> OverallStatus {
    if exists|i: int| 0 <= i < checks.len() && #[trigger] checks[i].required && checks[i].status == CheckStatus::Fail {
        OverallStatus::Unusable
    } else if exists|i: int| 0 <= i < checks.len() && (#[trigger] checks[i].status == CheckStatus::Warn
        || checks[i].status == CheckStatus::Unknown || checks[i].status == CheckStatus::Fail) {
        OverallStatus::Degraded
    } else {
        OverallStatus::Ready
    }
}

/// The overall status of a list of checks.
pub fn aggregate(checks: &[DoctorCheck]) -> (r: OverallStatus)
    ensures
        r == aggregate_spec(checks@),
{
    let n = checks.len();
    let mut fatal = false;
    let mut degraded = false;
    for i in 0..n
        invariant
            n == checks@.len(),
            fatal == exists|k: int| 0 <= k < i && #[trigger] checks@[k].required && checks@[k].status == CheckStatus::Fail,
            degraded == exists|k: int| 0 <= k < i && (#[trigger] checks@[k].status == CheckStatus::Warn
                || checks@[k].status == CheckStatus::Unknown || checks@[k].status == CheckStatus::Fail),
    {
        let c = &checks[i];
        if c.required && c.status == CheckStatus::Fail {
            fatal = true;
        }
        if c.status == CheckStatus::Warn || c.status == CheckStatus::Unknown || c.status == CheckStatus::Fail {
            degraded = true;
        }
    }
    if fatal {
        OverallStatus::Unusable
    } else if degraded {
        OverallStatus::Degraded
    } else {
        OverallStatus::Ready
    }
}

/// The process exit code for a status.
pub open spec fn exit_code_spec(s: OverallStatus) -> i32 {
    match s {
        OverallStatus::Ready => 0,
        OverallStatus::Degraded => 10,
        OverallStatus::Unusable => 20,
    }
}

/// The exit code of a run's checks: 0 when every check passed or was skipped, 20 when a
/// required check failed, and 10 otherwise; the worse the outcome, the larger the code.
pub proof fn law_exit_code_of_checks(checks: Seq<DoctorCheck>)
    ensures
        exit_code_spec(aggregate_spec(checks)) == 0 <==> forall|i: int| 0 <= i < checks.len() ==> (#[trigger] checks[i].status
            == CheckStatus::Pass || checks[i].status == CheckStatus::Skip),
        exit_code_spec(aggregate_spec(checks)) == 20 <==> exists|i: int| 0 <= i < checks.len() && #[trigger] checks[i].required
            && checks[i].status == CheckStatus::Fail,
        exit_code_spec(aggregate_spec(checks)) == 0 || exit_code_spec(aggregate_spec(checks)) == 10
            || exit_code_spec(aggregate_spec(checks)) == 20,
{
    if exists|i: int| 0 <= i < checks.len() && #[trigger] checks[i].required && checks[i].status == CheckStatus::Fail {
        let i = choose|i: int| 0 <= i < checks.len() && #[trigger] checks[i].required && checks[i].status == CheckStatus::Fail;
        assert(!(checks[i].status == CheckStatus::Pass || checks[i].status == CheckStatus::Skip));
    }
    if !(forall|i: int| 0 <= i < checks.len() ==> (#[trigger] checks[i].status == CheckStatus::Pass || checks[i].status
        == CheckStatus::Skip)) {
        let i = choose|i: int| 0 <= i < checks.len() && !(#[trigger] checks[i].status == CheckStatus::Pass || checks[i].status
            == CheckStatus::Skip);
        assert(checks[i].status == CheckStatus::Warn || checks[i].status == CheckStatus::Unknown || checks[i].status
            == CheckStatus::Fail);
    }
}

/// Whether a character is passed to a shell unquoted.
pub open spec fn plain_char(c: char) -> bool {
    ('a' <= c && c <= 'z') || ('A' <= c && c <= 'Z') || ('0' <= c && c <= '9') || c == '-' || c == '_'
        || c == '.' || c == '/' || c == ':'
}

/// An argument as a shell shows it: unchanged when every character is plain, single-quoted otherwise.
pub open spec fn shell_word(s: Seq<char>) -> Seq<char> {
    if forall|i: int| 0 <= i < s.len() ==> plain_char(#[trigger] s[i]) {
        s
    } else {
        single_quoted(s)
    }
}

/// A command line as a shell shows it.
pub open spec fn shell_display_spec(args: Seq<Seq<char>>) -> Seq<char> {
    join(args.map_values(|a: Seq<char>| shell_word(a)), " "@)
}

fn is_plain(s: &str) -> (r: bool)
    ensures
        r == forall|i: int| 0 <= i < s@.len() ==> plain_char(#[trigger] s@[i]),
{
    let c = crate::text::chars_of(s);
    let n = c.len();
    for i in 0..n
        invariant
            n == c@.len(),
            c@ == s@,
            forall|k: int| 0 <= k < i ==> plain_char(#[trigger] c@[k]),
    {
        let x = c[i];
        if !(('a' <= x && x <= 'z') || ('A' <= x && x <= 'Z') || ('0' <= x && x <= '9') || x == '-'
            || x == '_' || x == '.' || x == '/' || x == ':') {
            assert(!plain_char(c@[i as int]));
            return false;
        }
    }
    true
}

/// Appends an argument as a shell shows it.
fn push_shell_word(out: &mut String, s: &str)
    ensures
        final(out)@ == old(out)@ + shell_word(s@),
{
    if is_plain(s) {
        push_str(out, s);
    } else {
        push_single_quoted(out, s);
    }
}

/// A command line as a shell shows it.
pub fn shell_display(arguments: &[String]) -> (r: String)
    ensures
        r@ == shell_display_spec(views(arguments@)),
{
    let mut r = String::new();
    let n = arguments.len();
    for i in 0..n
        invariant
            n == arguments@.len(),
            r@ == shell_display_spec(views(arguments@.take(i as int))),
    {
        let ghost prev = views(arguments@.take(i as int)).map_values(|a: Seq<char>| shell_word(a));
        let ghost next = views(arguments@.take(i + 1)).map_values(|a: Seq<char>| shell_word(a));
        assert(next =~= prev.push(shell_word(arguments@[i as int]@)));
        if i > 0 {
            push_str(&mut r, " ");
        }
        push_shell_word(&mut r, arguments[i].as_str());
        proof {
            if i == 0 {
                assert(next =~= seq![shell_word(arguments@[0]@)]);
            }
            assert(next.drop_last() =~= prev);
            assert(r@ =~= join(next, " "@));
        }
    }
    assert(arguments@.take(n as int) =~= arguments@);
    r
}

/// The upper-case status name used in the report header.
pub open spec fn status_title(s: OverallStatus) -> Seq<char> {
    match s {
        OverallStatus::Ready => "READY"@,
        OverallStatus::Degraded => "DEGRADED"@,
        OverallStatus::Unusable => "UNUSABLE"@,
    }
}

/// The mark of a check status.
pub open spec fn status_mark(s: CheckStatus) -> Seq<char> {
    match s {
        CheckStatus::Pass => "PASS"@,
        CheckStatus::Warn => "WARN"@,
        CheckStatus::Fail => "FAIL"@,
        CheckStatus::Skip => "SKIP"@,
        CheckStatus::Unknown => "UNKNOWN"@,
    }
}

/// The line that reports one check.
pub open spec fn check_line(c: DoctorCheck) -> Seq<char> {
    "["@ + status_mark(c.status) + "] "@ + c.id@ + ": "@ + c.summary@
}

/// The line that reports one remediation.
pub open spec fn remediation_line(r: Remediation) -> Seq<char> {
    "- "@ + r.description@ + ": "@ + shell_display_spec(views(r.command@))
}

/// The remediations of checks, in order.
pub open spec fn all_remediations(checks: Seq<DoctorCheck>) -> Seq<Remediation>
    decreases checks.len(),
{
    if checks.len() == 0 {
        Seq::empty()
    } else {
        all_remediations(checks.drop_last()) + checks.last().remediation@
    }
}

/// The lines of the human-readable report.
pub open spec fn report_lines(r: DoctorReport) -> Seq<Seq<char>> {
    let header = seq!["AVM DOCTOR: "@ + status_title(r.overall_status), "run: "@ + r.run_id@];
    let checks = r.checks@.map_values(|c: DoctorCheck| check_line(c));
    let fixes = all_remediations(r.checks@);
    if fixes.len() == 0 {
        header + checks
    } else {
        header + checks + seq!["remediation:"@] + fixes.map_values(|x: Remediation| remediation_line(x))
    }
}

impl DoctorReport {
    /// The report on a run from its checks, in their order: its overall status is that
    /// of the checks, and it is dated now.
    pub fn from_checks(run_id: String, checks: Vec<DoctorCheck>) -> (r: DoctorReport)
        ensures
            r.run_id@ == run_id@,
            r.checks@ == checks@,
            r.overall_status == aggregate_spec(checks@),
    {
        let overall_status = aggregate(checks.as_slice());
        DoctorReport { generated_at: crate::policy::now_timestamp(), overall_status, run_id, checks }
    }

    /// The process exit code: 0 when ready, 10 when degraded, 20 when unusable.
    pub fn exit_code(&self) -> (r: i32)
        ensures
            r == exit_code_spec(self.overall_status),
    {
        match self.overall_status {
            OverallStatus::Ready => 0,
            OverallStatus::Degraded => 10,
            OverallStatus::Unusable => 20,
        }
    }

    /// The report as lines of text joined by newlines.
    pub fn render_human(&self) -> (r: String)
        ensures
            r@ == join(report_lines(*self), seq!['\n']),
    {
        let mut lines: Vec<String> = Vec::new();
        let mut header = String::new();
        push_str(&mut header, "AVM DOCTOR: ");
        match self.overall_status {
            OverallStatus::Ready => push_str(&mut header, "READY"),
            OverallStatus::Degraded => push_str(&mut header, "DEGRADED"),
            OverallStatus::Unusable => push_str(&mut header, "UNUSABLE"),
        }
        lines.push(header);
        let mut run = String::new();
        push_str(&mut run, "run: ");
        push_str(&mut run, self.run_id.as_str());
        lines.push(run);
        let ghost head = seq!["AVM DOCTOR: "@ + status_title(self.overall_status), "run: "@ + self.run_id@];
        assert(views(lines@) =~= head);
        let n = self.checks.len();
        for i in 0..n
            invariant
                n == self.checks@.len(),
                views(lines@) == head + self.checks@.take(i as int).map_values(|c: DoctorCheck| check_line(c)),
        {
            let c = &self.checks[i];
            let mut line = String::new();
            push_str(&mut line, "[");
            match c.status {
                CheckStatus::Pass => push_str(&mut line, "PASS"),
                CheckStatus::Warn => push_str(&mut line, "WARN"),
                CheckStatus::Fail => push_str(&mut line, "FAIL"),
                CheckStatus::Skip => push_str(&mut line, "SKIP"),
                CheckStatus::Unknown => push_str(&mut line, "UNKNOWN"),
            }
            push_str(&mut line, "] ");
            push_str(&mut line, c.id.as_str());
            push_str(&mut line, ": ");
            push_str(&mut line, c.summary.as_str());
            let ghost prev = lines@;
            lines.push(line);
            proof {
                assert(line@ =~= check_line(*c));
                assert(views(lines@) =~= views(prev).push(line@));
                assert(self.checks@.take(i + 1).map_values(|c: DoctorCheck| check_line(c))
                    =~= self.checks@.take(i as int).map_values(|c: DoctorCheck| check_line(c)).push(check_line(*c)));
            }
        }
        assert(self.checks@.take(n as int) =~= self.checks@);
        let ghost body = views(lines@);
        let mut fix_lines: Vec<String> = Vec::new();
        for i in 0..n
            invariant
                n == self.checks@.len(),
                views(fix_lines@) == all_remediations(self.checks@.take(i as int)).map_values(|x: Remediation| remediation_line(x)),
        {
            let c = &self.checks[i];
            let ghost before = fix_lines@;
            let m = c.remediation.len();
            for j in 0..m
                invariant
                    m == c.remediation@.len(),
                    views(fix_lines@) == views(before) + c.remediation@.take(j as int).map_values(|x: Remediation| remediation_line(x)),
            {
                let x = &c.remediation[j];
                let mut line = String::new();
                push_str(&mut line, "- ");
                push_str(&mut line, x.description.as_str());
                push_str(&mut line, ": ");
                let cmd = shell_display(x.command.as_slice());
                push_str(&mut line, cmd.as_str());
                let ghost prev = fix_lines@;
                fix_lines.push(line);
                proof {
                    assert(line@ =~= remediation_line(*x));
                    assert(views(fix_lines@) =~= views(prev).push(line@));
                    assert(c.remediation@.take(j + 1).map_values(|x: Remediation| remediation_line(x))
                        =~= c.remediation@.take(j as int).map_values(|x: Remediation| remediation_line(x)).push(remediation_line(*x)));
                }
            }
            proof {
                assert(c.remediation@.take(m as int) =~= c.remediation@);
                assert(self.checks@.take(i + 1).drop_last() =~= self.checks@.take(i as int));
                let all = all_remediations(self.checks@.take(i + 1));
                assert(all == all_remediations(self.checks@.take(i as int)) + c.remediation@);
                assert(all.map_values(|x: Remediation| remediation_line(x)) =~= all_remediations(self.checks@.take(i as int)).map_values(|x: Remediation| remediation_line(x)) + c.remediation@.map_values(|x: Remediation| remediation_line(x)));
            }
        }
        if fix_lines.len() > 0 {
            lines.push(crate::policy::string_from_str("remediation:"));
            let k = fix_lines.len();
            let ghost mid = views(lines@);
            for j in 0..k
                invariant
                    k == fix_lines@.len(),
                    views(lines@) == mid + views(fix_lines@).take(j as int),
            {
                let ghost prev = lines@;
                lines.push(fix_lines[j].clone());
                assert(views(lines@) =~= views(prev).push(fix_lines@[j as int]@));
                assert(views(fix_lines@).take(j + 1) =~= views(fix_lines@).take(j as int).push(fix_lines@[j as int]@));
            }
            assert(views(fix_lines@).take(k as int) =~= views(fix_lines@));
        }
        proof {
            let fixes = all_remediations(self.checks@);
            if fixes.len() == 0 {
                assert(views(lines@) =~= report_lines(*self));
            } else {
                assert(views(lines@) =~= report_lines(*self));
            }
        }
        join_strings_lines(&lines)
    }
}

fn join_strings_lines(lines: &Vec<String>) -> (r: String)
    ensures
        r@ == join(views(lines@), seq!['\n']),
{
    proof {
        reveal_strlit("\n");
        assert("\n"@ =~= seq!['\n']);
    }
    crate::text::join_strings(lines.as_slice(), "\n")
}

} // verus!
