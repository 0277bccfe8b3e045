//! Evidence gathered by running a command in the candidate: where it may run, what it
//! tests (the diagnosis plan while a diagnostic observation is due, else the declaration
//! awaiting evidence), and how its outcome is reported.
use vstd::prelude::*;
use crate::paths::{components, components_prefix, parts_prefix, path_components};
use crate::policy::{PolicyPhase, PolicyState};
use crate::text::{chars_of, decimal, push_decimal, push_signed_decimal, push_str, signed_decimal, str_equal};

verus! {

broadcast use vstd::string::group_string_axioms;

/// How evidence is gathered by a command.
#[derive(Clone, Debug)]
pub struct EvidenceCommandOptions {
    pub command: Vec<String>,
    pub cwd: String,
    pub expected_exit_code: i32,
}

/// Why command evidence cannot be gathered.
#[derive(Clone, Copy, Debug, PartialEq, Eq, Structural)]
pub enum CommandEvidenceError {
    EmptyCommand,
    OutsideCandidate,
    CandidateChanged,
    NoDiagnosisPlan,
    NoDeclaration,
}

impl CommandEvidenceError {
    /// The human-readable description of the error.
    pub open spec fn text(&self) -> Seq<char> {
        match *self {
            CommandEvidenceError::EmptyCommand => "evidence command is empty"@,
            CommandEvidenceError::OutsideCandidate => "evidence command working directory must be inside the candidate"@,
            CommandEvidenceError::CandidateChanged => "candidate changed outside the supervisor before evidence acquisition"@,
            CommandEvidenceError::NoDiagnosisPlan => "diagnostic observation has no diagnosis plan"@,
            CommandEvidenceError::NoDeclaration => "evidence acquisition has no declaration to test"@,
        }
    }

    /// Renders the description of the error.
    pub fn message(&self) -> (r: String)
        ensures
            r@ == self.text(),
    {
        let mut s = String::new();
        match *self {
            CommandEvidenceError::EmptyCommand => push_str(&mut s, "evidence command is empty"),
            CommandEvidenceError::OutsideCandidate => push_str(&mut s, "evidence command working directory must be inside the candidate"),
            CommandEvidenceError::CandidateChanged => push_str(&mut s, "candidate changed outside the supervisor before evidence acquisition"),
            CommandEvidenceError::NoDiagnosisPlan => push_str(&mut s, "diagnostic observation has no diagnosis plan"),
            CommandEvidenceError::NoDeclaration => push_str(&mut s, "evidence acquisition has no declaration to test"),
        }
        s
    }
}

/// A command evidence request must name a command.
pub fn check_command(options: &EvidenceCommandOptions) -> (r: Result<(), CommandEvidenceError>)
    ensures
        r == (if options.command@.len() == 0 {
            Err(CommandEvidenceError::EmptyCommand)
        } else {
            Ok(())
        }),
{
    if options.command.len() == 0 {
        Err(CommandEvidenceError::EmptyCommand)
    } else {
        Ok(())
    }
}

/// The command must run inside the candidate: its canonical working directory begins,
/// component by component, with the candidate's path.
pub fn check_working_directory(canonical_cwd: &str, candidate: &str) -> (r: Result<(), CommandEvidenceError>)
    ensures
        r == (if components_prefix(components(candidate@), components(canonical_cwd@)) {
            Ok(())
        } else {
            Err(CommandEvidenceError::OutsideCandidate)
        }),
{
    let c = chars_of(candidate);
    let w = chars_of(canonical_cwd);
    let cp = path_components(c.as_slice());
    let wp = path_components(w.as_slice());
    if parts_prefix(cp.as_slice(), wp.as_slice()) {
        Ok(())
    } else {
        Err(CommandEvidenceError::OutsideCandidate)
    }
}

/// The candidate must be as the supervisor last recorded it.
pub fn check_unchanged(fingerprint: &str, recorded: &str) -> (r: Result<(), CommandEvidenceError>)
    ensures
        r == (if fingerprint@ == recorded@ {
            Ok(())
        } else {
            Err(CommandEvidenceError::CandidateChanged)
        }),
{
    if str_equal(fingerprint, recorded) {
        Ok(())
    } else {
        Err(CommandEvidenceError::CandidateChanged)
    }
}

/// What a piece of evidence tests.
#[derive(Clone, Debug)]
pub struct EvidenceSubject {
    pub claim: String,
    pub prediction: String,
    pub contradiction_meaning: String,
    pub observation_type: String,
    pub instrument: String,
}

/// What a command observation tests: while a diagnostic observation is due, the suspected
/// layer, predicted outcomes, hypothesis, observation type and instrument of the
/// diagnosis plan; otherwise the declaration awaiting evidence, else the active one.
pub fn evidence_subject(state: &PolicyState) -> (r: Result<EvidenceSubject, CommandEvidenceError>)
    ensures
        state.phase == PolicyPhase::DiagnosticObservationRequired ==> match state.diagnosis_plan {
            None => r == Err::<EvidenceSubject, CommandEvidenceError>(CommandEvidenceError::NoDiagnosisPlan),
            Some(plan) => r matches Ok(s) && {
                &&& s.claim@ == "diagnose suspected layer: "@ + plan.suspected_layer@
                &&& s.prediction@ == plan.predicted_outcomes@
                &&& s.contradiction_meaning@ == "the observed outcome discriminates: "@ + plan.causal_hypothesis@
                &&& s.observation_type@ == plan.observation_type@
                &&& s.instrument@ == plan.instrument@
            },
        },
        state.phase != PolicyPhase::DiagnosticObservationRequired ==> {
            let chosen = match state.pending_evidence_declaration {
                Some(d) => Some(d),
                None => state.active_declaration,
            };
            match chosen {
                None => r == Err::<EvidenceSubject, CommandEvidenceError>(CommandEvidenceError::NoDeclaration),
                Some(d) => r matches Ok(s) && {
                    &&& s.claim@ == d.intended_behavior_change@
                    &&& s.prediction@ == d.predicted_result@
                    &&& s.contradiction_meaning@ == d.contradiction_meaning@
                    &&& s.observation_type@ == d.observation_type@
                    &&& s.instrument@ == d.instrument@
                },
            }
        },
{
    if state.phase == PolicyPhase::DiagnosticObservationRequired {
        let plan = match &state.diagnosis_plan {
            Some(p) => p,
            None => return Err(CommandEvidenceError::NoDiagnosisPlan),
        };
        let mut claim = String::new();
        push_str(&mut claim, "diagnose suspected layer: ");
        push_str(&mut claim, plan.suspected_layer.as_str());
        let mut meaning = String::new();
        push_str(&mut meaning, "the observed outcome discriminates: ");
        push_str(&mut meaning, plan.causal_hypothesis.as_str());
        return Ok(EvidenceSubject {
            claim,
            prediction: plan.predicted_outcomes.clone(),
            contradiction_meaning: meaning,
            observation_type: plan.observation_type.clone(),
            instrument: plan.instrument.clone(),
        });
    }
    let declaration = match &state.pending_evidence_declaration {
        Some(d) => d,
        None => match &state.active_declaration {
            Some(d) => d,
            None => return Err(CommandEvidenceError::NoDeclaration),
        },
    };
    Ok(EvidenceSubject {
        claim: declaration.intended_behavior_change.clone(),
        prediction: declaration.predicted_result.clone(),
        contradiction_meaning: declaration.contradiction_meaning.clone(),
        observation_type: declaration.observation_type.clone(),
        instrument: declaration.instrument.clone(),
    })
}

/// What became of the repository while the command ran.
pub open spec fn mutation_note_spec(before: Seq<char>, after: Seq<char>) -> Seq<char> {
    if before == after {
        "repository fingerprint remained unchanged"@
    } else {
        "repository changed during observation from "@ + before + " to "@ + after
    }
}

/// The written form of an optional exit code, as `{:?}` writes it.
pub open spec fn exit_code_text(code: Option<i32>) -> Seq<char> {
    match code {
        Some(c) => "Some("@ + signed_decimal(c as int) + ")"@,
        None => "None"@,
    }
}

/// The observed result of a command: its exit code, the sizes of its outputs, and what
/// became of the repository.
pub open spec fn command_result_spec(code: Option<i32>, stdout_bytes: nat, stderr_bytes: nat, before: Seq<char>, after: Seq<char>) -> Seq<char> {
    "exitCode="@ + exit_code_text(code) + "; stdoutBytes="@ + decimal(stdout_bytes) + "; stderrBytes="@ + decimal(stderr_bytes) + "; "@
        + mutation_note_spec(before, after)
}

/// Writes the observed result of a command.
pub fn command_result(code: Option<i32>, stdout_bytes: usize, stderr_bytes: usize, before: &str, after: &str) -> (r: String)
    ensures
        r@ == command_result_spec(code, stdout_bytes as nat, stderr_bytes as nat, before@, after@),
{
    let mut s = String::new();
    push_str(&mut s, "exitCode=");
    match code {
        Some(c) => {
            push_str(&mut s, "Some(");
            push_signed_decimal(&mut s, c as i64);
            push_str(&mut s, ")");
        },
        None => push_str(&mut s, "None"),
    }
    push_str(&mut s, "; stdoutBytes=");
    push_decimal(&mut s, stdout_bytes as u64);
    push_str(&mut s, "; stderrBytes=");
    push_decimal(&mut s, stderr_bytes as u64);
    push_str(&mut s, "; ");
    if str_equal(before, after) {
        push_str(&mut s, "repository fingerprint remained unchanged");
    } else {
        push_str(&mut s, "repository changed during observation from ");
        push_str(&mut s, before);
        push_str(&mut s, " to ");
        push_str(&mut s, after);
    }
    s
}

} // verus!
