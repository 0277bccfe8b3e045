//! Properties of the development policy that span several transitions.
use vstd::prelude::*;

use crate::event::Provenance;
use crate::policy::{
    command_verdict_spec, declare_spec, diagnosis_error, diagnosis_spec, ensure_mutation_spec, evidence_spec, initial_touch,
    mutation_spec, touch_files, touch_rules, DeclView, EvidenceVerdict, EvidenceView, FileView, PlanView,
    PolicyPhase, PolicyView, RuleView, Touch,
};

verus! {

/// While evidence stands contradicted, no declaration is accepted, no write is allowed,
/// no mutation is recorded and no further evidence is accepted.
pub proof fn lemma_failed_evidence_blocks_progress(
    s: PolicyView,
    d: DeclView,
    observed: Seq<char>,
    before: Seq<char>,
    after: Seq<char>,
    files: Seq<FileView>,
    e: EvidenceView,
)
    requires
        s.phase == PolicyPhase::EvidenceFailed,
    ensures
        declare_spec(s, d, observed) is Err,
        ensure_mutation_spec(s) is Err,
        mutation_spec(s, before, after, files) is Err,
        evidence_spec(s, e) is Err,
{
}

/// After contradicted evidence, a valid diagnosis plan followed by one observed piece
/// of evidence for the current repository returns the policy to awaiting a declaration,
/// whatever that evidence reports.
pub proof fn lemma_diagnosis_then_observation_reopens(s: PolicyView, p: PlanView, e: EvidenceView)
    requires
        s.phase == PolicyPhase::EvidenceFailed,
        diagnosis_error(p) is None,
        e.repository_fingerprint == s.current_repository_fingerprint,
        e.provenance == Provenance::Observed,
    ensures
        diagnosis_spec(s, p) is Ok,
        diagnosis_spec(s, p)->Ok_0.phase == PolicyPhase::DiagnosticObservationRequired,
        evidence_spec(diagnosis_spec(s, p)->Ok_0, e) is Ok,
        evidence_spec(diagnosis_spec(s, p)->Ok_0, e)->Ok_0.phase == PolicyPhase::AwaitingDeclaration,
        evidence_spec(diagnosis_spec(s, p)->Ok_0, e)->Ok_0.diagnosis_plan is None,
{
}

/// Observed evidence that contradicts the prediction moves the policy to
/// `EvidenceFailed` with debt at least the configured maximum.
pub proof fn lemma_contradiction_fails_evidence(s: PolicyView, e: EvidenceView)
    requires
        s.phase != PolicyPhase::EvidenceFailed,
        s.phase != PolicyPhase::DiagnosticObservationRequired,
        e.repository_fingerprint == s.current_repository_fingerprint,
        e.provenance == Provenance::Observed,
        e.verdict == EvidenceVerdict::Contradicted,
    ensures
        evidence_spec(s, e) is Ok,
        evidence_spec(s, e)->Ok_0.phase == PolicyPhase::EvidenceFailed,
        evidence_spec(s, e)->Ok_0.debt >= s.config.maximum_evidence_debt,
        evidence_spec(s, e)->Ok_0.debt >= s.debt,
{
}

/// Evidence that was not independently observed never changes the policy.
pub proof fn lemma_unobserved_evidence_refused(s: PolicyView, e: EvidenceView)
    requires
        e.provenance != Provenance::Observed,
    ensures
        evidence_spec(s, e) is Err,
{
}

/// Only an accepted declaration opens writes, and it opens them.
pub proof fn lemma_declaration_opens_writes(s: PolicyView, d: DeclView, observed: Seq<char>)
    ensures
        declare_spec(s, d, observed) is Ok ==> s.phase == PolicyPhase::AwaitingDeclaration,
        declare_spec(s, d, observed) is Ok ==> ensure_mutation_spec(declare_spec(s, d, observed)->Ok_0) is Ok,
        s.phase == PolicyPhase::AwaitingDeclaration ==> ensure_mutation_spec(s) is Err,
{
}

/// A recorded batch consumes its declaration: the next batch is refused until a new
/// declaration is accepted.
pub proof fn lemma_each_batch_needs_a_declaration(
    s: PolicyView,
    before: Seq<char>,
    after: Seq<char>,
    files: Seq<FileView>,
    before2: Seq<char>,
    after2: Seq<char>,
    files2: Seq<FileView>,
)
    requires
        mutation_spec(s, before, after, files) is Ok,
    ensures
        mutation_spec(s, before, after, files)->Ok_0.active_declaration is None,
        mutation_spec(s, before, after, files)->Ok_0.pending_evidence_declaration == s.active_declaration,
        mutation_spec(mutation_spec(s, before, after, files)->Ok_0, before2, after2, files2) is Err,
{
}

/// Evidence is bound to a repository fingerprint: once a batch is recorded, evidence
/// gathered on the repository before the batch is refused.
pub proof fn lemma_evidence_is_fingerprint_bound(
    s: PolicyView,
    before: Seq<char>,
    after: Seq<char>,
    files: Seq<FileView>,
    e: EvidenceView,
)
    requires
        mutation_spec(s, before, after, files) is Ok,
        e.repository_fingerprint == before,
    ensures
        mutation_spec(s, before, after, files)->Ok_0.current_repository_fingerprint == after,
        evidence_spec(mutation_spec(s, before, after, files)->Ok_0, e) is Err,
{
}

/// Supported evidence that completes the required observations clears all debt.
pub proof fn lemma_complete_support_clears_debt(s: PolicyView, e: EvidenceView)
    requires
        s.phase != PolicyPhase::EvidenceFailed,
        s.phase != PolicyPhase::DiagnosticObservationRequired,
        e.repository_fingerprint == s.current_repository_fingerprint,
        e.provenance == Provenance::Observed,
        e.verdict == EvidenceVerdict::Supported,
        s.required_observations.subset_of(s.satisfied_observations.insert(e.observation_type)),
    ensures
        evidence_spec(s, e) is Ok,
        evidence_spec(s, e)->Ok_0.debt == 0,
        evidence_spec(s, e)->Ok_0.debt_reasons.len() == 0,
        evidence_spec(s, e)->Ok_0.mutation_events_since_evidence == 0,
        evidence_spec(s, e)->Ok_0.required_observations.is_empty(),
        evidence_spec(s, e)->Ok_0.phase == PolicyPhase::AwaitingDeclaration,
{
}

/// Supported evidence that leaves a required observation missing keeps evidence required.
pub proof fn lemma_partial_support_keeps_evidence_required(s: PolicyView, e: EvidenceView)
    requires
        s.phase != PolicyPhase::EvidenceFailed,
        s.phase != PolicyPhase::DiagnosticObservationRequired,
        e.repository_fingerprint == s.current_repository_fingerprint,
        e.provenance == Provenance::Observed,
        e.verdict == EvidenceVerdict::Supported,
        !s.required_observations.subset_of(s.satisfied_observations.insert(e.observation_type)),
    ensures
        evidence_spec(s, e) is Ok,
        evidence_spec(s, e)->Ok_0.phase == PolicyPhase::EvidenceRequired,
        evidence_spec(s, e)->Ok_0.required_observations == s.required_observations,
{
}

proof fn lemma_touch_rules_debt(t: Touch, file: FileView, rules: Seq<RuleView>, r: int)
    ensures
        touch_rules(t, file, rules, r).debt >= t.debt,
        t.required.subset_of(touch_rules(t, file, rules, r).required),
    decreases r,
{
    if r > 0 {
        lemma_touch_rules_debt(t, file, rules, r - 1);
    }
}

proof fn lemma_touch_files_debt(t: Touch, files: Seq<FileView>, rules: Seq<RuleView>, f: int)
    ensures
        touch_files(t, files, rules, f).debt >= t.debt,
        t.required.subset_of(touch_files(t, files, rules, f).required),
    decreases f,
{
    if f > 0 {
        lemma_touch_files_debt(t, files, rules, f - 1);
        let u = touch_files(t, files, rules, f - 1);
        lemma_touch_rules_debt(u, files[f - 1], rules, rules.len() as int);
    }
}

/// Every recorded batch adds evidence debt (unless the debt is already saturated), keeps
/// every previously required observation, and counts one more mutation event.
pub proof fn lemma_batches_accumulate_debt(s: PolicyView, before: Seq<char>, after: Seq<char>, files: Seq<FileView>)
    requires
        mutation_spec(s, before, after, files) is Ok,
        s.mutation_events_since_evidence < u32::MAX,
    ensures
        mutation_spec(s, before, after, files)->Ok_0.debt >= s.debt,
        s.debt < u32::MAX ==> mutation_spec(s, before, after, files)->Ok_0.debt > s.debt,
        s.required_observations.subset_of(mutation_spec(s, before, after, files)->Ok_0.required_observations),
        mutation_spec(s, before, after, files)->Ok_0.mutation_events_since_evidence == s.mutation_events_since_evidence + 1,
{
    let t0 = initial_touch(s, files);
    lemma_touch_files_debt(t0, files, s.config.rules, files.len() as int);
}

/// A batch leaves the policy requiring evidence exactly when a threshold is reached.
pub proof fn lemma_thresholds_require_evidence(s: PolicyView, before: Seq<char>, after: Seq<char>, files: Seq<FileView>)
    requires
        mutation_spec(s, before, after, files) is Ok,
    ensures
        ({
            let t = mutation_spec(s, before, after, files)->Ok_0;
            (t.phase == PolicyPhase::EvidenceRequired) == (t.mutation_events_since_evidence
                >= s.config.maximum_mutation_events_without_evidence || t.debt >= s.config.maximum_evidence_debt)
        }),
        mutation_spec(s, before, after, files)->Ok_0.phase == PolicyPhase::EvidenceRequired
            || mutation_spec(s, before, after, files)->Ok_0.phase == PolicyPhase::AwaitingDeclaration,
{
}

/// A command observation judges its prediction only on an unchanged repository and a
/// process that exited: then the prediction is supported exactly when the exit code is
/// the expected one, and contradicted otherwise; in every other case it is inconclusive.
pub proof fn law_command_verdicts(before: Seq<char>, after: Seq<char>, exit_code: Option<i32>, expected: i32)
    ensures
        command_verdict_spec(before, after, exit_code, expected) == EvidenceVerdict::Supported <==> (before == after
            && exit_code == Some(expected)),
        command_verdict_spec(before, after, exit_code, expected) == EvidenceVerdict::Contradicted <==> (before == after
            && exit_code is Some && exit_code != Some(expected)),
        command_verdict_spec(before, after, exit_code, expected) == EvidenceVerdict::Inconclusive <==> (before != after
            || exit_code is None),
{
}

} // verus!
