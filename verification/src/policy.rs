//! Evaluator-owned development policy: structured declarations before edits,
//! evidence debt after edits, and diagnosis after contradicted evidence.
use vstd::prelude::*;

use crate::event::Provenance;
use crate::scan::{last_index, last_index_of, lemma_last_index_bounds};
use crate::strset::{is_set, ordered, set_contains, set_difference, set_extend, set_insert, set_is_subset, set_of, lemma_ordered_unique};
use crate::text::{
    ascii_lower_chars, ascii_lower_seq, chars_equal, chars_of, decimal, has_prefix, join,
    join_strings, push_decimal, push_str, starts_with, string_from_chars, trim, trim_chars,
    utf8_len, utf8_len_at_least, views,
};

verus! {

broadcast use vstd::string::group_string_axioms;

/// Phases of the development policy.
#[derive(Clone, Copy, Debug, PartialEq, Eq, Structural)]
pub enum PolicyPhase {
    AwaitingDeclaration,
    MutationAllowed,
    EvidenceRequired,
    EvidenceFailed,
    DiagnosticObservationRequired,
}

/// The outcome that a piece of evidence reports for its prediction.
#[derive(Clone, Copy, Debug, PartialEq, Eq, Structural)]
pub enum EvidenceVerdict {
    Supported,
    Contradicted,
    Inconclusive,
}

/// The text fields of a development declaration.
#[derive(Clone, Copy, Debug, PartialEq, Eq, Structural)]
pub enum DeclarationField {
    IntendedBehaviorChange,
    CausalHypothesis,
    ObservationType,
    Instrument,
    ActionOrCommand,
    PredictedResult,
    ContradictionMeaning,
}

/// The text fields of a diagnosis plan.
#[derive(Clone, Copy, Debug, PartialEq, Eq, Structural)]
pub enum DiagnosisField {
    SuspectedLayer,
    CausalHypothesis,
    ObservationType,
    Instrument,
    ActionOrCommand,
    PredictedOutcomes,
}

/// The text fields of an evidence record that must not be blank.
#[derive(Clone, Copy, Debug, PartialEq, Eq, Structural)]
pub enum EvidenceField {
    Claim,
    Prediction,
    ContradictionMeaning,
    ObservationType,
    Instrument,
    ActionOrCommand,
    ObservedResult,
}

/// Why the policy refused a configuration, a record or a transition.
/// `S` is `String` for values and `Seq<char>` for their specification.
#[derive(Debug)]
pub enum PolicyErrorOf<S> {
    MaximumMutationEventsNotPositive,
    MaximumEvidenceDebtNotPositive,
    RuleNameEmpty,
    RuleWithoutObservation { rule: S },
    VagueDeclaration { field: DeclarationField },
    UndiscriminatingAction,
    DeclarationWithoutFingerprint,
    VagueDiagnosis { field: DiagnosisField },
    StateInsideCandidate,
    DeclarationNotAccepted { phase: PolicyPhase },
    CandidateChangedOutside { expected: S, observed: S },
    DeclarationForOtherRepository { declared: S, current: S },
    WriteBlocked { reasons: S },
    MutationBaselineChanged,
    MutationWithoutChange,
    MutationWithoutFiles,
    DiagnosisNotAccepted,
    EvidenceForOtherRepository { evidence: S, current: S },
    EvidenceNotObserved,
    DiagnosisRequired,
    EvidenceWithoutFingerprint,
    EvidenceNotIndependent,
    EmptyEvidenceField { field: EvidenceField },
}

/// A policy error carrying strings.
pub type PolicyError = PolicyErrorOf<String>;

/// The specification of a policy error.
pub type PolicyFault = PolicyErrorOf<Seq<char>>;

impl View for PolicyErrorOf<String> {
    type V = PolicyFault;

    open spec fn view(&self) -> PolicyFault {
        match self {
            PolicyErrorOf::MaximumMutationEventsNotPositive => PolicyErrorOf::MaximumMutationEventsNotPositive,
            PolicyErrorOf::MaximumEvidenceDebtNotPositive => PolicyErrorOf::MaximumEvidenceDebtNotPositive,
            PolicyErrorOf::RuleNameEmpty => PolicyErrorOf::RuleNameEmpty,
            PolicyErrorOf::RuleWithoutObservation { rule } => PolicyErrorOf::RuleWithoutObservation { rule: rule@ },
            PolicyErrorOf::VagueDeclaration { field } => PolicyErrorOf::VagueDeclaration { field: *field },
            PolicyErrorOf::UndiscriminatingAction => PolicyErrorOf::UndiscriminatingAction,
            PolicyErrorOf::DeclarationWithoutFingerprint => PolicyErrorOf::DeclarationWithoutFingerprint,
            PolicyErrorOf::VagueDiagnosis { field } => PolicyErrorOf::VagueDiagnosis { field: *field },
            PolicyErrorOf::StateInsideCandidate => PolicyErrorOf::StateInsideCandidate,
            PolicyErrorOf::DeclarationNotAccepted { phase } => PolicyErrorOf::DeclarationNotAccepted { phase: *phase },
            PolicyErrorOf::CandidateChangedOutside { expected, observed } => PolicyErrorOf::CandidateChangedOutside {
                expected: expected@,
                observed: observed@,
            },
            PolicyErrorOf::DeclarationForOtherRepository { declared, current } => PolicyErrorOf::DeclarationForOtherRepository {
                declared: declared@,
                current: current@,
            },
            PolicyErrorOf::WriteBlocked { reasons } => PolicyErrorOf::WriteBlocked { reasons: reasons@ },
            PolicyErrorOf::MutationBaselineChanged => PolicyErrorOf::MutationBaselineChanged,
            PolicyErrorOf::MutationWithoutChange => PolicyErrorOf::MutationWithoutChange,
            PolicyErrorOf::MutationWithoutFiles => PolicyErrorOf::MutationWithoutFiles,
            PolicyErrorOf::DiagnosisNotAccepted => PolicyErrorOf::DiagnosisNotAccepted,
            PolicyErrorOf::EvidenceForOtherRepository { evidence, current } => PolicyErrorOf::EvidenceForOtherRepository {
                evidence: evidence@,
                current: current@,
            },
            PolicyErrorOf::EvidenceNotObserved => PolicyErrorOf::EvidenceNotObserved,
            PolicyErrorOf::DiagnosisRequired => PolicyErrorOf::DiagnosisRequired,
            PolicyErrorOf::EvidenceWithoutFingerprint => PolicyErrorOf::EvidenceWithoutFingerprint,
            PolicyErrorOf::EvidenceNotIndependent => PolicyErrorOf::EvidenceNotIndependent,
            PolicyErrorOf::EmptyEvidenceField { field } => PolicyErrorOf::EmptyEvidenceField { field: *field },
        }
    }
}

/// A rule that marks paths of one subsystem and the observations they require.
pub struct SubsystemRule {
    pub name: String,
    pub path_prefixes: Vec<String>,
    pub extensions: Vec<String>,
    pub required_observations: Vec<String>,
    pub debt: u32,
}

/// The thresholds and rules of the policy.
pub struct PolicyConfig {
    pub maximum_mutation_events_without_evidence: u32,
    pub maximum_evidence_debt: u32,
    pub rules: Vec<SubsystemRule>,
}

/// The specification of a subsystem rule.
pub struct RuleView {
    pub name: Seq<char>,
    pub path_prefixes: Seq<Seq<char>>,
    pub extensions: Seq<Seq<char>>,
    pub required_observations: Seq<Seq<char>>,
    pub debt: u32,
}

/// The specification of a policy configuration.
pub struct ConfigView {
    pub maximum_mutation_events_without_evidence: u32,
    pub maximum_evidence_debt: u32,
    pub rules: Seq<RuleView>,
}

impl View for SubsystemRule {
    type V = RuleView;

    open spec fn view(&self) -> RuleView {
        RuleView {
            name: self.name@,
            path_prefixes: views(self.path_prefixes@),
            extensions: views(self.extensions@),
            required_observations: views(self.required_observations@),
            debt: self.debt,
        }
    }
}

/// The specifications of a sequence of rules.
pub open spec fn rule_views(rules: Seq<SubsystemRule>) -> Seq<RuleView> {
    rules.map_values(|r: SubsystemRule| r@)
}

impl View for PolicyConfig {
    type V = ConfigView;

    open spec fn view(&self) -> ConfigView {
        ConfigView {
            maximum_mutation_events_without_evidence: self.maximum_mutation_events_without_evidence,
            maximum_evidence_debt: self.maximum_evidence_debt,
            rules: rule_views(self.rules@),
        }
    }
}

/// The last path component that is not `.`, as `Path::components` yields it (`/` separated).
pub open spec fn last_component(p: Seq<char>) -> Option<Seq<char>>
    decreases p.len(),
{
    if p.len() == 0 {
        None
    } else if p.last() == '/' {
        last_component(p.drop_last())
    } else {
        let k = last_index_of(p, '/');
        let segment = p.subrange(k + 1, p.len() as int);
        if segment == seq!['.'] {
            proof {
                lemma_last_index_bounds(p, '/');
            }
            last_component(p.subrange(0, k + 1))
        } else {
            Some(segment)
        }
    }
}

/// `Path::extension` for `/` separated paths: the part of the file name after its last
/// dot, unless the name is `..`, has no dot, or has its only dot at the start.
pub open spec fn path_extension(p: Seq<char>) -> Option<Seq<char>> {
    match last_component(p) {
        None => None,
        Some(name) => {
            let k = last_index_of(name, '.');
            if name == seq!['.', '.'] || k <= 0 {
                None
            } else {
                Some(name.subrange(k + 1, name.len() as int))
            }
        },
    }
}

/// Whether `path` is `prefix` or lies below it.
pub open spec fn under_prefix(path: Seq<char>, prefix: Seq<char>) -> bool {
    path == prefix || (has_prefix(path, prefix) && path.len() > prefix.len() && path[prefix.len() as int] == '/')
}

/// Whether a rule applies to a changed path.
pub open spec fn rule_matches(rule: RuleView, path: Seq<char>) -> bool {
    ||| exists|i: int| 0 <= i < rule.path_prefixes.len() && under_prefix(path, #[trigger] rule.path_prefixes[i])
    ||| match path_extension(path) {
        Some(e) => rule.extensions.contains(e),
        None => false,
    }
}

proof fn lemma_take_subrange(p: Seq<char>, a: int, b: int)
    requires
        0 <= a <= b <= p.len(),
    ensures
        p.take(b).subrange(a, b) == p.subrange(a, b),
        p.take(b).take(a) == p.take(a),
{
    assert(p.take(b).subrange(a, b) =~= p.subrange(a, b));
    assert(p.take(b).take(a) =~= p.take(a));
}

/// The last component of `p[..hi]`, as a range of `p`.
fn last_component_range(p: &[char], hi: usize) -> (r: Option<(usize, usize)>)
    requires
        hi <= p@.len(),
    ensures
        match r {
            Some((a, b)) => a <= b <= hi && last_component(p@.take(hi as int)) == Some(p@.subrange(a as int, b as int)),
            None => last_component(p@.take(hi as int)) is None,
        },
    decreases hi,
{
    if hi == 0 {
        return None;
    }
    if p[hi - 1] == '/' {
        assert(p@.take(hi as int).drop_last() =~= p@.take(hi - 1));
        return last_component_range(p, hi - 1);
    }
    let found = last_index(p, hi, '/');
    let ghost k = last_index_of(p@.take(hi as int), '/');
    proof {
        lemma_last_index_bounds(p@.take(hi as int), '/');
    }
    let start: usize = match found {
        Some(i) => i + 1,
        None => 0,
    };
    let ghost q = p@.take(hi as int);
    proof {
        lemma_take_subrange(p@, start as int, hi as int);
    }
    if hi - start == 1 && p[start] == '.' {
        assert(q.subrange(k + 1, q.len() as int) =~= seq!['.']);
        assert(q.subrange(0, k + 1) =~= p@.take(start as int));
        return last_component_range(p, start);
    }
    proof {
        assert(q.last() == p@[hi - 1]);
        assert(q.subrange(k + 1, q.len() as int) =~= p@.subrange(start as int, hi as int));
        if q.subrange(k + 1, q.len() as int) == seq!['.'] {
            assert(q.subrange(k + 1, q.len() as int).len() == 1);
            assert(q.subrange(k + 1, q.len() as int)[0] == p@[start as int]);
        }
    }
    Some((start, hi))
}

/// The extension of a path, as a range of its characters.
fn extension_range(p: &[char]) -> (r: Option<(usize, usize)>)
    requires
    ensures
        match r {
            Some((a, b)) => a <= b <= p@.len() && path_extension(p@) == Some(p@.subrange(a as int, b as int)),
            None => path_extension(p@) is None,
        },
{
    assert(p@.take(p@.len() as int) =~= p@);
    match last_component_range(p, p.len()) {
        None => None,
        Some((a, b)) => {
            let ghost name = p@.subrange(a as int, b as int);
            if b - a == 2 && p[a] == '.' && p[a + 1] == '.' {
                assert(name =~= seq!['.', '.']);
                return None;
            }
            proof {
                if name == seq!['.', '.'] {
                    assert(name.len() == 2 && name[0] == '.' && name[1] == '.');
                }
            }
            let mut j: usize = b;
            assert(name.take(b - a) =~= name);
            while j > a && p[j - 1] != '.'
                invariant
                    a <= j <= b,
                    b <= p@.len(),
                    name == p@.subrange(a as int, b as int),
                    last_index_of(name, '.') == last_index_of(name.take(j - a), '.'),
                decreases j,
            {
                assert(name.take(j - a).drop_last() =~= name.take(j - a - 1));
                j = j - 1;
            }
            proof {
                if j > a {
                    assert(name.take(j - a).last() == '.');
                }
            }
            if j - a <= 1 {
                None
            } else {
                assert(name.subrange(j - a, name.len() as int) =~= p@.subrange(j as int, b as int));
                Some((j, b))
            }
        },
    }
}

impl SubsystemRule {
    /// A rule matched by file extensions only.
    pub fn new(name: &str, extensions: &[&str], observations: &[&str], debt: u32) -> (r: Self)
        ensures
            r@.name == name@,
            r@.path_prefixes == Seq::<Seq<char>>::empty(),
            r@.extensions == extensions@.map_values(|s: &str| s@),
            r@.required_observations == observations@.map_values(|s: &str| s@),
            r@.debt == debt,
    {
        SubsystemRule {
            name: string_from_str(name),
            path_prefixes: Vec::new(),
            extensions: strings_from(extensions),
            required_observations: strings_from(observations),
            debt,
        }
    }

    /// Whether this rule applies to a changed path.
    pub fn matches(&self, path: &str) -> (r: bool)
        ensures
            r == rule_matches(self@, path@),
    {
        let p = chars_of(path);
        let n = self.path_prefixes.len();
        for i in 0..n
            invariant
                n == self.path_prefixes@.len(),
                p@ == path@,
                forall|k: int| 0 <= k < i ==> !under_prefix(path@, #[trigger] self@.path_prefixes[k]),
        {
            let prefix = chars_of(self.path_prefixes[i].as_str());
            let equal = chars_equal(p.as_slice(), prefix.as_slice());
            let below = starts_with(path, self.path_prefixes[i].as_str()) && p.len() > prefix.len()
                && p[prefix.len()] == '/';
            if equal || below {
                assert(self@.path_prefixes[i as int] == prefix@);
                return true;
            }
        }
        match extension_range(p.as_slice()) {
            None => false,
            Some((a, b)) => {
                let mut ext: Vec<char> = Vec::new();
                for k in a..b
                    invariant
                        a <= b <= p@.len(),
                        ext@ == p@.subrange(a as int, k as int),
                {
                    ext.push(p[k]);
                    assert(p@.subrange(a as int, k + 1) =~= p@.subrange(a as int, k as int).push(p@[k as int]));
                }
                let e = string_from_chars(ext.as_slice());
                set_contains(&self.extensions, e.as_str())
            },
        }
    }
}

/// Copies a string slice into an owned string.
pub fn string_from_str(s: &str) -> (r: String)
    ensures
        r@ == s@,
{
    let mut r = String::new();
    push_str(&mut r, s);
    assert(r@ =~= s@);
    r
}

/// Owned copies of string slices.
pub fn strings_from(items: &[&str]) -> (r: Vec<String>)
    ensures
        views(r@) == items@.map_values(|s: &str| s@),
{
    let mut r: Vec<String> = Vec::new();
    for i in 0..items.len()
        invariant
            views(r@) == items@.take(i as int).map_values(|s: &str| s@),
    {
        r.push(string_from_str(items[i]));
        assert(items@.take(i + 1).map_values(|s: &str| s@) =~= items@.take(i as int).map_values(|s: &str| s@).push(items@[i as int]@));
        assert(views(r@) =~= items@.take(i + 1).map_values(|s: &str| s@));
    }
    assert(items@.take(items@.len() as int) =~= items@);
    r
}


/// The text of a version 4 UUID in hyphenated form: 36 characters, hyphens at 8, 13,
/// 18 and 23, lower-case hexadecimal digits elsewhere, the version digit `4` at 14 and
/// one of `8`, `9`, `a`, `b` (the variant) at 19.
pub open spec fn uuid_v4_text(s: Seq<char>) -> bool {
    &&& s.len() == 36
    &&& forall|i: int| 0 <= i < 36 ==> if i == 8 || i == 13 || i == 18 || i == 23 {
        #[trigger] s[i] == '-'
    } else {
        ('0' <= s[i] <= '9') || ('a' <= s[i] <= 'f')
    }
    &&& s[14] == '4'
    &&& s[19] == '8' || s[19] == '9' || s[19] == 'a' || s[19] == 'b'
}

/// Calls `uuid::Uuid::new_v4` and formats the identifier. The contract claims that the
/// text is that of a version 4 UUID; which identifier comes out is chance.
#[verifier::external_body]
pub(crate) fn fresh_id() -> (r: String)
    ensures
        uuid_v4_text(r@),
{
    uuid::Uuid::new_v4().to_string()
}

/// Calls `chrono::Utc::now` and formats it as RFC 3339 with nanoseconds in UTC. The
/// contract states nothing of the result: it is the machine's clock.
#[verifier::external_body]
pub(crate) fn now_timestamp() -> (r: String) {
    chrono::Utc::now().to_rfc3339_opts(chrono::SecondsFormat::Nanos, true)
}

/// A structured statement made before editing: what should change and how it will be observed.
pub struct DevelopmentDeclaration {
    pub id: String,
    pub intended_behavior_change: String,
    pub causal_hypothesis: String,
    pub observation_type: String,
    pub instrument: String,
    pub action_or_command: String,
    pub predicted_result: String,
    pub contradiction_meaning: String,
    pub repository_fingerprint: String,
    pub created_at: String,
}

/// The caller-supplied part of a declaration.
pub struct DevelopmentDeclarationInput {
    pub intended_behavior_change: String,
    pub causal_hypothesis: String,
    pub observation_type: String,
    pub instrument: String,
    pub action_or_command: String,
    pub predicted_result: String,
    pub contradiction_meaning: String,
}

/// The specification of a declaration.
pub struct DeclView {
    pub id: Seq<char>,
    pub intended_behavior_change: Seq<char>,
    pub causal_hypothesis: Seq<char>,
    pub observation_type: Seq<char>,
    pub instrument: Seq<char>,
    pub action_or_command: Seq<char>,
    pub predicted_result: Seq<char>,
    pub contradiction_meaning: Seq<char>,
    pub repository_fingerprint: Seq<char>,
    pub created_at: Seq<char>,
}

impl View for DevelopmentDeclaration {
    type V = DeclView;

    open spec fn view(&self) -> DeclView {
        DeclView {
            id: self.id@,
            intended_behavior_change: self.intended_behavior_change@,
            causal_hypothesis: self.causal_hypothesis@,
            observation_type: self.observation_type@,
            instrument: self.instrument@,
            action_or_command: self.action_or_command@,
            predicted_result: self.predicted_result@,
            contradiction_meaning: self.contradiction_meaning@,
            repository_fingerprint: self.repository_fingerprint@,
            created_at: self.created_at@,
        }
    }
}

/// A text that says too little: fewer than four bytes once surrounding whitespace is removed.
pub open spec fn vague(v: Seq<char>) -> bool {
    utf8_len(trim(v)) < 4
}

/// The phrases that do not name a discriminating external observation.
pub open spec fn undiscriminating(action: Seq<char>) -> bool {
    let n = ascii_lower_seq(trim(action));
    ||| n == "verify"@
    ||| n == "verify it works"@
    ||| n == "test it"@
    ||| n == "check it"@
    ||| n == "make sure it works"@
}

/// The first problem of a declaration, in the order the fields are checked.
pub open spec fn declaration_error(d: DeclView) -> Option<PolicyFault> {
    if vague(d.intended_behavior_change) {
        Some(PolicyErrorOf::VagueDeclaration { field: DeclarationField::IntendedBehaviorChange })
    } else if vague(d.causal_hypothesis) {
        Some(PolicyErrorOf::VagueDeclaration { field: DeclarationField::CausalHypothesis })
    } else if vague(d.observation_type) {
        Some(PolicyErrorOf::VagueDeclaration { field: DeclarationField::ObservationType })
    } else if vague(d.instrument) {
        Some(PolicyErrorOf::VagueDeclaration { field: DeclarationField::Instrument })
    } else if vague(d.action_or_command) {
        Some(PolicyErrorOf::VagueDeclaration { field: DeclarationField::ActionOrCommand })
    } else if vague(d.predicted_result) {
        Some(PolicyErrorOf::VagueDeclaration { field: DeclarationField::PredictedResult })
    } else if vague(d.contradiction_meaning) {
        Some(PolicyErrorOf::VagueDeclaration { field: DeclarationField::ContradictionMeaning })
    } else if undiscriminating(d.action_or_command) {
        Some(PolicyErrorOf::UndiscriminatingAction)
    } else if !has_prefix(d.repository_fingerprint, "sha256:"@) {
        Some(PolicyErrorOf::DeclarationWithoutFingerprint)
    } else {
        None
    }
}

/// Whether a text is vague.
pub fn is_vague(v: &str) -> (r: bool)
    ensures
        r == vague(v@),
{
    let c = chars_of(v);
    let t = trim_chars(c.as_slice());
    !utf8_len_at_least(t.as_slice(), 4)
}

fn is_phrase(n: &[char], phrase: &str) -> (r: bool)
    ensures
        r == (n@ == phrase@),
{
    let p = chars_of(phrase);
    chars_equal(n, p.as_slice())
}

/// Whether an action fails to name a discriminating observation.
pub fn is_undiscriminating(action: &str) -> (r: bool)
    ensures
        r == undiscriminating(action@),
{
    let c = chars_of(action);
    let t = trim_chars(c.as_slice());
    let n = ascii_lower_chars(t.as_slice());
    is_phrase(n.as_slice(), "verify") || is_phrase(n.as_slice(), "verify it works") || is_phrase(
        n.as_slice(),
        "test it",
    ) || is_phrase(n.as_slice(), "check it") || is_phrase(n.as_slice(), "make sure it works")
}

/// Converts an optional fault into a result.
pub open spec fn fault_result(f: Option<PolicyFault>) -> Result<(), PolicyFault> {
    match f {
        Some(e) => Err(e),
        None => Ok(()),
    }
}

/// The view of a unit result with a policy error.
pub open spec fn unit_view(r: Result<(), PolicyError>) -> Result<(), PolicyFault> {
    match r {
        Ok(()) => Ok(()),
        Err(e) => Err(e@),
    }
}

impl DevelopmentDeclaration {
    /// A declaration with a fresh identifier and the current time, if it is specific enough.
    pub fn new(
        intended_behavior_change: String,
        causal_hypothesis: String,
        observation_type: String,
        instrument: String,
        action_or_command: String,
        predicted_result: String,
        contradiction_meaning: String,
        repository_fingerprint: String,
    ) -> (r: Result<Self, PolicyError>)
        ensures
            match r {
                Ok(d) => {
                    &&& declaration_error(d@) is None
                    &&& uuid_v4_text(d@.id)
                    &&& d@.intended_behavior_change == intended_behavior_change@
                    &&& d@.causal_hypothesis == causal_hypothesis@
                    &&& d@.observation_type == observation_type@
                    &&& d@.instrument == instrument@
                    &&& d@.action_or_command == action_or_command@
                    &&& d@.predicted_result == predicted_result@
                    &&& d@.contradiction_meaning == contradiction_meaning@
                    &&& d@.repository_fingerprint == repository_fingerprint@
                },
                Err(e) => declaration_error(DeclView {
                    intended_behavior_change: intended_behavior_change@,
                    causal_hypothesis: causal_hypothesis@,
                    observation_type: observation_type@,
                    instrument: instrument@,
                    action_or_command: action_or_command@,
                    predicted_result: predicted_result@,
                    contradiction_meaning: contradiction_meaning@,
                    repository_fingerprint: repository_fingerprint@,
                    ..arbitrary_decl_view()
                }) == Some(e@),
            },
    {
        let declaration = DevelopmentDeclaration {
            id: fresh_id(),
            intended_behavior_change,
            causal_hypothesis,
            observation_type,
            instrument,
            action_or_command,
            predicted_result,
            contradiction_meaning,
            repository_fingerprint,
            created_at: now_timestamp(),
        };
        match declaration.validate() {
            Ok(()) => Ok(declaration),
            Err(e) => {
                assert(declaration_error(declaration@) == declaration_error(DeclView {
                    intended_behavior_change: declaration@.intended_behavior_change,
                    causal_hypothesis: declaration@.causal_hypothesis,
                    observation_type: declaration@.observation_type,
                    instrument: declaration@.instrument,
                    action_or_command: declaration@.action_or_command,
                    predicted_result: declaration@.predicted_result,
                    contradiction_meaning: declaration@.contradiction_meaning,
                    repository_fingerprint: declaration@.repository_fingerprint,
                    ..arbitrary_decl_view()
                }));
                Err(e)
            },
        }
    }

    /// Checks that every field says enough and the action names a discriminating observation.
    pub fn validate(&self) -> (r: Result<(), PolicyError>)
        ensures
            unit_view(r) == fault_result(declaration_error(self@)),
    {
        if is_vague(self.intended_behavior_change.as_str()) {
            return Err(PolicyErrorOf::VagueDeclaration { field: DeclarationField::IntendedBehaviorChange });
        }
        if is_vague(self.causal_hypothesis.as_str()) {
            return Err(PolicyErrorOf::VagueDeclaration { field: DeclarationField::CausalHypothesis });
        }
        if is_vague(self.observation_type.as_str()) {
            return Err(PolicyErrorOf::VagueDeclaration { field: DeclarationField::ObservationType });
        }
        if is_vague(self.instrument.as_str()) {
            return Err(PolicyErrorOf::VagueDeclaration { field: DeclarationField::Instrument });
        }
        if is_vague(self.action_or_command.as_str()) {
            return Err(PolicyErrorOf::VagueDeclaration { field: DeclarationField::ActionOrCommand });
        }
        if is_vague(self.predicted_result.as_str()) {
            return Err(PolicyErrorOf::VagueDeclaration { field: DeclarationField::PredictedResult });
        }
        if is_vague(self.contradiction_meaning.as_str()) {
            return Err(PolicyErrorOf::VagueDeclaration { field: DeclarationField::ContradictionMeaning });
        }
        if is_undiscriminating(self.action_or_command.as_str()) {
            return Err(PolicyErrorOf::UndiscriminatingAction);
        }
        if !starts_with(self.repository_fingerprint.as_str(), "sha256:") {
            return Err(PolicyErrorOf::DeclarationWithoutFingerprint);
        }
        Ok(())
    }
}

/// A declaration view whose fields are all empty; used to describe inputs that have no identifier yet.
pub open spec fn arbitrary_decl_view() -> DeclView {
    DeclView {
        id: Seq::empty(),
        intended_behavior_change: Seq::empty(),
        causal_hypothesis: Seq::empty(),
        observation_type: Seq::empty(),
        instrument: Seq::empty(),
        action_or_command: Seq::empty(),
        predicted_result: Seq::empty(),
        contradiction_meaning: Seq::empty(),
        repository_fingerprint: Seq::empty(),
        created_at: Seq::empty(),
    }
}

impl DevelopmentDeclarationInput {
    /// Binds the input to a repository fingerprint, giving a validated declaration.
    pub fn bind(self, repository_fingerprint: String) -> (r: Result<DevelopmentDeclaration, PolicyError>)
        ensures
            match r {
                Ok(d) => {
                    &&& declaration_error(d@) is None
                    &&& d@.intended_behavior_change == self.intended_behavior_change@
                    &&& d@.causal_hypothesis == self.causal_hypothesis@
                    &&& d@.observation_type == self.observation_type@
                    &&& d@.instrument == self.instrument@
                    &&& d@.action_or_command == self.action_or_command@
                    &&& d@.predicted_result == self.predicted_result@
                    &&& d@.contradiction_meaning == self.contradiction_meaning@
                    &&& d@.repository_fingerprint == repository_fingerprint@
                },
                Err(e) => declaration_error(DeclView {
                    intended_behavior_change: self.intended_behavior_change@,
                    causal_hypothesis: self.causal_hypothesis@,
                    observation_type: self.observation_type@,
                    instrument: self.instrument@,
                    action_or_command: self.action_or_command@,
                    predicted_result: self.predicted_result@,
                    contradiction_meaning: self.contradiction_meaning@,
                    repository_fingerprint: repository_fingerprint@,
                    ..arbitrary_decl_view()
                }) == Some(e@),
            },
    {
        DevelopmentDeclaration::new(
            self.intended_behavior_change,
            self.causal_hypothesis,
            self.observation_type,
            self.instrument,
            self.action_or_command,
            self.predicted_result,
            self.contradiction_meaning,
            repository_fingerprint,
        )
    }
}

/// A causal diagnosis registered after contradicted evidence.
pub struct DiagnosisPlan {
    pub suspected_layer: String,
    pub causal_hypothesis: String,
    pub observation_type: String,
    pub instrument: String,
    pub action_or_command: String,
    pub predicted_outcomes: String,
    pub created_at: String,
}

/// The caller-supplied part of a diagnosis plan.
pub struct DiagnosisPlanInput {
    pub suspected_layer: String,
    pub causal_hypothesis: String,
    pub observation_type: String,
    pub instrument: String,
    pub action_or_command: String,
    pub predicted_outcomes: String,
}

/// The specification of a diagnosis plan.
pub struct PlanView {
    pub suspected_layer: Seq<char>,
    pub causal_hypothesis: Seq<char>,
    pub observation_type: Seq<char>,
    pub instrument: Seq<char>,
    pub action_or_command: Seq<char>,
    pub predicted_outcomes: Seq<char>,
    pub created_at: Seq<char>,
}

impl View for DiagnosisPlan {
    type V = PlanView;

    open spec fn view(&self) -> PlanView {
        PlanView {
            suspected_layer: self.suspected_layer@,
            causal_hypothesis: self.causal_hypothesis@,
            observation_type: self.observation_type@,
            instrument: self.instrument@,
            action_or_command: self.action_or_command@,
            predicted_outcomes: self.predicted_outcomes@,
            created_at: self.created_at@,
        }
    }
}

/// The first vague field of a diagnosis plan.
pub open spec fn diagnosis_error(p: PlanView) -> Option<PolicyFault> {
    if vague(p.suspected_layer) {
        Some(PolicyErrorOf::VagueDiagnosis { field: DiagnosisField::SuspectedLayer })
    } else if vague(p.causal_hypothesis) {
        Some(PolicyErrorOf::VagueDiagnosis { field: DiagnosisField::CausalHypothesis })
    } else if vague(p.observation_type) {
        Some(PolicyErrorOf::VagueDiagnosis { field: DiagnosisField::ObservationType })
    } else if vague(p.instrument) {
        Some(PolicyErrorOf::VagueDiagnosis { field: DiagnosisField::Instrument })
    } else if vague(p.action_or_command) {
        Some(PolicyErrorOf::VagueDiagnosis { field: DiagnosisField::ActionOrCommand })
    } else if vague(p.predicted_outcomes) {
        Some(PolicyErrorOf::VagueDiagnosis { field: DiagnosisField::PredictedOutcomes })
    } else {
        None
    }
}

impl DiagnosisPlanInput {
    /// The plan, stamped with the current time.
    pub fn into_plan(self) -> (r: DiagnosisPlan)
        ensures
            r@.suspected_layer == self.suspected_layer@,
            r@.causal_hypothesis == self.causal_hypothesis@,
            r@.observation_type == self.observation_type@,
            r@.instrument == self.instrument@,
            r@.action_or_command == self.action_or_command@,
            r@.predicted_outcomes == self.predicted_outcomes@,
    {
        DiagnosisPlan {
            suspected_layer: self.suspected_layer,
            causal_hypothesis: self.causal_hypothesis,
            observation_type: self.observation_type,
            instrument: self.instrument,
            action_or_command: self.action_or_command,
            predicted_outcomes: self.predicted_outcomes,
            created_at: now_timestamp(),
        }
    }
}

impl DiagnosisPlan {
    /// Checks that every field of the plan says enough.
    pub fn validate(&self) -> (r: Result<(), PolicyError>)
        ensures
            unit_view(r) == fault_result(diagnosis_error(self@)),
    {
        if is_vague(self.suspected_layer.as_str()) {
            return Err(PolicyErrorOf::VagueDiagnosis { field: DiagnosisField::SuspectedLayer });
        }
        if is_vague(self.causal_hypothesis.as_str()) {
            return Err(PolicyErrorOf::VagueDiagnosis { field: DiagnosisField::CausalHypothesis });
        }
        if is_vague(self.observation_type.as_str()) {
            return Err(PolicyErrorOf::VagueDiagnosis { field: DiagnosisField::ObservationType });
        }
        if is_vague(self.instrument.as_str()) {
            return Err(PolicyErrorOf::VagueDiagnosis { field: DiagnosisField::Instrument });
        }
        if is_vague(self.action_or_command.as_str()) {
            return Err(PolicyErrorOf::VagueDiagnosis { field: DiagnosisField::ActionOrCommand });
        }
        if is_vague(self.predicted_outcomes.as_str()) {
            return Err(PolicyErrorOf::VagueDiagnosis { field: DiagnosisField::PredictedOutcomes });
        }
        Ok(())
    }
}

/// The first problem of a configuration.
pub open spec fn config_error(c: ConfigView) -> Option<PolicyFault> {
    if c.maximum_mutation_events_without_evidence == 0 {
        Some(PolicyErrorOf::MaximumMutationEventsNotPositive)
    } else if c.maximum_evidence_debt == 0 {
        Some(PolicyErrorOf::MaximumEvidenceDebtNotPositive)
    } else {
        rules_error(c.rules, 0)
    }
}

/// The first problem among the rules from index `i` on.
pub open spec fn rules_error(rules: Seq<RuleView>, i: int) -> Option<PolicyFault>
    decreases rules.len() - i,
{
    if i < 0 || i >= rules.len() {
        None
    } else if trim(rules[i].name).len() == 0 {
        Some(PolicyErrorOf::RuleNameEmpty)
    } else if rules[i].required_observations.len() == 0 {
        Some(PolicyErrorOf::RuleWithoutObservation { rule: rules[i].name })
    } else {
        rules_error(rules, i + 1)
    }
}

impl PolicyConfig {
    /// The default thresholds and subsystem rules.
    pub fn default_config() -> (r: Self)
        ensures
            r@.maximum_mutation_events_without_evidence == 3,
            r@.maximum_evidence_debt == 6,
            r@.rules.len() == 3,
            r@.rules[0].name == "ui_interaction"@,
            r@.rules[0].path_prefixes.len() == 0,
            r@.rules[0].extensions == seq!["html"@, "css"@, "tsx"@, "jsx"@],
            r@.rules[0].required_observations == seq!["browser_interaction"@],
            r@.rules[0].debt == 2,
            r@.rules[1].name == "typed_domain"@,
            r@.rules[1].path_prefixes.len() == 0,
            r@.rules[1].extensions == seq!["ts"@, "tsx"@],
            r@.rules[1].required_observations == seq!["targeted_test"@, "type_check"@],
            r@.rules[1].debt == 1,
            r@.rules[2].name == "database"@,
            r@.rules[2].path_prefixes.len() == 0,
            r@.rules[2].extensions == seq!["sql"@],
            r@.rules[2].required_observations == seq!["migration_round_trip"@],
            r@.rules[2].debt == 2,
    {
        let mut rules: Vec<SubsystemRule> = Vec::new();
        rules.push(SubsystemRule::new("ui_interaction", &["html", "css", "tsx", "jsx"], &["browser_interaction"], 2));
        rules.push(SubsystemRule::new("typed_domain", &["ts", "tsx"], &["targeted_test", "type_check"], 1));
        rules.push(SubsystemRule::new("database", &["sql"], &["migration_round_trip"], 2));
        let r = PolicyConfig {
            maximum_mutation_events_without_evidence: 3,
            maximum_evidence_debt: 6,
            rules,
        };
        assert(r@.rules[0] == rules@[0]@);
        assert(r@.rules[0].extensions =~= seq!["html"@, "css"@, "tsx"@, "jsx"@]);
        assert(r@.rules[0].required_observations =~= seq!["browser_interaction"@]);
        assert(r@.rules[1].extensions =~= seq!["ts"@, "tsx"@]);
        assert(r@.rules[1].required_observations =~= seq!["targeted_test"@, "type_check"@]);
        assert(r@.rules[2].extensions =~= seq!["sql"@]);
        assert(r@.rules[2].required_observations =~= seq!["migration_round_trip"@]);
        r
    }

    /// Checks the thresholds and that every rule has a name and an observation.
    pub fn validate(&self) -> (r: Result<(), PolicyError>)
        ensures
            unit_view(r) == fault_result(config_error(self@)),
    {
        if self.maximum_mutation_events_without_evidence == 0 {
            return Err(PolicyErrorOf::MaximumMutationEventsNotPositive);
        }
        if self.maximum_evidence_debt == 0 {
            return Err(PolicyErrorOf::MaximumEvidenceDebtNotPositive);
        }
        let n = self.rules.len();
        for i in 0..n
            invariant
                n == self.rules@.len(),
                self@.maximum_mutation_events_without_evidence != 0,
                self@.maximum_evidence_debt != 0,
                config_error(self@) == rules_error(self@.rules, i as int),
        {
            let rule = &self.rules[i];
            let name = chars_of(rule.name.as_str());
            let trimmed = trim_chars(name.as_slice());
            if trimmed.len() == 0 {
                return Err(PolicyErrorOf::RuleNameEmpty);
            }
            if rule.required_observations.len() == 0 {
                return Err(PolicyErrorOf::RuleWithoutObservation { rule: rule.name.clone() });
            }
        }
        Ok(())
    }
}

impl Default for PolicyConfig {
    fn default() -> (r: Self)
        ensures
            r@.maximum_mutation_events_without_evidence == 3,
            r@.maximum_evidence_debt == 6,
            r@.rules.len() == 3,
    {
        Self::default_config()
    }
}

/// A path that a mutation batch changed, and how (`added`, `modified`, `deleted`, ...).
pub struct ChangedFile {
    pub path: String,
    pub status: String,
}

/// The specification of a changed file.
pub struct FileView {
    pub path: Seq<char>,
    pub status: Seq<char>,
}

impl View for ChangedFile {
    type V = FileView;

    open spec fn view(&self) -> FileView {
        FileView { path: self.path@, status: self.status@ }
    }
}

/// The specifications of changed files.
pub open spec fn file_views(files: Seq<ChangedFile>) -> Seq<FileView> {
    files.map_values(|f: ChangedFile| f@)
}

/// An independently observed piece of evidence about a declared prediction.
pub struct EvidenceRecord {
    pub id: String,
    pub session_id: String,
    pub repository_fingerprint: String,
    pub claim: String,
    pub prediction: String,
    pub contradiction_meaning: String,
    pub observation_type: String,
    pub instrument: String,
    pub started_at: String,
    pub completed_at: String,
    pub action_or_command: String,
    pub working_directory: Option<String>,
    pub environment_identity: Option<String>,
    pub exit_code: Option<i32>,
    pub raw_artifacts: Vec<String>,
    pub supporting_event_ids: Vec<String>,
    pub observed_result: String,
    pub verdict: EvidenceVerdict,
    pub provenance: Provenance,
}

/// The part of an evidence record that the policy reads.
pub struct EvidenceView {
    pub id: Seq<char>,
    pub repository_fingerprint: Seq<char>,
    pub observation_type: Seq<char>,
    pub verdict: EvidenceVerdict,
    pub provenance: Provenance,
}

impl View for EvidenceRecord {
    type V = EvidenceView;

    open spec fn view(&self) -> EvidenceView {
        EvidenceView {
            id: self.id@,
            repository_fingerprint: self.repository_fingerprint@,
            observation_type: self.observation_type@,
            verdict: self.verdict,
            provenance: self.provenance,
        }
    }
}

/// Whether a text is blank once surrounding whitespace is removed.
pub open spec fn blank(v: Seq<char>) -> bool {
    trim(v).len() == 0
}

/// The first problem of a completed evidence record.
pub open spec fn evidence_error(r: EvidenceRecord) -> Option<PolicyFault> {
    if !has_prefix(r.repository_fingerprint@, "sha256:"@) {
        Some(PolicyErrorOf::EvidenceWithoutFingerprint)
    } else if r.provenance != Provenance::Observed {
        Some(PolicyErrorOf::EvidenceNotIndependent)
    } else if blank(r.claim@) {
        Some(PolicyErrorOf::EmptyEvidenceField { field: EvidenceField::Claim })
    } else if blank(r.prediction@) {
        Some(PolicyErrorOf::EmptyEvidenceField { field: EvidenceField::Prediction })
    } else if blank(r.contradiction_meaning@) {
        Some(PolicyErrorOf::EmptyEvidenceField { field: EvidenceField::ContradictionMeaning })
    } else if blank(r.observation_type@) {
        Some(PolicyErrorOf::EmptyEvidenceField { field: EvidenceField::ObservationType })
    } else if blank(r.instrument@) {
        Some(PolicyErrorOf::EmptyEvidenceField { field: EvidenceField::Instrument })
    } else if blank(r.action_or_command@) {
        Some(PolicyErrorOf::EmptyEvidenceField { field: EvidenceField::ActionOrCommand })
    } else if blank(r.observed_result@) {
        Some(PolicyErrorOf::EmptyEvidenceField { field: EvidenceField::ObservedResult })
    } else {
        None
    }
}

fn is_blank(v: &str) -> (r: bool)
    ensures
        r == blank(v@),
{
    let c = chars_of(v);
    let t = trim_chars(c.as_slice());
    t.len() == 0
}

impl EvidenceRecord {
    /// Checks that the record is bound to a repository, observed, and complete.
    pub fn validate(&self) -> (r: Result<(), PolicyError>)
        ensures
            unit_view(r) == fault_result(evidence_error(*self)),
    {
        if !starts_with(self.repository_fingerprint.as_str(), "sha256:") {
            return Err(PolicyErrorOf::EvidenceWithoutFingerprint);
        }
        if self.provenance != Provenance::Observed {
            return Err(PolicyErrorOf::EvidenceNotIndependent);
        }
        if is_blank(self.claim.as_str()) {
            return Err(PolicyErrorOf::EmptyEvidenceField { field: EvidenceField::Claim });
        }
        if is_blank(self.prediction.as_str()) {
            return Err(PolicyErrorOf::EmptyEvidenceField { field: EvidenceField::Prediction });
        }
        if is_blank(self.contradiction_meaning.as_str()) {
            return Err(PolicyErrorOf::EmptyEvidenceField { field: EvidenceField::ContradictionMeaning });
        }
        if is_blank(self.observation_type.as_str()) {
            return Err(PolicyErrorOf::EmptyEvidenceField { field: EvidenceField::ObservationType });
        }
        if is_blank(self.instrument.as_str()) {
            return Err(PolicyErrorOf::EmptyEvidenceField { field: EvidenceField::Instrument });
        }
        if is_blank(self.action_or_command.as_str()) {
            return Err(PolicyErrorOf::EmptyEvidenceField { field: EvidenceField::ActionOrCommand });
        }
        if is_blank(self.observed_result.as_str()) {
            return Err(PolicyErrorOf::EmptyEvidenceField { field: EvidenceField::ObservedResult });
        }
        Ok(())
    }
}

/// The verdict of a command observation: a repository that changed during the
/// observation, or a process without an exit code, proves nothing; otherwise the
/// exit code either matches the expectation or contradicts it.
pub open spec fn command_verdict_spec(before: Seq<char>, after: Seq<char>, exit_code: Option<i32>, expected: i32) -> EvidenceVerdict {
    if after != before || exit_code is None {
        EvidenceVerdict::Inconclusive
    } else if exit_code == Some(expected) {
        EvidenceVerdict::Supported
    } else {
        EvidenceVerdict::Contradicted
    }
}

/// The verdict of a command observation.
pub fn command_verdict(before: &str, after: &str, exit_code: Option<i32>, expected: i32) -> (r: EvidenceVerdict)
    ensures
        r == command_verdict_spec(before@, after@, exit_code, expected),
{
    let same = crate::text::str_equal(before, after);
    match exit_code {
        None => EvidenceVerdict::Inconclusive,
        Some(code) => {
            if !same {
                EvidenceVerdict::Inconclusive
            } else if code == expected {
                EvidenceVerdict::Supported
            } else {
                EvidenceVerdict::Contradicted
            }
        },
    }
}

/// The evaluator-owned policy state of one session.
pub struct PolicyState {
    pub session_id: String,
    pub candidate_workspace: String,
    pub state_dir: String,
    pub phase: PolicyPhase,
    pub current_repository_fingerprint: String,
    pub last_evidence_fingerprint: Option<String>,
    pub debt: u32,
    pub debt_reasons: Vec<String>,
    pub mutation_events_since_evidence: u32,
    pub required_observations: Vec<String>,
    pub satisfied_observations: Vec<String>,
    pub active_declaration: Option<DevelopmentDeclaration>,
    pub pending_evidence_declaration: Option<DevelopmentDeclaration>,
    pub diagnosis_plan: Option<DiagnosisPlan>,
    pub config: PolicyConfig,
}

/// The specification of the policy state.
pub struct PolicyView {
    pub session_id: Seq<char>,
    pub candidate_workspace: Seq<char>,
    pub state_dir: Seq<char>,
    pub phase: PolicyPhase,
    pub current_repository_fingerprint: Seq<char>,
    pub last_evidence_fingerprint: Option<Seq<char>>,
    pub debt: u32,
    pub debt_reasons: Seq<Seq<char>>,
    pub mutation_events_since_evidence: u32,
    pub required_observations: Set<Seq<char>>,
    pub satisfied_observations: Set<Seq<char>>,
    pub active_declaration: Option<DeclView>,
    pub pending_evidence_declaration: Option<DeclView>,
    pub diagnosis_plan: Option<PlanView>,
    pub config: ConfigView,
}

/// The view of an optional string.
pub open spec fn opt_view(o: Option<String>) -> Option<Seq<char>> {
    match o {
        Some(s) => Some(s@),
        None => None,
    }
}

/// The view of an optional declaration.
pub open spec fn opt_decl(o: Option<DevelopmentDeclaration>) -> Option<DeclView> {
    match o {
        Some(d) => Some(d@),
        None => None,
    }
}

/// The view of an optional plan.
pub open spec fn opt_plan(o: Option<DiagnosisPlan>) -> Option<PlanView> {
    match o {
        Some(p) => Some(p@),
        None => None,
    }
}

impl View for PolicyState {
    type V = PolicyView;

    open spec fn view(&self) -> PolicyView {
        PolicyView {
            session_id: self.session_id@,
            candidate_workspace: self.candidate_workspace@,
            state_dir: self.state_dir@,
            phase: self.phase,
            current_repository_fingerprint: self.current_repository_fingerprint@,
            last_evidence_fingerprint: opt_view(self.last_evidence_fingerprint),
            debt: self.debt,
            debt_reasons: views(self.debt_reasons@),
            mutation_events_since_evidence: self.mutation_events_since_evidence,
            required_observations: set_of(self.required_observations@),
            satisfied_observations: set_of(self.satisfied_observations@),
            active_declaration: opt_decl(self.active_declaration),
            pending_evidence_declaration: opt_decl(self.pending_evidence_declaration),
            diagnosis_plan: opt_plan(self.diagnosis_plan),
            config: self.config@,
        }
    }
}

/// The reason that each phase other than `MutationAllowed` blocks writes.
pub open spec fn phase_reasons(s: PolicyView) -> Seq<Seq<char>> {
    match s.phase {
        PolicyPhase::AwaitingDeclaration => seq!["no structured pre-edit declaration is active"@],
        PolicyPhase::MutationAllowed => Seq::empty(),
        PolicyPhase::EvidenceRequired => seq![
            "evidence debt is "@ + decimal(s.debt as nat) + " and required observations are missing: "@
                + join(ordered(s.required_observations.difference(s.satisfied_observations)), ", "@),
        ],
        PolicyPhase::EvidenceFailed => seq![
            "policy is EVIDENCE_FAILED; submit a causal diagnosis plan before observing again"@,
        ],
        PolicyPhase::DiagnosticObservationRequired => seq![
            "a diagnosis plan exists but its discriminating observation has not been acquired"@,
        ],
    }
}

/// Why writes are blocked: the phase's reason followed by the recorded debt reasons.
pub open spec fn block_reasons_spec(s: PolicyView) -> Seq<Seq<char>> {
    phase_reasons(s) + s.debt_reasons
}

/// Whether the policy allows writes.
pub open spec fn mutation_allowed(s: PolicyView) -> bool {
    s.phase == PolicyPhase::MutationAllowed && s.active_declaration is Some
}

/// The outcome of asking whether a write may proceed.
pub open spec fn ensure_mutation_spec(s: PolicyView) -> Result<(), PolicyFault> {
    if mutation_allowed(s) {
        Ok(())
    } else {
        Err(PolicyErrorOf::WriteBlocked { reasons: join(block_reasons_spec(s), "; "@) })
    }
}

/// The outcome of a declaration against the observed repository fingerprint.
pub open spec fn declare_spec(s: PolicyView, d: DeclView, observed: Seq<char>) -> Result<PolicyView, PolicyFault> {
    if s.phase != PolicyPhase::AwaitingDeclaration {
        Err(PolicyErrorOf::DeclarationNotAccepted { phase: s.phase })
    } else if declaration_error(d) is Some {
        Err(declaration_error(d)->0)
    } else if observed != s.current_repository_fingerprint {
        Err(PolicyErrorOf::CandidateChangedOutside { expected: s.current_repository_fingerprint, observed })
    } else if d.repository_fingerprint != observed {
        Err(PolicyErrorOf::DeclarationForOtherRepository { declared: d.repository_fingerprint, current: observed })
    } else {
        Ok(PolicyView { active_declaration: Some(d), phase: PolicyPhase::MutationAllowed, ..s })
    }
}

/// Accumulated effect of the subsystem rules on a mutation batch.
pub struct Touch {
    pub names: Seq<Seq<char>>,
    pub debt: u32,
    pub reasons: Seq<Seq<char>>,
    pub required: Set<Seq<char>>,
}

/// The reason recorded when a batch touches a subsystem.
pub open spec fn subsystem_reason(rule: RuleView) -> Seq<char> {
    rule.name + " changed and requires "@ + join(rule.required_observations, " + "@)
}

/// One rule applied to one changed file: the first time a subsystem is touched, its
/// debt, reason and observations are added.
pub open spec fn touch_step(t: Touch, file: FileView, rule: RuleView) -> Touch {
    if rule_matches(rule, file.path) && !t.names.contains(rule.name) {
        Touch {
            names: t.names.push(rule.name),
            debt: t.debt.saturating_add(rule.debt),
            reasons: t.reasons.push(subsystem_reason(rule)),
            required: t.required.union(rule.required_observations.to_set()),
        }
    } else {
        t
    }
}

/// The first `r` rules applied to one file.
pub open spec fn touch_rules(t: Touch, file: FileView, rules: Seq<RuleView>, r: int) -> Touch
    decreases r,
{
    if r <= 0 {
        t
    } else {
        touch_step(touch_rules(t, file, rules, r - 1), file, rules[r - 1])
    }
}

/// All rules applied to the first `f` files, in file order.
pub open spec fn touch_files(t: Touch, files: Seq<FileView>, rules: Seq<RuleView>, f: int) -> Touch
    decreases f,
{
    if f <= 0 {
        t
    } else {
        touch_rules(touch_files(t, files, rules, f - 1), files[f - 1], rules, rules.len() as int)
    }
}

/// Whether a batch added a file.
pub open spec fn any_added(files: Seq<FileView>) -> bool {
    exists|i: int| 0 <= i < files.len() && #[trigger] files[i].status == "added"@
}

/// The touch of a batch before the subsystem rules apply.
pub open spec fn initial_touch(s: PolicyView, files: Seq<FileView>) -> Touch {
    let events = (s.mutation_events_since_evidence + 1) as u32;
    let debt = s.debt.saturating_add(1);
    let reasons = s.debt_reasons.push("mutation event "@ + decimal(events as nat) + " occurred after the last evidence"@);
    if any_added(files) {
        Touch {
            names: Seq::empty(),
            debt: debt.saturating_add(1),
            reasons: reasons.push("new files appeared after the last evidence"@),
            required: s.required_observations,
        }
    } else {
        Touch { names: Seq::empty(), debt, reasons, required: s.required_observations }
    }
}

/// The touch of a batch after all rules and the multi-subsystem surcharge.
pub open spec fn final_touch(s: PolicyView, files: Seq<FileView>) -> Touch {
    let t = touch_files(initial_touch(s, files), files, s.config.rules, files.len() as int);
    if t.names.len() > 1 {
        Touch {
            debt: t.debt.saturating_add(((t.names.len() - 1) as usize) as u32),
            reasons: t.reasons.push("more than one subsystem changed in the batch"@),
            ..t
        }
    } else {
        t
    }
}

/// The outcome of recording a mutation batch.
pub open spec fn mutation_spec(s: PolicyView, before: Seq<char>, after: Seq<char>, files: Seq<FileView>) -> Result<PolicyView, PolicyFault> {
    if !mutation_allowed(s) {
        Err(PolicyErrorOf::WriteBlocked { reasons: join(block_reasons_spec(s), "; "@) })
    } else if before != s.current_repository_fingerprint {
        Err(PolicyErrorOf::MutationBaselineChanged)
    } else if after == before {
        Err(PolicyErrorOf::MutationWithoutChange)
    } else if files.len() == 0 {
        Err(PolicyErrorOf::MutationWithoutFiles)
    } else {
        let events = (s.mutation_events_since_evidence + 1) as u32;
        let t = final_touch(s, files);
        Ok(PolicyView {
            mutation_events_since_evidence: events,
            debt: t.debt,
            debt_reasons: t.reasons,
            required_observations: t.required,
            current_repository_fingerprint: after,
            pending_evidence_declaration: s.active_declaration,
            active_declaration: None,
            satisfied_observations: Set::empty(),
            phase: if events >= s.config.maximum_mutation_events_without_evidence || t.debt >= s.config.maximum_evidence_debt {
                PolicyPhase::EvidenceRequired
            } else {
                PolicyPhase::AwaitingDeclaration
            },
            ..s
        })
    }
}

/// The outcome of registering a diagnosis plan.
pub open spec fn diagnosis_spec(s: PolicyView, p: PlanView) -> Result<PolicyView, PolicyFault> {
    if s.phase != PolicyPhase::EvidenceFailed {
        Err(PolicyErrorOf::DiagnosisNotAccepted)
    } else if diagnosis_error(p) is Some {
        Err(diagnosis_error(p)->0)
    } else {
        Ok(PolicyView { diagnosis_plan: Some(p), phase: PolicyPhase::DiagnosticObservationRequired, ..s })
    }
}

/// The outcome of recording a piece of evidence.
pub open spec fn evidence_spec(s: PolicyView, e: EvidenceView) -> Result<PolicyView, PolicyFault> {
    if e.repository_fingerprint != s.current_repository_fingerprint {
        Err(PolicyErrorOf::EvidenceForOtherRepository { evidence: e.repository_fingerprint, current: s.current_repository_fingerprint })
    } else if e.provenance != Provenance::Observed {
        Err(PolicyErrorOf::EvidenceNotObserved)
    } else if s.phase == PolicyPhase::EvidenceFailed {
        Err(PolicyErrorOf::DiagnosisRequired)
    } else {
        let satisfied = s.satisfied_observations.insert(e.observation_type);
        let b = PolicyView {
            last_evidence_fingerprint: Some(e.repository_fingerprint),
            satisfied_observations: satisfied,
            ..s
        };
        if s.phase == PolicyPhase::DiagnosticObservationRequired {
            Ok(PolicyView {
                diagnosis_plan: None,
                pending_evidence_declaration: None,
                debt: s.debt.saturating_sub(1),
                debt_reasons: if s.debt_reasons.len() > 0 { s.debt_reasons.drop_first() } else { s.debt_reasons },
                phase: PolicyPhase::AwaitingDeclaration,
                ..b
            })
        } else {
            match e.verdict {
                EvidenceVerdict::Contradicted => Ok(PolicyView {
                    debt: (if s.debt >= s.config.maximum_evidence_debt { s.debt } else { s.config.maximum_evidence_debt }).saturating_add(1),
                    debt_reasons: s.debt_reasons.push("evidence "@ + e.id + " contradicted the declared prediction"@),
                    phase: PolicyPhase::EvidenceFailed,
                    ..b
                }),
                EvidenceVerdict::Inconclusive => Ok(PolicyView {
                    debt_reasons: s.debt_reasons.push("evidence "@ + e.id + " was inconclusive"@),
                    phase: PolicyPhase::EvidenceRequired,
                    ..b
                }),
                EvidenceVerdict::Supported => if s.required_observations.subset_of(satisfied) {
                    Ok(PolicyView {
                        debt: 0,
                        debt_reasons: Seq::empty(),
                        mutation_events_since_evidence: 0,
                        required_observations: Set::empty(),
                        satisfied_observations: Set::empty(),
                        pending_evidence_declaration: None,
                        phase: PolicyPhase::AwaitingDeclaration,
                        ..b
                    })
                } else {
                    Ok(PolicyView { debt: s.debt.saturating_sub(1), phase: PolicyPhase::EvidenceRequired, ..b })
                },
            }
        }
    }
}

/// Whether a canonical path lies inside (or is) a canonical directory.
pub open spec fn path_within(child: Seq<char>, parent: Seq<char>) -> bool {
    ||| child == parent
    ||| has_prefix(child, parent + seq!['/'])
    ||| (parent == seq!['/'] && has_prefix(child, parent))
}

/// Whether a canonical path lies inside (or is) a canonical directory.
pub fn is_path_within(child: &str, parent: &str) -> (r: bool)
    ensures
        r == path_within(child@, parent@),
{
    if crate::text::str_equal(child, parent) {
        return true;
    }
    let mut with_slash = string_from_str(parent);
    crate::text::push_char(&mut with_slash, '/');
    assert(with_slash@ =~= parent@ + seq!['/']);
    if starts_with(child, with_slash.as_str()) {
        return true;
    }
    proof {
        reveal_strlit("/");
        assert("/"@ =~= seq!['/']);
    }
    crate::text::str_equal(parent, "/") && starts_with(child, parent)
}

/// Converts a policy-view result into a result of views.
pub open spec fn state_result(r: Result<(), PolicyError>, after: PolicyView, expected: Result<PolicyView, PolicyFault>) -> bool {
    match expected {
        Ok(v) => r is Ok && after == v,
        Err(f) => r matches Err(e) && e@ == f,
    }
}

impl PolicyState {
    /// The internal invariant: the observation sets are ordered sets.
    pub open spec fn inv(&self) -> bool {
        &&& is_set(self.required_observations@)
        &&& is_set(self.satisfied_observations@)
    }

    /// A fresh policy state for a session whose candidate has the given fingerprint.
    /// Both directories are canonical paths; the state must lie outside the candidate.
    pub fn create(
        session_id: String,
        candidate_workspace: String,
        state_dir: String,
        repository_fingerprint: String,
        config: PolicyConfig,
    ) -> (r: Result<Self, PolicyError>)
        ensures
            match r {
                Ok(state) => {
                    &&& config_error(config@) is None
                    &&& !path_within(state_dir@, candidate_workspace@)
                    &&& state.inv()
                    &&& state@ == (PolicyView {
                        session_id: session_id@,
                        candidate_workspace: candidate_workspace@,
                        state_dir: state_dir@,
                        phase: PolicyPhase::AwaitingDeclaration,
                        current_repository_fingerprint: repository_fingerprint@,
                        last_evidence_fingerprint: None,
                        debt: 0,
                        debt_reasons: Seq::empty(),
                        mutation_events_since_evidence: 0,
                        required_observations: Set::empty(),
                        satisfied_observations: Set::empty(),
                        active_declaration: None,
                        pending_evidence_declaration: None,
                        diagnosis_plan: None,
                        config: config@,
                    })
                },
                Err(e) => if config_error(config@) is Some {
                    e@ == config_error(config@)->0
                } else {
                    path_within(state_dir@, candidate_workspace@) && e@ == PolicyErrorOf::<Seq<char>>::StateInsideCandidate
                },
            },
    {
        match config.validate() {
            Ok(()) => {},
            Err(e) => return Err(e),
        }
        if is_path_within(state_dir.as_str(), candidate_workspace.as_str()) {
            return Err(PolicyErrorOf::StateInsideCandidate);
        }
        let state = PolicyState {
            session_id,
            candidate_workspace,
            state_dir,
            phase: PolicyPhase::AwaitingDeclaration,
            current_repository_fingerprint: repository_fingerprint,
            last_evidence_fingerprint: None,
            debt: 0,
            debt_reasons: Vec::new(),
            mutation_events_since_evidence: 0,
            required_observations: Vec::new(),
            satisfied_observations: Vec::new(),
            active_declaration: None,
            pending_evidence_declaration: None,
            diagnosis_plan: None,
            config,
        };
        proof {
            assert(views(state.debt_reasons@) =~= Seq::<Seq<char>>::empty());
            assert(set_of(state.required_observations@) =~= Set::<Seq<char>>::empty());
            assert(set_of(state.satisfied_observations@) =~= Set::<Seq<char>>::empty());
        }
        Ok(state)
    }

    /// Why writes are currently blocked.
    pub fn block_reasons(&self) -> (r: Vec<String>)
        requires
            self.inv(),
        ensures
            views(r@) == block_reasons_spec(self@),
    {
        let mut r: Vec<String> = Vec::new();
        match self.phase {
            PolicyPhase::AwaitingDeclaration => {
                r.push(string_from_str("no structured pre-edit declaration is active"));
            },
            PolicyPhase::MutationAllowed => {},
            PolicyPhase::EvidenceRequired => {
                let missing = set_difference(&self.required_observations, &self.satisfied_observations);
                proof {
                    lemma_ordered_unique(views(missing@));
                }
                let mut m = String::new();
                push_str(&mut m, "evidence debt is ");
                push_decimal(&mut m, self.debt as u64);
                push_str(&mut m, " and required observations are missing: ");
                let listed = join_strings(missing.as_slice(), ", ");
                push_str(&mut m, listed.as_str());
                r.push(m);
            },
            PolicyPhase::EvidenceFailed => {
                r.push(string_from_str("policy is EVIDENCE_FAILED; submit a causal diagnosis plan before observing again"));
            },
            PolicyPhase::DiagnosticObservationRequired => {
                r.push(string_from_str("a diagnosis plan exists but its discriminating observation has not been acquired"));
            },
        }
        let ghost head = views(r@);
        assert(head =~= phase_reasons(self@));
        let n = self.debt_reasons.len();
        for i in 0..n
            invariant
                n == self.debt_reasons@.len(),
                views(r@) == head + views(self.debt_reasons@.take(i as int)),
        {
            let ghost prev = r@;
            let item = self.debt_reasons[i].clone();
            r.push(item);
            assert(views(r@) =~= views(prev).push(item@));
            assert(views(self.debt_reasons@.take(i + 1)) =~= views(self.debt_reasons@.take(i as int)).push(self.debt_reasons@[i as int]@));
            assert(views(r@) =~= head + views(self.debt_reasons@.take(i + 1)));
        }
        assert(self.debt_reasons@.take(n as int) =~= self.debt_reasons@);
        r
    }

    /// Succeeds only while a declaration permits writes.
    pub fn ensure_mutation_allowed(&self) -> (r: Result<(), PolicyError>)
        requires
            self.inv(),
        ensures
            unit_view(r) == ensure_mutation_spec(self@),
    {
        if self.phase == PolicyPhase::MutationAllowed && self.active_declaration.is_some() {
            Ok(())
        } else {
            let reasons = self.block_reasons();
            Err(PolicyErrorOf::WriteBlocked { reasons: join_strings(reasons.as_slice(), "; ") })
        }
    }

    /// Accepts a declaration while awaiting one; `observed_fingerprint` is the
    /// candidate's fingerprint computed just now.
    pub fn declare(&mut self, declaration: DevelopmentDeclaration, observed_fingerprint: &str) -> (r: Result<(), PolicyError>)
        requires
            old(self).inv(),
        ensures
            final(self).inv(),
            state_result(r, final(self)@, declare_spec(old(self)@, declaration@, observed_fingerprint@)),
            r is Err ==> final(self)@ == old(self)@,
    {
        if self.phase != PolicyPhase::AwaitingDeclaration {
            return Err(PolicyErrorOf::DeclarationNotAccepted { phase: self.phase });
        }
        match declaration.validate() {
            Ok(()) => {},
            Err(e) => return Err(e),
        }
        if !crate::text::str_equal(observed_fingerprint, self.current_repository_fingerprint.as_str()) {
            return Err(PolicyErrorOf::CandidateChangedOutside {
                expected: self.current_repository_fingerprint.clone(),
                observed: string_from_str(observed_fingerprint),
            });
        }
        if !crate::text::str_equal(declaration.repository_fingerprint.as_str(), observed_fingerprint) {
            return Err(PolicyErrorOf::DeclarationForOtherRepository {
                declared: declaration.repository_fingerprint.clone(),
                current: string_from_str(observed_fingerprint),
            });
        }
        self.active_declaration = Some(declaration);
        self.phase = PolicyPhase::MutationAllowed;
        Ok(())
    }

    /// Registers a diagnosis plan after contradicted evidence.
    pub fn register_diagnosis(&mut self, plan: DiagnosisPlan) -> (r: Result<(), PolicyError>)
        requires
            old(self).inv(),
        ensures
            final(self).inv(),
            state_result(r, final(self)@, diagnosis_spec(old(self)@, plan@)),
            r is Err ==> final(self)@ == old(self)@,
    {
        if self.phase != PolicyPhase::EvidenceFailed {
            return Err(PolicyErrorOf::DiagnosisNotAccepted);
        }
        match plan.validate() {
            Ok(()) => {},
            Err(e) => return Err(e),
        }
        self.diagnosis_plan = Some(plan);
        self.phase = PolicyPhase::DiagnosticObservationRequired;
        Ok(())
    }
}

impl PolicyState {
    /// Records observed evidence for the current repository fingerprint.
    pub fn record_evidence(&mut self, record: &EvidenceRecord) -> (r: Result<(), PolicyError>)
        requires
            old(self).inv(),
        ensures
            final(self).inv(),
            state_result(r, final(self)@, evidence_spec(old(self)@, record@)),
            r is Err ==> final(self)@ == old(self)@,
    {
        if !crate::text::str_equal(record.repository_fingerprint.as_str(), self.current_repository_fingerprint.as_str()) {
            return Err(PolicyErrorOf::EvidenceForOtherRepository {
                evidence: record.repository_fingerprint.clone(),
                current: self.current_repository_fingerprint.clone(),
            });
        }
        if record.provenance != Provenance::Observed {
            return Err(PolicyErrorOf::EvidenceNotObserved);
        }
        let diagnostic = self.phase == PolicyPhase::DiagnosticObservationRequired;
        if self.phase == PolicyPhase::EvidenceFailed {
            return Err(PolicyErrorOf::DiagnosisRequired);
        }
        let ghost s0 = self@;
        self.last_evidence_fingerprint = Some(record.repository_fingerprint.clone());
        set_insert(&mut self.satisfied_observations, record.observation_type.clone());
        if diagnostic {
            self.diagnosis_plan = None;
            self.pending_evidence_declaration = None;
            self.debt = self.debt.saturating_sub(1);
            if self.debt_reasons.len() > 0 {
                let ghost before = self.debt_reasons@;
                self.debt_reasons.remove(0);
                assert(views(self.debt_reasons@) =~= views(before).drop_first());
            }
            self.phase = PolicyPhase::AwaitingDeclaration;
        } else {
            match record.verdict {
                EvidenceVerdict::Contradicted => {
                    let floor = if self.debt >= self.config.maximum_evidence_debt {
                        self.debt
                    } else {
                        self.config.maximum_evidence_debt
                    };
                    self.debt = floor.saturating_add(1);
                    let mut reason = String::new();
                    push_str(&mut reason, "evidence ");
                    push_str(&mut reason, record.id.as_str());
                    push_str(&mut reason, " contradicted the declared prediction");
                    let ghost before = self.debt_reasons@;
                    self.debt_reasons.push(reason);
                    assert(views(self.debt_reasons@) =~= views(before).push(reason@));
                    assert(reason@ =~= "evidence "@ + record@.id + " contradicted the declared prediction"@);
                    self.phase = PolicyPhase::EvidenceFailed;
                },
                EvidenceVerdict::Inconclusive => {
                    let mut reason = String::new();
                    push_str(&mut reason, "evidence ");
                    push_str(&mut reason, record.id.as_str());
                    push_str(&mut reason, " was inconclusive");
                    let ghost before = self.debt_reasons@;
                    self.debt_reasons.push(reason);
                    assert(views(self.debt_reasons@) =~= views(before).push(reason@));
                    assert(reason@ =~= "evidence "@ + record@.id + " was inconclusive"@);
                    self.phase = PolicyPhase::EvidenceRequired;
                },
                EvidenceVerdict::Supported => {
                    if set_is_subset(&self.required_observations, &self.satisfied_observations) {
                        self.debt = 0;
                        self.debt_reasons.clear();
                        self.mutation_events_since_evidence = 0;
                        self.required_observations.clear();
                        self.satisfied_observations.clear();
                        self.pending_evidence_declaration = None;
                        self.phase = PolicyPhase::AwaitingDeclaration;
                        proof {
                            assert(views(self.debt_reasons@) =~= Seq::<Seq<char>>::empty());
                            assert(set_of(self.required_observations@) =~= Set::<Seq<char>>::empty());
                            assert(set_of(self.satisfied_observations@) =~= Set::<Seq<char>>::empty());
                        }
                    } else {
                        self.debt = self.debt.saturating_sub(1);
                        self.phase = PolicyPhase::EvidenceRequired;
                    }
                },
            }
        }
        Ok(())
    }

    /// Records a batch of repository changes made under the active declaration.
    pub fn record_mutation(
        &mut self,
        before_fingerprint: &str,
        after_fingerprint: String,
        changed_files: &[ChangedFile],
    ) -> (r: Result<(), PolicyError>)
        requires
            old(self).inv(),
            old(self).mutation_events_since_evidence < u32::MAX,
        ensures
            final(self).inv(),
            state_result(r, final(self)@, mutation_spec(old(self)@, before_fingerprint@, after_fingerprint@, file_views(changed_files@))),
            r is Err ==> final(self)@ == old(self)@,
    {
        match self.ensure_mutation_allowed() {
            Ok(()) => {},
            Err(e) => return Err(e),
        }
        if !crate::text::str_equal(before_fingerprint, self.current_repository_fingerprint.as_str()) {
            return Err(PolicyErrorOf::MutationBaselineChanged);
        }
        if crate::text::str_equal(after_fingerprint.as_str(), before_fingerprint) {
            return Err(PolicyErrorOf::MutationWithoutChange);
        }
        if changed_files.len() == 0 {
            return Err(PolicyErrorOf::MutationWithoutFiles);
        }
        let ghost s0 = self@;
        let ghost fv = file_views(changed_files@);
        let ghost rv = self@.config.rules;
        let events = self.mutation_events_since_evidence + 1;
        let mut debt = self.debt.saturating_add(1);
        let mut reasons: Vec<String> = Vec::new();
        std::mem::swap(&mut reasons, &mut self.debt_reasons);
        let mut first = String::new();
        push_str(&mut first, "mutation event ");
        push_decimal(&mut first, events as u64);
        push_str(&mut first, " occurred after the last evidence");
        let ghost r0 = reasons@;
        reasons.push(first);
        assert(views(reasons@) =~= views(r0).push(first@));
        let nf = changed_files.len();
        let mut added = false;
        let mut i: usize = 0;
        while i < nf
            invariant
                i <= nf,
                nf == changed_files@.len(),
                fv == file_views(changed_files@),
                added == exists|k: int| 0 <= k < i && #[trigger] fv[k].status == "added"@,
            decreases nf - i,
        {
            if crate::text::str_equal(changed_files[i].status.as_str(), "added") {
                assert(fv[i as int].status == "added"@);
                added = true;
            }
            i = i + 1;
        }
        if added {
            debt = debt.saturating_add(1);
            let ghost r1 = reasons@;
            reasons.push(string_from_str("new files appeared after the last evidence"));
            assert(views(reasons@) =~= views(r1).push("new files appeared after the last evidence"@));
        }
        let mut required: Vec<String> = Vec::new();
        std::mem::swap(&mut required, &mut self.required_observations);
        let mut names: Vec<String> = Vec::new();
        let ghost t0 = initial_touch(s0, fv);
        proof {
            assert(views(names@) =~= Seq::<Seq<char>>::empty());
            assert(views(reasons@) == t0.reasons);
        }
        let nr = self.config.rules.len();
        let mut f: usize = 0;
        while f < nf
            invariant
                f <= nf,
                nf == changed_files@.len(),
                nr == self.config.rules@.len(),
                fv == file_views(changed_files@),
                rv == rule_views(self.config.rules@),
                is_set(required@),
                (Touch { names: views(names@), debt, reasons: views(reasons@), required: set_of(required@) }) == touch_files(t0, fv, rv, f as int),
            decreases nf - f,
        {
            let file = &changed_files[f];
            let mut k: usize = 0;
            while k < nr
                invariant
                    k <= nr,
                    f < nf,
                    nf == changed_files@.len(),
                    nr == self.config.rules@.len(),
                    fv == file_views(changed_files@),
                    rv == rule_views(self.config.rules@),
                    *file == changed_files@[f as int],
                    is_set(required@),
                    (Touch { names: views(names@), debt, reasons: views(reasons@), required: set_of(required@) })
                        == touch_rules(touch_files(t0, fv, rv, f as int), fv[f as int], rv, k as int),
                decreases nr - k,
            {
                let rule = &self.config.rules[k];
                assert(rv[k as int] == rule@);
                if rule.matches(file.path.as_str()) && !set_contains(&names, rule.name.as_str()) {
                    let ghost pn = names@;
                    let ghost pr = reasons@;
                    names.push(rule.name.clone());
                    debt = debt.saturating_add(rule.debt);
                    let mut reason = String::new();
                    push_str(&mut reason, rule.name.as_str());
                    push_str(&mut reason, " changed and requires ");
                    let listed = join_strings(rule.required_observations.as_slice(), " + ");
                    push_str(&mut reason, listed.as_str());
                    reasons.push(reason);
                    set_extend(&mut required, &rule.required_observations);
                    proof {
                        assert(views(names@) =~= views(pn).push(rule.name@));
                        assert(views(reasons@) =~= views(pr).push(reason@));
                        assert(reason@ =~= subsystem_reason(rule@));
                    }
                }
                k = k + 1;
            }
            f = f + 1;
        }
        if names.len() > 1 {
            debt = debt.saturating_add((names.len() - 1) as u32);
            let ghost r2 = reasons@;
            reasons.push(string_from_str("more than one subsystem changed in the batch"));
            assert(views(reasons@) =~= views(r2).push("more than one subsystem changed in the batch"@));
        }
        self.mutation_events_since_evidence = events;
        self.debt = debt;
        self.debt_reasons = reasons;
        self.required_observations = required;
        self.current_repository_fingerprint = after_fingerprint;
        let mut pending: Option<DevelopmentDeclaration> = None;
        std::mem::swap(&mut pending, &mut self.active_declaration);
        self.pending_evidence_declaration = pending;
        self.satisfied_observations.clear();
        self.phase = if events >= self.config.maximum_mutation_events_without_evidence
            || debt >= self.config.maximum_evidence_debt {
            PolicyPhase::EvidenceRequired
        } else {
            PolicyPhase::AwaitingDeclaration
        };
        proof {
            assert(set_of(self.satisfied_observations@) =~= Set::<Seq<char>>::empty());
        }
        Ok(())
    }
}

/// The `Debug` name of a phase.
pub open spec fn phase_name(p: PolicyPhase) -> Seq<char> {
    match p {
        PolicyPhase::AwaitingDeclaration => "AwaitingDeclaration"@,
        PolicyPhase::MutationAllowed => "MutationAllowed"@,
        PolicyPhase::EvidenceRequired => "EvidenceRequired"@,
        PolicyPhase::EvidenceFailed => "EvidenceFailed"@,
        PolicyPhase::DiagnosticObservationRequired => "DiagnosticObservationRequired"@,
    }
}

/// The name of a declaration field in messages.
pub open spec fn declaration_field_name(f: DeclarationField) -> Seq<char> {
    match f {
        DeclarationField::IntendedBehaviorChange => "intended behavior change"@,
        DeclarationField::CausalHypothesis => "causal hypothesis"@,
        DeclarationField::ObservationType => "observation type"@,
        DeclarationField::Instrument => "instrument"@,
        DeclarationField::ActionOrCommand => "action or command"@,
        DeclarationField::PredictedResult => "predicted result"@,
        DeclarationField::ContradictionMeaning => "contradiction meaning"@,
    }
}

/// The name of a diagnosis field in messages.
pub open spec fn diagnosis_field_name(f: DiagnosisField) -> Seq<char> {
    match f {
        DiagnosisField::SuspectedLayer => "suspected layer"@,
        DiagnosisField::CausalHypothesis => "causal hypothesis"@,
        DiagnosisField::ObservationType => "observation type"@,
        DiagnosisField::Instrument => "instrument"@,
        DiagnosisField::ActionOrCommand => "action or command"@,
        DiagnosisField::PredictedOutcomes => "predicted outcomes"@,
    }
}

/// The name of an evidence field in messages.
pub open spec fn evidence_field_name(f: EvidenceField) -> Seq<char> {
    match f {
        EvidenceField::Claim => "claim"@,
        EvidenceField::Prediction => "prediction"@,
        EvidenceField::ContradictionMeaning => "contradiction meaning"@,
        EvidenceField::ObservationType => "observation type"@,
        EvidenceField::Instrument => "instrument"@,
        EvidenceField::ActionOrCommand => "action or command"@,
        EvidenceField::ObservedResult => "observed result"@,
    }
}

impl PolicyErrorOf<Seq<char>> {
    /// The human-readable description of the error.
    pub open spec fn text(self) -> Seq<char> {
        match self {
            PolicyErrorOf::MaximumMutationEventsNotPositive => "maximum mutation events must be positive"@,
            PolicyErrorOf::MaximumEvidenceDebtNotPositive => "maximum evidence debt must be positive"@,
            PolicyErrorOf::RuleNameEmpty => "policy rule name is empty"@,
            PolicyErrorOf::RuleWithoutObservation { rule } => "policy rule "@ + rule + " has no required observation"@,
            PolicyErrorOf::VagueDeclaration { field } => "declaration "@ + declaration_field_name(field) + " is missing or too vague"@,
            PolicyErrorOf::UndiscriminatingAction => "action or command must name a discriminating external observation"@,
            PolicyErrorOf::DeclarationWithoutFingerprint => "declaration has no repository fingerprint"@,
            PolicyErrorOf::VagueDiagnosis { field } => "diagnosis "@ + diagnosis_field_name(field) + " is missing or too vague"@,
            PolicyErrorOf::StateInsideCandidate => "policy state must be outside the candidate workspace"@,
            PolicyErrorOf::DeclarationNotAccepted { phase } => "declaration is not accepted while policy phase is "@ + phase_name(phase),
            PolicyErrorOf::CandidateChangedOutside { expected, observed } => "candidate changed outside the supervisor: expected "@
                + expected + ", observed "@ + observed,
            PolicyErrorOf::DeclarationForOtherRepository { declared, current } => "declaration belongs to repository "@
                + declared + ", current repository is "@ + current,
            PolicyErrorOf::WriteBlocked { reasons } => "write blocked because: "@ + reasons,
            PolicyErrorOf::MutationBaselineChanged => "mutation baseline fingerprint changed outside the supervisor"@,
            PolicyErrorOf::MutationWithoutChange => "mutation batch did not change the repository"@,
            PolicyErrorOf::MutationWithoutFiles => "mutation batch has no changed files"@,
            PolicyErrorOf::DiagnosisNotAccepted => "diagnosis is only accepted in EVIDENCE_FAILED"@,
            PolicyErrorOf::EvidenceForOtherRepository { evidence, current } => "evidence fingerprint "@ + evidence
                + " does not match current repository "@ + current,
            PolicyErrorOf::EvidenceNotObserved => "only independently observed evidence can change policy state"@,
            PolicyErrorOf::DiagnosisRequired => "write blocked because failed evidence requires a diagnosis plan first"@,
            PolicyErrorOf::EvidenceWithoutFingerprint => "evidence has no repository fingerprint"@,
            PolicyErrorOf::EvidenceNotIndependent => "completed evidence must be independently observed"@,
            PolicyErrorOf::EmptyEvidenceField { field } => "evidence "@ + evidence_field_name(field) + " is empty"@,
        }
    }
}

fn push_phase_name(s: &mut String, p: PolicyPhase)
    ensures
        final(s)@ == old(s)@ + phase_name(p),
{
    match p {
        PolicyPhase::AwaitingDeclaration => push_str(s, "AwaitingDeclaration"),
        PolicyPhase::MutationAllowed => push_str(s, "MutationAllowed"),
        PolicyPhase::EvidenceRequired => push_str(s, "EvidenceRequired"),
        PolicyPhase::EvidenceFailed => push_str(s, "EvidenceFailed"),
        PolicyPhase::DiagnosticObservationRequired => push_str(s, "DiagnosticObservationRequired"),
    }
}

fn push_declaration_field(s: &mut String, f: DeclarationField)
    ensures
        final(s)@ == old(s)@ + declaration_field_name(f),
{
    match f {
        DeclarationField::IntendedBehaviorChange => push_str(s, "intended behavior change"),
        DeclarationField::CausalHypothesis => push_str(s, "causal hypothesis"),
        DeclarationField::ObservationType => push_str(s, "observation type"),
        DeclarationField::Instrument => push_str(s, "instrument"),
        DeclarationField::ActionOrCommand => push_str(s, "action or command"),
        DeclarationField::PredictedResult => push_str(s, "predicted result"),
        DeclarationField::ContradictionMeaning => push_str(s, "contradiction meaning"),
    }
}

fn push_diagnosis_field(s: &mut String, f: DiagnosisField)
    ensures
        final(s)@ == old(s)@ + diagnosis_field_name(f),
{
    match f {
        DiagnosisField::SuspectedLayer => push_str(s, "suspected layer"),
        DiagnosisField::CausalHypothesis => push_str(s, "causal hypothesis"),
        DiagnosisField::ObservationType => push_str(s, "observation type"),
        DiagnosisField::Instrument => push_str(s, "instrument"),
        DiagnosisField::ActionOrCommand => push_str(s, "action or command"),
        DiagnosisField::PredictedOutcomes => push_str(s, "predicted outcomes"),
    }
}

fn push_evidence_field(s: &mut String, f: EvidenceField)
    ensures
        final(s)@ == old(s)@ + evidence_field_name(f),
{
    match f {
        EvidenceField::Claim => push_str(s, "claim"),
        EvidenceField::Prediction => push_str(s, "prediction"),
        EvidenceField::ContradictionMeaning => push_str(s, "contradiction meaning"),
        EvidenceField::ObservationType => push_str(s, "observation type"),
        EvidenceField::Instrument => push_str(s, "instrument"),
        EvidenceField::ActionOrCommand => push_str(s, "action or command"),
        EvidenceField::ObservedResult => push_str(s, "observed result"),
    }
}

impl PolicyErrorOf<String> {
    /// Renders the description of the error.
    pub fn message(&self) -> (r: String)
        ensures
            r@ == self@.text(),
    {
        let mut s = String::new();
        match self {
            PolicyErrorOf::MaximumMutationEventsNotPositive => push_str(&mut s, "maximum mutation events must be positive"),
            PolicyErrorOf::MaximumEvidenceDebtNotPositive => push_str(&mut s, "maximum evidence debt must be positive"),
            PolicyErrorOf::RuleNameEmpty => push_str(&mut s, "policy rule name is empty"),
            PolicyErrorOf::RuleWithoutObservation { rule } => {
                push_str(&mut s, "policy rule ");
                push_str(&mut s, rule.as_str());
                push_str(&mut s, " has no required observation");
            },
            PolicyErrorOf::VagueDeclaration { field } => {
                push_str(&mut s, "declaration ");
                push_declaration_field(&mut s, *field);
                push_str(&mut s, " is missing or too vague");
            },
            PolicyErrorOf::UndiscriminatingAction => push_str(&mut s, "action or command must name a discriminating external observation"),
            PolicyErrorOf::DeclarationWithoutFingerprint => push_str(&mut s, "declaration has no repository fingerprint"),
            PolicyErrorOf::VagueDiagnosis { field } => {
                push_str(&mut s, "diagnosis ");
                push_diagnosis_field(&mut s, *field);
                push_str(&mut s, " is missing or too vague");
            },
            PolicyErrorOf::StateInsideCandidate => push_str(&mut s, "policy state must be outside the candidate workspace"),
            PolicyErrorOf::DeclarationNotAccepted { phase } => {
                push_str(&mut s, "declaration is not accepted while policy phase is ");
                push_phase_name(&mut s, *phase);
            },
            PolicyErrorOf::CandidateChangedOutside { expected, observed } => {
                push_str(&mut s, "candidate changed outside the supervisor: expected ");
                push_str(&mut s, expected.as_str());
                push_str(&mut s, ", observed ");
                push_str(&mut s, observed.as_str());
            },
            PolicyErrorOf::DeclarationForOtherRepository { declared, current } => {
                push_str(&mut s, "declaration belongs to repository ");
                push_str(&mut s, declared.as_str());
                push_str(&mut s, ", current repository is ");
                push_str(&mut s, current.as_str());
            },
            PolicyErrorOf::WriteBlocked { reasons } => {
                push_str(&mut s, "write blocked because: ");
                push_str(&mut s, reasons.as_str());
            },
            PolicyErrorOf::MutationBaselineChanged => push_str(&mut s, "mutation baseline fingerprint changed outside the supervisor"),
            PolicyErrorOf::MutationWithoutChange => push_str(&mut s, "mutation batch did not change the repository"),
            PolicyErrorOf::MutationWithoutFiles => push_str(&mut s, "mutation batch has no changed files"),
            PolicyErrorOf::DiagnosisNotAccepted => push_str(&mut s, "diagnosis is only accepted in EVIDENCE_FAILED"),
            PolicyErrorOf::EvidenceForOtherRepository { evidence, current } => {
                push_str(&mut s, "evidence fingerprint ");
                push_str(&mut s, evidence.as_str());
                push_str(&mut s, " does not match current repository ");
                push_str(&mut s, current.as_str());
            },
            PolicyErrorOf::EvidenceNotObserved => push_str(&mut s, "only independently observed evidence can change policy state"),
            PolicyErrorOf::DiagnosisRequired => push_str(&mut s, "write blocked because failed evidence requires a diagnosis plan first"),
            PolicyErrorOf::EvidenceWithoutFingerprint => push_str(&mut s, "evidence has no repository fingerprint"),
            PolicyErrorOf::EvidenceNotIndependent => push_str(&mut s, "completed evidence must be independently observed"),
            PolicyErrorOf::EmptyEvidenceField { field } => {
                push_str(&mut s, "evidence ");
                push_evidence_field(&mut s, *field);
                push_str(&mut s, " is empty");
            },
        }
        assert(s@ =~= self@.text());
        s
    }
}

} // verus!
