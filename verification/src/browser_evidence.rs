//! Browser evidence: finding, in the recorded timeline of the current repository state,
//! a visible before-state, one physical click, the display's response and the
//! post-click browser state, and judging the declared prediction by them.
use vstd::prelude::*;
use crate::event::{timeline, timeline_order, EventRecord};
use crate::event::Provenance;
use crate::policy::{fresh_id, now_timestamp, EvidenceRecord, EvidenceVerdict, PolicyPhase, PolicyState};
use crate::vm::copy_strings;
use crate::strset::{is_set, set_of};
use crate::text::{contains_seq, contains_str, push_str, str_equal, views};
use crate::timeline_search::{cited_artifact_refs, cited_artifacts, first_in, first_where, last_in, last_where, lemma_first_in_member, lemma_last_in_member};

verus! {

broadcast use vstd::string::group_string_axioms;

/// The visible texts expected before and after the click.
#[derive(Clone, Debug)]
pub struct BrowserEvidenceOptions {
    pub expected_before_text: String,
    pub expected_after_text: String,
}

/// Why browser evidence cannot be acquired now.
#[derive(Clone, Copy, Debug, PartialEq, Eq, Structural)]
pub enum BrowserEvidenceError {
    /// Failed evidence must be diagnosed before another observation.
    DiagnosisPending,
    /// No declaration awaits evidence.
    NoDeclaration,
}

impl BrowserEvidenceError {
    /// The human-readable description of the error.
    pub open spec fn text(&self) -> Seq<char> {
        match *self {
            BrowserEvidenceError::DiagnosisPending => "failed evidence requires a diagnosis plan before another observation"@,
            BrowserEvidenceError::NoDeclaration => "browser evidence has no declaration to test"@,
        }
    }

    /// Renders the description of the error.
    pub fn message(&self) -> (r: String)
        ensures
            r@ == self.text(),
    {
        let mut s = String::new();
        match *self {
            BrowserEvidenceError::DiagnosisPending => push_str(
                &mut s,
                "failed evidence requires a diagnosis plan before another observation",
            ),
            BrowserEvidenceError::NoDeclaration => push_str(&mut s, "browser evidence has no declaration to test"),
        }
        s
    }
}

/// An event recorded against the repository state `fp`.
pub open spec fn in_state(e: EventRecord, fp: Seq<char>) -> bool {
    e.repository_fingerprint matches Some(f) && f@ == fp
}

/// An event of kind `k`.
pub open spec fn of_kind(e: EventRecord, k: Seq<char>) -> bool {
    e.kind@ == k
}

/// A browser snapshot whose DOM text contains `t`.
pub open spec fn dom_shows(e: EventRecord, t: Seq<char>) -> bool {
    e.facts.dom matches Some(d) && contains_seq(d@, t)
}

/// A display event: a full scanout or an update.
pub open spec fn is_display(e: EventRecord) -> bool {
    of_kind(e, "display.scanout"@) || of_kind(e, "display.update"@)
}

/// A snapshot of the state `fp` whose DOM shows the before-text.
pub open spec fn before_probe(ev: Seq<EventRecord>, fp: Seq<char>, t: Seq<char>) -> spec_fn(usize) -> bool {
    |i: usize| in_state(ev[i as int], fp) && of_kind(ev[i as int], "browser.page.snapshot"@) && dom_shows(ev[i as int], t)
}

/// A click in the state `fp` after host time `after_ns`.
pub open spec fn down_probe(ev: Seq<EventRecord>, fp: Seq<char>, after_ns: u64) -> spec_fn(usize) -> bool {
    |i: usize| in_state(ev[i as int], fp) && of_kind(ev[i as int], "pointer.down"@) && ev[i as int].host_monotonic_ns > after_ns
}

/// A release in the state `fp` at or after the click's host time.
pub open spec fn up_probe(ev: Seq<EventRecord>, fp: Seq<char>, down_ns: u64) -> spec_fn(usize) -> bool {
    |i: usize| in_state(ev[i as int], fp) && of_kind(ev[i as int], "pointer.up"@) && ev[i as int].host_monotonic_ns >= down_ns
}

/// A snapshot of the state `fp` after the click whose DOM shows the after-text.
pub open spec fn after_expected_probe(ev: Seq<EventRecord>, fp: Seq<char>, down_ns: u64, t: Seq<char>) -> spec_fn(usize) -> bool {
    |i: usize| in_state(ev[i as int], fp) && of_kind(ev[i as int], "browser.page.snapshot"@) && ev[i as int].host_monotonic_ns > down_ns && dom_shows(ev[i as int], t)
}

/// A snapshot of the state `fp` after the click.
pub open spec fn after_probe(ev: Seq<EventRecord>, fp: Seq<char>, down_ns: u64) -> spec_fn(usize) -> bool {
    |i: usize| in_state(ev[i as int], fp) && of_kind(ev[i as int], "browser.page.snapshot"@) && ev[i as int].host_monotonic_ns > down_ns
}

/// A display event of the state `fp` after the click and, where a post-click snapshot
/// was selected, not after it.
pub open spec fn display_probe(ev: Seq<EventRecord>, fp: Seq<char>, down_ns: u64, until: Option<u64>) -> spec_fn(usize) -> bool {
    |i: usize| in_state(ev[i as int], fp) && is_display(ev[i as int]) && ev[i as int].host_monotonic_ns > down_ns
        && match until {
            Some(u) => ev[i as int].host_monotonic_ns <= u,
            None => true,
        }
}

/// A coordinate correlation of the state `fp` for the snapshot `snapshot_id`.
pub open spec fn correlation_probe(ev: Seq<EventRecord>, fp: Seq<char>, snapshot_id: Seq<char>) -> spec_fn(usize) -> bool {
    |i: usize| in_state(ev[i as int], fp) && of_kind(ev[i as int], "browser.coordinate_correlation"@)
        && (ev[i as int].facts.browser_snapshot_event_id matches Some(x) && x@ == snapshot_id)
}

/// The events that browser evidence is made of, as positions in the event list.
pub struct ObservedSteps {
    pub before: Option<usize>,
    pub pointer_down: Option<usize>,
    pub pointer_up: Option<usize>,
    pub after_expected: Option<usize>,
    pub final_after: Option<usize>,
    pub selected_after: Option<usize>,
    pub display: Option<usize>,
    pub correlation: Option<usize>,
}

/// Which events the rules pick: the first snapshot showing the before-text; the first
/// click after it (or at all); the first release from that click; the first later
/// snapshot showing the after-text, else the last later snapshot; the first display
/// event after the click and not after that snapshot; and the coordinate correlation
/// of that snapshot. All in timeline order, among events of the state `fp`.
pub open spec fn steps_spec(ev: Seq<EventRecord>, fp: Seq<char>, before_text: Seq<char>, after_text: Seq<char>) -> ObservedSteps {
    let order = timeline(ev);
    let before = first_in(order, before_probe(ev, fp, before_text));
    let after_before_ns: u64 = match before {
        Some(b) => ev[b as int].host_monotonic_ns,
        None => 0,
    };
    let down = first_in(order, down_probe(ev, fp, after_before_ns));
    let up = match down {
        Some(d) => first_in(order, up_probe(ev, fp, ev[d as int].host_monotonic_ns)),
        None => None,
    };
    let after_expected = match down {
        Some(d) => first_in(order, after_expected_probe(ev, fp, ev[d as int].host_monotonic_ns, after_text)),
        None => None,
    };
    let final_after = match down {
        Some(d) => last_in(order, after_probe(ev, fp, ev[d as int].host_monotonic_ns)),
        None => None,
    };
    let selected = match after_expected {
        Some(a) => Some(a),
        None => final_after,
    };
    let display = match down {
        Some(d) => first_in(
            order,
            display_probe(
                ev,
                fp,
                ev[d as int].host_monotonic_ns,
                match selected {
                    Some(s) => Some(ev[s as int].host_monotonic_ns),
                    None => None,
                },
            ),
        ),
        None => None,
    };
    let correlation = match selected {
        Some(s) => first_in(order, correlation_probe(ev, fp, ev[s as int].id@)),
        None => None,
    };
    ObservedSteps {
        before,
        pointer_down: down,
        pointer_up: up,
        after_expected,
        final_after,
        selected_after: selected,
        display,
        correlation,
    }
}

/// `name`, when the step is missing.
pub open spec fn name_if_missing(name: Seq<char>, o: Option<usize>) -> Seq<Seq<char>> {
    if o is None {
        seq![name]
    } else {
        seq![]
    }
}

/// The names of the missing steps, in order.
pub open spec fn missing_spec(s: ObservedSteps) -> Seq<Seq<char>> {
    name_if_missing("before snapshot"@, s.before) + name_if_missing("pointer down"@, s.pointer_down)
        + name_if_missing("pointer up"@, s.pointer_up) + name_if_missing("post-click snapshot"@, s.selected_after)
        + name_if_missing("display response"@, s.display) + name_if_missing("coordinate correlation"@, s.correlation)
}

/// The identifier of a step's event, when it was found.
pub open spec fn id_if_present(ev: Seq<EventRecord>, o: Option<usize>) -> Seq<Seq<char>> {
    match o {
        Some(i) => seq![ev[i as int].id@],
        None => seq![],
    }
}

/// The identifiers of the found steps, in order.
pub open spec fn supporting_spec(ev: Seq<EventRecord>, s: ObservedSteps) -> Seq<Seq<char>> {
    id_if_present(ev, s.before) + id_if_present(ev, s.pointer_down) + id_if_present(ev, s.pointer_up)
        + id_if_present(ev, s.selected_after) + id_if_present(ev, s.display) + id_if_present(ev, s.correlation)
}

/// Supported when every step was observed and the after-text appeared; contradicted
/// when the before-state, the click, its release and a later snapshot were all observed
/// but the after-text never appeared; inconclusive otherwise.
pub open spec fn verdict_spec(s: ObservedSteps) -> EvidenceVerdict {
    if missing_spec(s).len() == 0 && s.after_expected is Some {
        EvidenceVerdict::Supported
    } else if s.before is Some && s.pointer_down is Some && s.pointer_up is Some && s.final_after is Some
        && s.after_expected is None {
        EvidenceVerdict::Contradicted
    } else {
        EvidenceVerdict::Inconclusive
    }
}

/// What browser evidence found.
pub struct BrowserFindings {
    pub steps: ObservedSteps,
    pub missing: Vec<&'static str>,
    pub verdict: EvidenceVerdict,
    pub supporting_event_ids: Vec<String>,
    pub raw_artifacts: Vec<String>,
    /// The claim, prediction and meaning of contradiction of the declaration tested.
    pub claim: String,
    pub predicted_result: String,
    pub contradiction_meaning: String,
    /// When the before-state and the post-click state were recorded, where found.
    pub started_at: Option<String>,
    pub completed_at: Option<String>,
}

fn in_state_exec(e: &EventRecord, fp: &str) -> (r: bool)
    ensures
        r == in_state(*e, fp@),
{
    match &e.repository_fingerprint {
        Some(f) => str_equal(f.as_str(), fp),
        None => false,
    }
}

fn dom_shows_exec(e: &EventRecord, t: &str) -> (r: bool)
    ensures
        r == dom_shows(*e, t@),
{
    match &e.facts.dom {
        Some(d) => contains_str(d.as_str(), t),
        None => false,
    }
}

fn push_if_missing(v: &mut Vec<&'static str>, name: &'static str, o: Option<usize>)
    ensures
        final(v)@.map_values(|s: &str| s@) == old(v)@.map_values(|s: &str| s@) + name_if_missing(name@, o),
{
    let ghost before = v@;
    if o.is_none() {
        v.push(name);
    }
    assert(v@.map_values(|s: &str| s@) =~= before.map_values(|s: &str| s@) + name_if_missing(name@, o));
}

fn push_if_present(v: &mut Vec<String>, events: &[EventRecord], o: Option<usize>)
    requires
        o matches Some(i) ==> i < events@.len(),
    ensures
        views(final(v)@) == views(old(v)@) + id_if_present(events@, o),
{
    let ghost before = v@;
    if let Some(i) = o {
        v.push(events[i].id.clone());
    }
    assert(views(v@) =~= views(before) + id_if_present(events@, o));
}

/// Finds the steps of one click in the timeline of the current repository state, and
/// judges the declaration that awaits evidence by them. Refused after failed evidence
/// (which needs a diagnosis first) and when no declaration awaits evidence.
pub fn browser_findings(state: &PolicyState, events: &[EventRecord], options: &BrowserEvidenceOptions) -> (r: Result<BrowserFindings, BrowserEvidenceError>)
    ensures
        state.phase == PolicyPhase::EvidenceFailed ==> r == Err::<BrowserFindings, BrowserEvidenceError>(BrowserEvidenceError::DiagnosisPending),
        state.phase != PolicyPhase::EvidenceFailed && state.pending_evidence_declaration is None && state.active_declaration is None
            ==> r == Err::<BrowserFindings, BrowserEvidenceError>(BrowserEvidenceError::NoDeclaration),
        state.phase != PolicyPhase::EvidenceFailed && (state.pending_evidence_declaration is Some || state.active_declaration is Some)
            ==> r is Ok,
        r matches Ok(f) ==> {
            let steps = steps_spec(events@, state.current_repository_fingerprint@, options.expected_before_text@, options.expected_after_text@);
            let declaration = match state.pending_evidence_declaration {
                Some(d) => d,
                None => state.active_declaration->0,
            };
            &&& state.phase != PolicyPhase::EvidenceFailed
            &&& (state.pending_evidence_declaration is Some || state.active_declaration is Some)
            &&& f.steps == steps
            &&& f.missing@.map_values(|s: &str| s@) == missing_spec(steps)
            &&& f.verdict == verdict_spec(steps)
            &&& views(f.supporting_event_ids@) == supporting_spec(events@, steps)
            &&& is_set(f.raw_artifacts@)
            &&& set_of(f.raw_artifacts@) == cited_artifacts(events@, supporting_spec(events@, steps))
            &&& f.claim@ == declaration.intended_behavior_change@
            &&& f.predicted_result@ == declaration.predicted_result@
            &&& f.contradiction_meaning@ == declaration.contradiction_meaning@
            &&& f.started_at == match steps.before {
                Some(b) => Some(events@[b as int].wall_clock_time),
                None => None::<String>,
            }
            &&& f.completed_at == match steps.selected_after {
                Some(a) => Some(events@[a as int].wall_clock_time),
                None => None::<String>,
            }
        },
{
    if state.phase == PolicyPhase::EvidenceFailed {
        return Err(BrowserEvidenceError::DiagnosisPending);
    }
    let declaration = match &state.pending_evidence_declaration {
        Some(d) => d,
        None => match &state.active_declaration {
            Some(d) => d,
            None => return Err(BrowserEvidenceError::NoDeclaration),
        },
    };
    let ghost ev = events@;
    let n = events.len();
    let fp = state.current_repository_fingerprint.as_str();
    let before_text = options.expected_before_text.as_str();
    let after_text = options.expected_after_text.as_str();
    let order = timeline_order(events);

    let before = first_where(
        &order,
        |i: usize| -> (b: bool)
            requires i < n, n == ev.len(), ev == events@,
            ensures b == before_probe(ev, fp@, before_text@)(i)
        { in_state_exec(&events[i], fp) && str_equal(events[i].kind.as_str(), "browser.page.snapshot") && dom_shows_exec(&events[i], before_text) },
        Ghost(before_probe(ev, fp@, before_text@)),
        Ghost(n as nat),
    );
    proof { lemma_first_in_member(order@, before_probe(ev, fp@, before_text@)); }
    let after_before_ns: u64 = match before {
        Some(b) => {
            proof { assert(order@.contains(b)); }
            events[b].host_monotonic_ns
        },
        None => 0,
    };
    let down = first_where(
        &order,
        |i: usize| -> (b: bool)
            requires i < n, n == ev.len(), ev == events@,
            ensures b == down_probe(ev, fp@, after_before_ns)(i)
        { in_state_exec(&events[i], fp) && str_equal(events[i].kind.as_str(), "pointer.down") && events[i].host_monotonic_ns > after_before_ns },
        Ghost(down_probe(ev, fp@, after_before_ns)),
        Ghost(n as nat),
    );
    proof { lemma_first_in_member(order@, down_probe(ev, fp@, after_before_ns)); }
    let (up, after_expected, final_after) = match down {
        Some(d) => {
            proof { assert(order@.contains(d)); }
            let down_ns = events[d].host_monotonic_ns;
            let up = first_where(
                &order,
                |i: usize| -> (b: bool)
                    requires i < n, n == ev.len(), ev == events@,
                    ensures b == up_probe(ev, fp@, down_ns)(i)
                { in_state_exec(&events[i], fp) && str_equal(events[i].kind.as_str(), "pointer.up") && events[i].host_monotonic_ns >= down_ns },
                Ghost(up_probe(ev, fp@, down_ns)),
                Ghost(n as nat),
            );
            let expected = first_where(
                &order,
                |i: usize| -> (b: bool)
                    requires i < n, n == ev.len(), ev == events@,
                    ensures b == after_expected_probe(ev, fp@, down_ns, after_text@)(i)
                { in_state_exec(&events[i], fp) && str_equal(events[i].kind.as_str(), "browser.page.snapshot") && events[i].host_monotonic_ns > down_ns && dom_shows_exec(&events[i], after_text) },
                Ghost(after_expected_probe(ev, fp@, down_ns, after_text@)),
                Ghost(n as nat),
            );
            let last = last_where(
                &order,
                |i: usize| -> (b: bool)
                    requires i < n, n == ev.len(), ev == events@,
                    ensures b == after_probe(ev, fp@, down_ns)(i)
                { in_state_exec(&events[i], fp) && str_equal(events[i].kind.as_str(), "browser.page.snapshot") && events[i].host_monotonic_ns > down_ns },
                Ghost(after_probe(ev, fp@, down_ns)),
                Ghost(n as nat),
            );
            (up, expected, last)
        },
        None => (None, None, None),
    };
    let selected = match after_expected {
        Some(a) => Some(a),
        None => final_after,
    };
    proof {
        if let Some(d) = down {
            let down_ns = ev[d as int].host_monotonic_ns;
            lemma_first_in_member(order@, up_probe(ev, fp@, down_ns));
            lemma_first_in_member(order@, after_expected_probe(ev, fp@, down_ns, after_text@));
            lemma_last_in_member(order@, after_probe(ev, fp@, down_ns));
        }
    }
    let until: Option<u64> = match selected {
        Some(s) => {
            proof { assert(order@.contains(s)); }
            Some(events[s].host_monotonic_ns)
        },
        None => None,
    };
    let display = match down {
        Some(d) => {
            let down_ns = events[d].host_monotonic_ns;
            first_where(
                &order,
                |i: usize| -> (b: bool)
                    requires i < n, n == ev.len(), ev == events@,
                    ensures b == display_probe(ev, fp@, down_ns, until)(i)
                {
                    in_state_exec(&events[i], fp)
                        && (str_equal(events[i].kind.as_str(), "display.scanout") || str_equal(events[i].kind.as_str(), "display.update"))
                        && events[i].host_monotonic_ns > down_ns
                        && match until {
                            Some(u) => events[i].host_monotonic_ns <= u,
                            None => true,
                        }
                },
                Ghost(display_probe(ev, fp@, down_ns, until)),
                Ghost(n as nat),
            )
        },
        None => None,
    };
    let correlation = match selected {
        Some(s) => {
            let sid = events[s].id.as_str();
            first_where(
                &order,
                |i: usize| -> (b: bool)
                    requires i < n, n == ev.len(), ev == events@,
                    ensures b == correlation_probe(ev, fp@, sid@)(i)
                {
                    in_state_exec(&events[i], fp) && str_equal(events[i].kind.as_str(), "browser.coordinate_correlation")
                        && match &events[i].facts.browser_snapshot_event_id {
                            Some(x) => str_equal(x.as_str(), sid),
                            None => false,
                        }
                },
                Ghost(correlation_probe(ev, fp@, sid@)),
                Ghost(n as nat),
            )
        },
        None => None,
    };
    proof {
        if let Some(d) = down {
            lemma_first_in_member(order@, display_probe(ev, fp@, ev[d as int].host_monotonic_ns, until));
        }
        if let Some(s) = selected {
            lemma_first_in_member(order@, correlation_probe(ev, fp@, ev[s as int].id@));
        }
    }
    let steps = ObservedSteps {
        before,
        pointer_down: down,
        pointer_up: up,
        after_expected,
        final_after,
        selected_after: selected,
        display,
        correlation,
    };
    assert(steps == steps_spec(ev, fp@, before_text@, after_text@));
    let mut missing: Vec<&'static str> = Vec::new();
    assert(missing@.map_values(|s: &str| s@) =~= Seq::<Seq<char>>::empty());
    push_if_missing(&mut missing, "before snapshot", before);
    push_if_missing(&mut missing, "pointer down", down);
    push_if_missing(&mut missing, "pointer up", up);
    push_if_missing(&mut missing, "post-click snapshot", selected);
    push_if_missing(&mut missing, "display response", display);
    push_if_missing(&mut missing, "coordinate correlation", correlation);
    assert(missing@.map_values(|s: &str| s@) =~= missing_spec(steps));
    let verdict = if missing.len() == 0 && after_expected.is_some() {
        EvidenceVerdict::Supported
    } else if before.is_some() && down.is_some() && up.is_some() && final_after.is_some() && after_expected.is_none() {
        EvidenceVerdict::Contradicted
    } else {
        EvidenceVerdict::Inconclusive
    };
    let mut supporting: Vec<String> = Vec::new();
    assert(views(supporting@) =~= Seq::<Seq<char>>::empty());
    push_if_present(&mut supporting, events, before);
    push_if_present(&mut supporting, events, down);
    push_if_present(&mut supporting, events, up);
    push_if_present(&mut supporting, events, selected);
    push_if_present(&mut supporting, events, display);
    push_if_present(&mut supporting, events, correlation);
    assert(views(supporting@) =~= supporting_spec(ev, steps));
    let raw_artifacts = cited_artifact_refs(events, &supporting);
    let started_at = match before {
        Some(b) => Some(events[b].wall_clock_time.clone()),
        None => None,
    };
    let completed_at = match selected {
        Some(a) => Some(events[a].wall_clock_time.clone()),
        None => None,
    };
    Ok(BrowserFindings {
        steps,
        missing,
        verdict,
        supporting_event_ids: supporting,
        raw_artifacts,
        claim: declaration.intended_behavior_change.clone(),
        predicted_result: declaration.predicted_result.clone(),
        contradiction_meaning: declaration.contradiction_meaning.clone(),
        started_at,
        completed_at,
    })
}

/// What `{:?}` writes for a string: the text in double quotes, with the characters that
/// need it escaped, as the standard library's `Debug` for `str` does.
pub uninterp spec fn debug_quoted(s: Seq<char>) -> Seq<char>;

/// Calls `format!("{:?}", s)`, std's `Debug` for `str`. The contract claims only that
/// the result is the named quoting of the argument.
#[verifier::external_body]
fn debug_str(s: &str) -> (r: String)
    ensures
        r@ == debug_quoted(s@),
{
    format!("{:?}", s)
}

/// The prediction that a browser evidence record states: the declared result and the
/// visible transition, each text quoted.
pub open spec fn browser_prediction(predicted: Seq<char>, before: Seq<char>, after: Seq<char>) -> Seq<char> {
    predicted + "; visible transition "@ + debug_quoted(before) + " -> "@ + debug_quoted(after)
}

/// The evidence record of one observed click: the findings of [`browser_findings`] in the
/// session and repository state of `state`, with a fresh identifier. Where the findings
/// hold no time for the before-state or the post-click state, the current time stands
/// there. `observed_result` is the serialized summary that the record carries.
pub fn browser_evidence_record(
    state: &PolicyState,
    findings: BrowserFindings,
    options: &BrowserEvidenceOptions,
    observed_result: String,
) -> (r: EvidenceRecord)
    ensures
        crate::policy::uuid_v4_text(r.id@),
        r.session_id@ == state.session_id@,
        r.repository_fingerprint@ == state.current_repository_fingerprint@,
        r.claim@ == findings.claim@,
        r.prediction@ == browser_prediction(findings.predicted_result@, options.expected_before_text@, options.expected_after_text@),
        r.contradiction_meaning@ == findings.contradiction_meaning@,
        r.observation_type@ == "browser_interaction"@,
        r.instrument@ == "QEMU D-Bus display plus Playwright/CDP browser observer"@,
        findings.started_at matches Some(t) ==> r.started_at@ == t@,
        findings.completed_at matches Some(t) ==> r.completed_at@ == t@,
        r.action_or_command@ == "one physical pointer click through the QEMU input path"@,
        r.working_directory is None,
        r.environment_identity matches Some(e) && e@ == "instrumented QEMU/KVM guest browser"@,
        r.exit_code is None,
        views(r.raw_artifacts@) == views(findings.raw_artifacts@),
        views(r.supporting_event_ids@) == views(findings.supporting_event_ids@),
        r.observed_result@ == observed_result@,
        r.verdict == findings.verdict,
        r.provenance == Provenance::Observed,
{
    let mut prediction = findings.predicted_result.clone();
    push_str(&mut prediction, "; visible transition ");
    let before = debug_str(options.expected_before_text.as_str());
    push_str(&mut prediction, before.as_str());
    push_str(&mut prediction, " -> ");
    let after = debug_str(options.expected_after_text.as_str());
    push_str(&mut prediction, after.as_str());
    let started_at = match &findings.started_at {
        Some(t) => t.clone(),
        None => now_timestamp(),
    };
    let completed_at = match &findings.completed_at {
        Some(t) => t.clone(),
        None => now_timestamp(),
    };
    EvidenceRecord {
        id: fresh_id(),
        session_id: state.session_id.clone(),
        repository_fingerprint: state.current_repository_fingerprint.clone(),
        claim: findings.claim.clone(),
        prediction,
        contradiction_meaning: findings.contradiction_meaning.clone(),
        observation_type: String::from_str("browser_interaction"),
        instrument: String::from_str("QEMU D-Bus display plus Playwright/CDP browser observer"),
        started_at,
        completed_at,
        action_or_command: String::from_str("one physical pointer click through the QEMU input path"),
        working_directory: None,
        environment_identity: Some(String::from_str("instrumented QEMU/KVM guest browser")),
        exit_code: None,
        raw_artifacts: copy_strings(&findings.raw_artifacts),
        supporting_event_ids: copy_strings(&findings.supporting_event_ids),
        observed_result,
        verdict: findings.verdict,
        provenance: Provenance::Observed,
    }
}

} // verus!
