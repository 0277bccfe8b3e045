//! Recorded events: their provenance, the fields of an event that evidence rules read,
//! and the timeline order (host time, then identifier, then recording order).
use vstd::prelude::*;
use vstd::relations::{sorted_by, total_ordering};
use crate::strset::{chars_lt, lemma_lt_asymmetric, lemma_lt_irreflexive, lemma_lt_total, lemma_lt_transitive, str_lt};
use crate::text::chars_of;

verus! {

broadcast use vstd::string::group_string_axioms;

/// How an event's content was obtained.
#[derive(Clone, Copy, Debug, PartialEq, Eq, Structural)]
pub enum Provenance {
    Observed,
    Derived,
    ModelInterpreted,
    AgentClaim,
}

/// The payload fields that evidence rules read, each `None` where the payload does not
/// hold it with the right type. `*_json` fields hold the field's JSON text, for equality.
#[derive(Clone, Debug)]
pub struct PayloadFacts {
    /// `dom`, as JSON text.
    pub dom: Option<String>,
    /// `browserSnapshotEventId`, when a string.
    pub browser_snapshot_event_id: Option<String>,
    /// `method`, when a string.
    pub method: Option<String>,
    /// `method`, as JSON text.
    pub method_json: Option<String>,
    /// `url`, when a string.
    pub url: Option<String>,
    /// `url`, as JSON text.
    pub url_json: Option<String>,
    /// `postData`, as JSON text.
    pub post_data_json: Option<String>,
    /// `status`, when an unsigned integer.
    pub status: Option<u64>,
    /// `text`, when a string.
    pub text: Option<String>,
    /// `count`, when an unsigned integer.
    pub count: Option<u64>,
    /// `status`, as JSON text.
    pub status_json: Option<String>,
    /// `width`, when an unsigned integer.
    pub width: Option<u64>,
    /// `height`, when an unsigned integer.
    pub height: Option<u64>,
    /// `stride`, when an unsigned integer.
    pub stride: Option<u64>,
    /// `pixmanFormat`, when an unsigned integer.
    pub pixman_format: Option<u64>,
    /// `rect`, when present.
    pub rect: Option<RectFacts>,
    /// `traceId`, when a string.
    pub trace_id: Option<String>,
    /// `frameSha256`, when a string.
    pub frame_sha256: Option<String>,
    /// `x`, when an unsigned integer: where a pointer event moved the pointer.
    pub pointer_x: Option<u64>,
    /// `y`, when an unsigned integer.
    pub pointer_y: Option<u64>,
    /// `processingLatencyNs`, when an unsigned integer.
    pub processing_latency_ns: Option<u64>,
    /// `actionDurationNs`, when an unsigned integer.
    pub action_duration_ns: Option<u64>,
    /// `maxCallbackProcessingNs`, when an unsigned integer.
    pub max_callback_processing_ns: Option<u64>,
    /// The sum of every unsigned `inputTokens` value in the payload, at any depth.
    pub input_tokens: u64,
    /// The sum of every unsigned `outputTokens` value in the payload, at any depth.
    pub output_tokens: u64,
}

/// The fields of a payload's `rect`, each `None` where it is not a signed integer.
#[derive(Clone, Copy, Debug, PartialEq, Eq, Structural)]
pub struct RectFacts {
    pub x: Option<i64>,
    pub y: Option<i64>,
    pub width: Option<i64>,
    pub height: Option<i64>,
}

impl PayloadFacts {
    /// The facts of an empty payload.
    pub fn empty() -> (r: PayloadFacts)
        ensures
            r.dom is None,
            r.browser_snapshot_event_id is None,
            r.method is None,
            r.method_json is None,
            r.url is None,
            r.url_json is None,
            r.post_data_json is None,
            r.status is None,
            r.text is None,
            r.count is None,
            r.status_json is None,
            r.width is None,
            r.height is None,
            r.stride is None,
            r.pixman_format is None,
            r.rect is None,
            r.trace_id is None,
            r.frame_sha256 is None,
            r.pointer_x is None,
            r.pointer_y is None,
            r.processing_latency_ns is None,
            r.action_duration_ns is None,
            r.max_callback_processing_ns is None,
            r.input_tokens == 0,
            r.output_tokens == 0,
    {
        PayloadFacts {
            dom: None,
            browser_snapshot_event_id: None,
            method: None,
            method_json: None,
            url: None,
            url_json: None,
            post_data_json: None,
            status: None,
            text: None,
            count: None,
            status_json: None,
            width: None,
            height: None,
            stride: None,
            pixman_format: None,
            rect: None,
            trace_id: None,
            frame_sha256: None,
            pointer_x: None,
            pointer_y: None,
            processing_latency_ns: None,
            action_duration_ns: None,
            max_callback_processing_ns: None,
            input_tokens: 0,
            output_tokens: 0,
        }
    }
}

/// A recorded event, as the evidence rules see it.
#[derive(Clone, Debug)]
pub struct EventRecord {
    pub id: String,
    pub host_monotonic_ns: u64,
    pub wall_clock_time: String,
    pub source: String,
    pub kind: String,
    pub repository_fingerprint: Option<String>,
    pub artifact_refs: Vec<String>,
    /// How the event was produced.
    pub provenance: Provenance,
    pub facts: PayloadFacts,
}

/// Whether event `a` sorts before event `b` on host time, then identifier.
pub open spec fn key_lt(a: EventRecord, b: EventRecord) -> bool {
    a.host_monotonic_ns < b.host_monotonic_ns || (a.host_monotonic_ns == b.host_monotonic_ns && str_lt(
        a.id@,
        b.id@,
    ))
}

/// Equal timeline keys.
pub open spec fn key_eq(a: EventRecord, b: EventRecord) -> bool {
    a.host_monotonic_ns == b.host_monotonic_ns && a.id@ == b.id@
}

/// The timeline order on positions of `events`: by host time and identifier, and by
/// position among equal keys (a stable sort).
pub open spec fn timeline_leq(events: Seq<EventRecord>) -> spec_fn(usize, usize) -> bool {
    |i: usize, j: usize|
        key_lt(events[i as int], events[j as int]) || (key_eq(events[i as int], events[j as int]) && i
            <= j)
}

/// The positions `0..len` of the events.
pub open spec fn positions(n: nat) -> Seq<usize> {
    Seq::new(n, |i: int| i as usize)
}

/// The positions of the events in timeline order.
pub open spec fn timeline(events: Seq<EventRecord>) -> Seq<usize> {
    positions(events.len()).sort_by(timeline_leq(events))
}

pub proof fn lemma_timeline_leq_total(events: Seq<EventRecord>)
    ensures
        total_ordering(timeline_leq(events)),
{
    let leq = timeline_leq(events);
    assert forall|i: usize| #[trigger] leq(i, i) by {}
    assert forall|i: usize, j: usize| #[trigger] leq(i, j) && #[trigger] leq(j, i) implies i == j by {
        let a = events[i as int];
        let b = events[j as int];
        if str_lt(a.id@, b.id@) {
            lemma_lt_asymmetric(a.id@, b.id@);
        }
        if str_lt(b.id@, a.id@) {
            lemma_lt_asymmetric(b.id@, a.id@);
        }
        lemma_lt_irreflexive(a.id@);
    }
    assert forall|i: usize, j: usize, k: usize| #[trigger] leq(i, j) && #[trigger] leq(j, k) implies leq(i, k) by {
        let a = events[i as int];
        let b = events[j as int];
        let c = events[k as int];
        if str_lt(a.id@, b.id@) && str_lt(b.id@, c.id@) {
            lemma_lt_transitive(a.id@, b.id@, c.id@);
        }
    }
    assert forall|i: usize, j: usize| #[trigger] leq(i, j) || #[trigger] leq(j, i) by {
        lemma_lt_total(events[i as int].id@, events[j as int].id@);
    }
}

fn key_before(a: &EventRecord, b: &EventRecord) -> (r: bool)
    ensures
        r == key_lt(*a, *b),
{
    if a.host_monotonic_ns != b.host_monotonic_ns {
        return a.host_monotonic_ns < b.host_monotonic_ns;
    }
    let x = chars_of(a.id.as_str());
    let y = chars_of(b.id.as_str());
    chars_lt(x.as_slice(), y.as_slice())
}

/// The positions of the events in timeline order: by host time, then identifier, with
/// equal keys kept in recording order.
pub fn timeline_order(events: &[EventRecord]) -> (r: Vec<usize>)
    ensures
        r@ == timeline(events@),
        r@.len() == events@.len(),
        forall|k: int| 0 <= k < r@.len() ==> r@[k] < events@.len(),
{
    let n = events.len();
    let ghost leq = timeline_leq(events@);
    let mut out: Vec<usize> = Vec::new();
    proof {
        lemma_timeline_leq_total(events@);
        assert(out@ =~= positions(0));
    }
    for i in 0..n
        invariant
            n == events@.len(),
            leq == timeline_leq(events@),
            total_ordering(leq),
            out@.len() == i,
            forall|k: int| 0 <= k < out@.len() ==> out@[k] < i,
            sorted_by(out@, leq),
            out@.to_multiset() == positions(i as nat).to_multiset(),
    {
        let mut p: usize = out.len();
        while p > 0 && key_before(&events[i], &events[out[p - 1]])
            invariant
                p <= out@.len(),
                n == events@.len(),
                i < n,
                forall|k: int| 0 <= k < out@.len() ==> out@[k] < i,
                forall|k: int| p <= k < out@.len() ==> key_lt(events@[i as int], events@[out@[k] as int]),
                sorted_by(out@, leq),
                leq == timeline_leq(events@),
                total_ordering(leq),
            decreases p,
        {
            p = p - 1;
        }
        let ghost before = out@;
        proof {
            if p > 0 {
                let q = before[p - 1];
                assert(!key_lt(events@[i as int], events@[q as int]));
                assert(leq(q, i as usize)) by {
                    lemma_lt_total(events@[i as int].id@, events@[q as int].id@);
                }
            }
        }
        out.insert(p, i);
        proof {
            broadcast use vstd::seq_lib::group_to_multiset_ensures;
            assert(out@ == before.insert(p as int, i));
            assert(positions((i + 1) as nat) =~= positions(i as nat).push(i));
            assert forall|a: int, b: int| 0 <= a < b < out@.len() implies #[trigger] leq(out@[a], out@[b]) by {
                if b < p {
                    assert(leq(before[a], before[b]));
                } else if a > p {
                    assert(leq(before[a - 1], before[b - 1]));
                } else if a == p {
                    assert(out@[b] == before[b - 1]);
                    assert(key_lt(events@[i as int], events@[before[b - 1] as int]));
                } else {
                    assert(out@[a] == before[a]);
                    if b == p {
                        if a < p - 1 {
                            assert(leq(before[a], before[p - 1]));
                        }
                    } else {
                        assert(out@[b] == before[b - 1]);
                        assert(leq(before[a], before[b - 1]));
                    }
                }
            }
        }
    }
    proof {
        assert(positions(n as nat).len() == n);
        let s = positions(n as nat);
        s.lemma_sort_by_ensures(leq);
        vstd::seq_lib::lemma_sorted_unique(out@, s.sort_by(leq), leq);
    }
    out
}

/// The positions `0..n`, in recording order.
pub fn recording_order(n: usize) -> (r: Vec<usize>)
    ensures
        r@ == positions(n as nat),
{
    let mut out: Vec<usize> = Vec::new();
    proof {
        assert(out@ =~= positions(0));
    }
    for i in 0..n
        invariant
            out@ == positions(i as nat),
    {
        proof {
            assert(positions((i + 1) as nat) =~= positions(i as nat).push(i));
        }
        out.push(i);
    }
    out
}

} // verus!
