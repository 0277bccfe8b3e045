//! The performance summary of an interval of the timeline: how many events each source
//! and each kind recorded, the latencies that display, input and audio events report,
//! and the model calls and tokens of perception. Measuring storage and processes, and
//! serializing events, are the caller's.
use vstd::prelude::*;
use crate::event::EventRecord;
use crate::performance::{latency_summary, summary_spec, LatencySummary};
use crate::strset::{lemma_lt_total, lemma_lt_transitive, str_lt, string_eq, string_lt};
use crate::text::str_equal;

verus! {

broadcast use vstd::string::group_string_axioms;

/// Why a performance summary cannot be made.
#[derive(Clone, Copy, Debug, PartialEq, Eq, Structural)]
pub enum PerformanceError {
    InvalidInterval,
}

impl PerformanceError {
    /// The human-readable description of the error.
    pub open spec fn text(&self) -> Seq<char> {
        "performance interval is invalid"@
    }

    /// Renders the description of the error.
    pub fn message(&self) -> (r: String)
        ensures
            r@ == self.text(),
    {
        String::from_str("performance interval is invalid")
    }
}

/// Whether a key is `k`.
pub open spec fn is_key(k: Seq<char>) -> spec_fn(Seq<char>) -> bool {
    |x: Seq<char>| x == k
}

/// How often `k` occurs in `ks`.
pub open spec fn occurrences(ks: Seq<Seq<char>>, k: Seq<char>) -> nat {
    ks.filter(is_key(k)).len()
}

/// The keys of a tally.
pub open spec fn tally_keys(counts: Seq<(String, usize)>) -> Seq<Seq<char>> {
    counts.map_values(|p: (String, usize)| p.0@)
}

/// A tally of `ks`: each key that occurs once, in increasing order, with how often it
/// occurs.
pub open spec fn is_tally(counts: Seq<(String, usize)>, ks: Seq<Seq<char>>) -> bool {
    &&& forall|i: int, j: int| 0 <= i < j < counts.len() ==> str_lt(#[trigger] counts[i].0@, #[trigger] counts[j].0@)
    &&& forall|i: int| 0 <= i < counts.len() ==> (#[trigger] counts[i]).1 == occurrences(ks, counts[i].0@) && counts[i].1 > 0
    &&& forall|j: int| 0 <= j < ks.len() ==> tally_keys(counts).contains(#[trigger] ks[j])
}

proof fn lemma_occurrences_push(ks: Seq<Seq<char>>, x: Seq<char>, k: Seq<char>)
    ensures
        occurrences(ks.push(x), k) == occurrences(ks, k) + (if x == k { 1nat } else { 0nat }),
{
    ks.lemma_filter_push(x, is_key(k));
}

proof fn lemma_occurrences_bound(ks: Seq<Seq<char>>, k: Seq<char>)
    ensures
        occurrences(ks, k) <= ks.len(),
{
    ks.lemma_filter_len(is_key(k));
}

/// Counts one more occurrence of `key` in a tally.
fn tally_add(counts: &mut Vec<(String, usize)>, key: &str, Ghost(ks): Ghost<Seq<Seq<char>>>)
    requires
        is_tally(old(counts)@, ks),
        ks.len() < usize::MAX,
    ensures
        is_tally(final(counts)@, ks.push(key@)),
{
    let n = counts.len();
    let mut i: usize = 0;
    while i < n && string_lt(counts[i].0.as_str(), key)
        invariant
            i <= n,
            n == counts@.len(),
            is_tally(counts@, ks),
            forall|k: int| 0 <= k < i ==> str_lt((#[trigger] counts@[k]).0@, key@),
        decreases n - i,
    {
        i = i + 1;
    }
    let ghost old_c = counts@;
    let ghost nks = ks.push(key@);
    if i < n && string_eq(counts[i].0.as_str(), key) {
        proof {
            lemma_occurrences_bound(ks, key@);
        }
        let c = counts[i].1;
        let name = counts[i].0.clone();
        counts.set(i, (name, c + 1));
        proof {
            let nc = counts@;
            assert forall|a: int| 0 <= a < nc.len() implies #[trigger] nc[a].0@ == old_c[a].0@ by {
                if a != i {
                    assert(nc[a] == old_c[a]);
                }
            }
            assert forall|a: int, b: int| 0 <= a < b < nc.len() implies str_lt(#[trigger] nc[a].0@, #[trigger] nc[b].0@) by {
                assert(nc[a].0@ == old_c[a].0@);
                assert(nc[b].0@ == old_c[b].0@);
            }
            assert forall|a: int| 0 <= a < nc.len() implies (#[trigger] nc[a]).1 == occurrences(nks, nc[a].0@) && nc[a].1 > 0 by {
                lemma_occurrences_push(ks, key@, nc[a].0@);
                if a != i {
                    assert(nc[a] == old_c[a]);
                    if old_c[a].0@ == key@ {
                        if a < i {
                            assert(str_lt(old_c[a].0@, old_c[i as int].0@));
                        } else {
                            assert(str_lt(old_c[i as int].0@, old_c[a].0@));
                        }
                        crate::strset::lemma_lt_irreflexive(key@);
                    }
                }
            }
            assert forall|j: int| 0 <= j < nks.len() implies tally_keys(nc).contains(#[trigger] nks[j]) by {
                if j < ks.len() {
                    assert(nks[j] == ks[j]);
                    assert(tally_keys(old_c).contains(ks[j]));
                    let b = choose|b: int| 0 <= b < old_c.len() && tally_keys(old_c)[b] == ks[j];
                    assert(nc[b].0@ == old_c[b].0@);
                    assert(tally_keys(nc)[b] == nks[j]);
                } else {
                    assert(nks[j] == key@);
                    assert(nc[i as int].0@ == old_c[i as int].0@);
                    assert(tally_keys(nc)[i as int] == nks[j]);
                }
            }
        }
        return;
    }
    proof {
        if i < n {
            lemma_lt_total(old_c[i as int].0@, key@);
        }
    }
    counts.insert(i, (key.to_owned(), 1));
    proof {
        let nc = counts@;
        assert(nc =~= old_c.take(i as int).push(nc[i as int]) + old_c.skip(i as int));
        assert(nc[i as int].0@ == key@);
        assert forall|a: int, b: int| 0 <= a < b < nc.len() implies str_lt(#[trigger] nc[a].0@, #[trigger] nc[b].0@) by {
            if b < i {
            } else if b == i {
            } else if a < i {
                assert(nc[b] == old_c[b - 1]);
                if b - 1 > i {
                    assert(str_lt(old_c[i as int].0@, old_c[b - 1].0@));
                    lemma_lt_transitive(key@, old_c[i as int].0@, old_c[b - 1].0@);
                }
                lemma_lt_transitive(nc[a].0@, key@, nc[b].0@);
            } else if a == i {
                assert(nc[b] == old_c[b - 1]);
                if b - 1 > i {
                    assert(str_lt(old_c[i as int].0@, old_c[b - 1].0@));
                    lemma_lt_transitive(key@, old_c[i as int].0@, old_c[b - 1].0@);
                }
            } else {
                assert(nc[a] == old_c[a - 1]);
                assert(nc[b] == old_c[b - 1]);
            }
        }
        assert forall|a: int| 0 <= a < nc.len() implies (#[trigger] nc[a]).1 == occurrences(nks, nc[a].0@) && nc[a].1 > 0 by {
            lemma_occurrences_push(ks, key@, nc[a].0@);
            if a == i {
                if occurrences(ks, key@) > 0 {
                    ks.lemma_filter_len(is_key(key@));
                    let f = ks.filter(is_key(key@));
                    assert(f.len() > 0);
                    ks.lemma_filter_pred(is_key(key@), 0);
                    ks.lemma_filter_contains_rev(is_key(key@), f[0]);
                    assert(f.contains(f[0]));
                    let j = choose|j: int| 0 <= j < ks.len() && ks[j] == f[0];
                    assert(tally_keys(old_c).contains(ks[j]));
                    let b = choose|b: int| 0 <= b < old_c.len() && tally_keys(old_c)[b] == ks[j];
                    assert(old_c[b].0@ == key@);
                    if b < i {
                        crate::strset::lemma_lt_irreflexive(key@);
                    } else {
                        if b > i {
                            assert(str_lt(old_c[i as int].0@, old_c[b].0@));
                        }
                        crate::strset::lemma_lt_irreflexive(key@);
                    }
                }
            } else {
                let o = if a < i { a } else { a - 1 };
                assert(nc[a] == old_c[o]);
                if old_c[o].0@ == key@ {
                    if o < i {
                        crate::strset::lemma_lt_irreflexive(key@);
                    } else {
                        if o > i {
                            assert(str_lt(old_c[i as int].0@, old_c[o].0@));
                        }
                        crate::strset::lemma_lt_irreflexive(key@);
                    }
                }
            }
        }
        assert forall|j: int| 0 <= j < nks.len() implies tally_keys(nc).contains(#[trigger] nks[j]) by {
            if j < ks.len() {
                assert(nks[j] == ks[j]);
                assert(tally_keys(old_c).contains(ks[j]));
                let b = choose|b: int| 0 <= b < old_c.len() && tally_keys(old_c)[b] == ks[j];
                if b < i {
                    assert(nc[b] == old_c[b]);
                    assert(tally_keys(nc)[b] == nks[j]);
                } else {
                    assert(nc[b + 1] == old_c[b]);
                    assert(tally_keys(nc)[b + 1] == nks[j]);
                }
            } else {
                assert(tally_keys(nc)[i as int] == nks[j]);
            }
        }
    }
}

/// Whether an event lies in the closed interval of host time.
pub open spec fn in_window(start_ns: u64, end_ns: u64) -> spec_fn(EventRecord) -> bool {
    |e: EventRecord| start_ns <= e.host_monotonic_ns <= end_ns
}

/// The events of the interval, in order.
pub open spec fn window_events(events: Seq<EventRecord>, start_ns: u64, end_ns: u64) -> Seq<EventRecord> {
    events.filter(in_window(start_ns, end_ns))
}

/// The sources of events.
pub open spec fn sources(events: Seq<EventRecord>) -> Seq<Seq<char>> {
    events.map_values(|e: EventRecord| e.source@)
}

/// The kinds of events.
pub open spec fn kinds(events: Seq<EventRecord>) -> Seq<Seq<char>> {
    events.map_values(|e: EventRecord| e.kind@)
}

/// A display event: a scanout or an update.
pub open spec fn is_display(e: EventRecord) -> bool {
    e.kind@ == "display.scanout"@ || e.kind@ == "display.update"@
}

/// A model call of perception: a VLM observation or an audio interpretation.
pub open spec fn is_model_call(e: EventRecord) -> bool {
    e.kind@ == "perception.vlm.observation"@ || e.kind@ == "perception.audio.interpretation"@
}

/// The latency samples that events report: the display processing latency of display
/// events, the duration of completed input actions, or the longest audio callback of raw
/// audio intervals.
pub open spec fn latency_samples(events: Seq<EventRecord>, which: nat) -> Seq<u64>
    decreases events.len(),
{
    if events.len() == 0 {
        seq![]
    } else {
        let e = events.last();
        let sample = if which == 0 && is_display(e) {
            e.facts.processing_latency_ns
        } else if which == 1 && e.kind@ == "input.action.completed"@ {
            e.facts.action_duration_ns
        } else if which == 2 && e.kind@ == "audio.raw.interval"@ {
            e.facts.max_callback_processing_ns
        } else {
            None
        };
        match sample {
            Some(v) => latency_samples(events.drop_last(), which).push(v),
            None => latency_samples(events.drop_last(), which),
        }
    }
}

/// The input (`which == 0`) or output tokens of the model calls among the events.
pub open spec fn model_tokens(events: Seq<EventRecord>, which: nat) -> nat
    decreases events.len(),
{
    if events.len() == 0 {
        0
    } else {
        let e = events.last();
        model_tokens(events.drop_last(), which) + if is_model_call(e) {
            if which == 0 {
                e.facts.input_tokens as nat
            } else {
                e.facts.output_tokens as nat
            }
        } else {
            0nat
        }
    }
}

/// The number of events of kind `k`.
pub open spec fn kind_count(events: Seq<EventRecord>, k: Seq<char>) -> nat {
    occurrences(kinds(events), k)
}

/// The summary of a non-empty list of samples, or `None`.
pub open spec fn summary_of(s: Seq<u64>) -> Option<LatencySummary> {
    if s.len() == 0 {
        None
    } else {
        Some(summary_spec(s))
    }
}

/// What the timeline records of an interval.
pub struct PerformanceSummary {
    pub start_ns: u64,
    pub end_ns: u64,
    pub event_count: usize,
    /// Each source with its number of events, in increasing order of source.
    pub events_by_source: Vec<(String, usize)>,
    /// Each kind with its number of events, in increasing order of kind.
    pub events_by_kind: Vec<(String, usize)>,
    pub display_processing_latency: Option<LatencySummary>,
    pub input_action_duration: Option<LatencySummary>,
    pub audio_callback_processing: Option<LatencySummary>,
    pub vlm_call_count: usize,
    pub audio_interpretation_call_count: usize,
    pub model_input_tokens: u64,
    pub model_output_tokens: u64,
}

fn sample_of(e: &EventRecord, which: u8) -> (r: Option<u64>)
    requires
        which <= 2,
    ensures
        r == (if which == 0 && is_display(*e) {
            e.facts.processing_latency_ns
        } else if which == 1 && e.kind@ == "input.action.completed"@ {
            e.facts.action_duration_ns
        } else if which == 2 && e.kind@ == "audio.raw.interval"@ {
            e.facts.max_callback_processing_ns
        } else {
            None
        }),
{
    if which == 0 && (str_equal(e.kind.as_str(), "display.scanout") || str_equal(e.kind.as_str(), "display.update")) {
        e.facts.processing_latency_ns
    } else if which == 1 && str_equal(e.kind.as_str(), "input.action.completed") {
        e.facts.action_duration_ns
    } else if which == 2 && str_equal(e.kind.as_str(), "audio.raw.interval") {
        e.facts.max_callback_processing_ns
    } else {
        None
    }
}

/// Summarizes the events of `events` whose host time lies in `start_ns..=end_ns`, in
/// their order: the number of events, each source and kind with its number of events,
/// the latencies that display, input-action and raw-audio events report, the VLM
/// observations and audio interpretations, and the tokens of those model calls.
/// Refused when the interval ends before it starts. The token totals must fit in 64
/// bits.
pub fn performance_summary(events: &Vec<EventRecord>, start_ns: u64, end_ns: u64) -> (r: Result<PerformanceSummary, PerformanceError>)
    requires
        events@.len() < usize::MAX / 100,
        start_ns <= end_ns ==> model_tokens(window_events(events@, start_ns, end_ns), 0) <= u64::MAX,
        start_ns <= end_ns ==> model_tokens(window_events(events@, start_ns, end_ns), 1) <= u64::MAX,
    ensures
        start_ns > end_ns ==> r == Err::<PerformanceSummary, PerformanceError>(PerformanceError::InvalidInterval),
        start_ns <= end_ns ==> (r matches Ok(p) && {
            let w = window_events(events@, start_ns, end_ns);
            &&& p.start_ns == start_ns
            &&& p.end_ns == end_ns
            &&& p.event_count == w.len()
            &&& is_tally(p.events_by_source@, sources(w))
            &&& is_tally(p.events_by_kind@, kinds(w))
            &&& p.display_processing_latency == summary_of(latency_samples(w, 0))
            &&& p.input_action_duration == summary_of(latency_samples(w, 1))
            &&& p.audio_callback_processing == summary_of(latency_samples(w, 2))
            &&& p.vlm_call_count == kind_count(w, "perception.vlm.observation"@)
            &&& p.audio_interpretation_call_count == kind_count(w, "perception.audio.interpretation"@)
            &&& p.model_input_tokens == model_tokens(w, 0)
            &&& p.model_output_tokens == model_tokens(w, 1)
        }),
{
    if start_ns > end_ns {
        return Err(PerformanceError::InvalidInterval);
    }
    let ghost all = events@;
    let ghost p = in_window(start_ns, end_ns);
    let mut count: usize = 0;
    let mut by_source: Vec<(String, usize)> = Vec::new();
    let mut by_kind: Vec<(String, usize)> = Vec::new();
    let mut display: Vec<u64> = Vec::new();
    let mut input: Vec<u64> = Vec::new();
    let mut audio: Vec<u64> = Vec::new();
    let mut vlm: usize = 0;
    let mut interpretations: usize = 0;
    let mut input_tokens: u64 = 0;
    let mut output_tokens: u64 = 0;
    let mut i: usize = 0;
    proof {
        reveal(Seq::filter);
        assert(all.take(0) =~= Seq::<EventRecord>::empty());
    }
    while i < events.len()
        invariant
            all == events@,
            p == in_window(start_ns, end_ns),
            all.len() < usize::MAX / 100,
            model_tokens(all.filter(p), 0) <= u64::MAX,
            model_tokens(all.filter(p), 1) <= u64::MAX,
            i <= all.len(),
            count == all.take(i as int).filter(p).len(),
            is_tally(by_source@, sources(all.take(i as int).filter(p))),
            is_tally(by_kind@, kinds(all.take(i as int).filter(p))),
            display@ == latency_samples(all.take(i as int).filter(p), 0),
            input@ == latency_samples(all.take(i as int).filter(p), 1),
            audio@ == latency_samples(all.take(i as int).filter(p), 2),
            vlm == kind_count(all.take(i as int).filter(p), "perception.vlm.observation"@),
            interpretations == kind_count(all.take(i as int).filter(p), "perception.audio.interpretation"@),
            input_tokens == model_tokens(all.take(i as int).filter(p), 0),
            output_tokens == model_tokens(all.take(i as int).filter(p), 1),
        decreases all.len() - i,
    {
        let e = &events[i];
        let ghost before = all.take(i as int).filter(p);
        proof {
            reveal(Seq::filter);
            assert(all.take(i + 1) =~= all.take(i as int).push(*e));
            all.take(i as int).lemma_filter_push(*e, p);
            all.take(i as int).lemma_filter_len(p);
        }
        if start_ns <= e.host_monotonic_ns && e.host_monotonic_ns <= end_ns {
            let ghost after = before.push(*e);
            proof {
                assert(after.drop_last() =~= before);
                assert(sources(after) =~= sources(before).push(e.source@));
                assert(kinds(after) =~= kinds(before).push(e.kind@));
                lemma_occurrences_push(kinds(before), e.kind@, "perception.vlm.observation"@);
                lemma_occurrences_push(kinds(before), e.kind@, "perception.audio.interpretation"@);
                lemma_occurrences_bound(kinds(before), "perception.vlm.observation"@);
                lemma_occurrences_bound(kinds(before), "perception.audio.interpretation"@);
                lemma_model_tokens_prefix(all, i as int + 1, p, 0);
                lemma_model_tokens_prefix(all, i as int + 1, p, 1);
            }
            count = count + 1;
            tally_add(&mut by_source, e.source.as_str(), Ghost(sources(before)));
            tally_add(&mut by_kind, e.kind.as_str(), Ghost(kinds(before)));
            if let Some(v) = sample_of(e, 0) {
                display.push(v);
            }
            if let Some(v) = sample_of(e, 1) {
                input.push(v);
            }
            if let Some(v) = sample_of(e, 2) {
                audio.push(v);
            }
            if str_equal(e.kind.as_str(), "perception.vlm.observation") {
                vlm = vlm + 1;
            }
            if str_equal(e.kind.as_str(), "perception.audio.interpretation") {
                interpretations = interpretations + 1;
            }
            if str_equal(e.kind.as_str(), "perception.vlm.observation") || str_equal(e.kind.as_str(), "perception.audio.interpretation") {
                input_tokens = input_tokens + e.facts.input_tokens;
                output_tokens = output_tokens + e.facts.output_tokens;
            }
        }
        i = i + 1;
    }
    assert(all.take(all.len() as int) =~= all);
    proof {
        lemma_samples_bound(all.filter(p), 0);
        lemma_samples_bound(all.filter(p), 1);
        lemma_samples_bound(all.filter(p), 2);
        all.lemma_filter_len(p);
    }
    Ok(PerformanceSummary {
        start_ns,
        end_ns,
        event_count: count,
        events_by_source: by_source,
        events_by_kind: by_kind,
        display_processing_latency: latency_summary(display),
        input_action_duration: latency_summary(input),
        audio_callback_processing: latency_summary(audio),
        vlm_call_count: vlm,
        audio_interpretation_call_count: interpretations,
        model_input_tokens: input_tokens,
        model_output_tokens: output_tokens,
    })
}

proof fn lemma_samples_bound(events: Seq<EventRecord>, which: nat)
    ensures
        latency_samples(events, which).len() <= events.len(),
    decreases events.len(),
{
    if events.len() > 0 {
        lemma_samples_bound(events.drop_last(), which);
    }
}

proof fn lemma_model_tokens_monotone(a: Seq<EventRecord>, b: Seq<EventRecord>, which: nat)
    ensures
        model_tokens(a, which) <= model_tokens(a + b, which),
    decreases b.len(),
{
    if b.len() == 0 {
        assert(a + b =~= a);
    } else {
        assert((a + b).drop_last() =~= a + b.drop_last());
        lemma_model_tokens_monotone(a, b.drop_last(), which);
    }
}

/// The tokens of the interval's events in a prefix are at most those of all its events.
proof fn lemma_model_tokens_prefix(all: Seq<EventRecord>, k: int, p: spec_fn(EventRecord) -> bool, which: nat)
    requires
        0 <= k <= all.len(),
    ensures
        model_tokens(all.take(k).filter(p), which) <= model_tokens(all.filter(p), which),
{
    assert(all =~= all.take(k) + all.skip(k));
    Seq::<EventRecord>::filter_distributes_over_add(all.take(k), all.skip(k), p);
    lemma_model_tokens_monotone(all.take(k).filter(p), all.skip(k).filter(p), which);
}

} // verus!
