//! The decisions of experience queries: which interval of host time a query covers,
//! which events it relates (a network request and its response, a press and its
//! release, the members of a runtime trace, evidence since a repository state), and
//! which frame times it shows. Reading the timeline and the frames is the caller's.
use vstd::prelude::*;
use crate::event::{positions, recording_order, EventRecord, Provenance};
use crate::strset::{is_set, set_extend, set_of};
use crate::query::{compact, compact_index, ms_to_ns, QueryInterval};
use crate::storage::is_hex_digit;
use crate::text::{chars_of, has_prefix, push_str, starts_with, str_equal, trim, trim_chars};
use crate::timeline_search::{all_where, first_in, first_where, last_in, last_where, lemma_first_in_member, lemma_last_in_member};

verus! {

broadcast use vstd::string::group_string_axioms;

/// Why a query cannot be answered.
#[derive(Clone, Debug, PartialEq, Eq)]
pub enum QueryError {
    DurationOverflow,
    NotRuntime,
    NoTraceId,
    InvalidTraceId,
    NoTraceMembers,
    NotNetwork,
    NoUrl,
    NotPointerDown,
    NoRelease,
    EmptyFingerprint,
    /// The repository fingerprint does not occur in the timeline.
    FingerprintNotFound(String),
    NotConsole,
    FrameLimit,
    InvalidInterval,
}

impl QueryError {
    /// The human-readable description of the error.
    pub open spec fn text(&self) -> Seq<char> {
        match self {
            QueryError::DurationOverflow => "query duration exceeds nanosecond range"@,
            QueryError::NotRuntime => "selected event is not runtime telemetry"@,
            QueryError::NoTraceId => "runtime event has no traceId"@,
            QueryError::InvalidTraceId => "runtime event traceId is invalid"@,
            QueryError::NoTraceMembers => "runtime trace has no members"@,
            QueryError::NotNetwork => "selected event is not a browser network request or response"@,
            QueryError::NoUrl => "network event has no URL"@,
            QueryError::NotPointerDown => "selected event is not pointer-down"@,
            QueryError::NoRelease => "pointer-down has no subsequent pointer-up before the next pointer-down"@,
            QueryError::EmptyFingerprint => "fingerprint must not be empty"@,
            QueryError::FingerprintNotFound(f) => "repository fingerprint "@ + f@ + " is not in the timeline"@,
            QueryError::NotConsole => "selected event is not a console message or JavaScript exception"@,
            QueryError::FrameLimit => "frame limit must be positive"@,
            QueryError::InvalidInterval => "query interval is invalid"@,
        }
    }

    /// Renders the description of the error.
    pub fn message(&self) -> (r: String)
        ensures
            r@ == self.text(),
    {
        let mut s = String::new();
        match self {
            QueryError::DurationOverflow => push_str(&mut s, "query duration exceeds nanosecond range"),
            QueryError::NotRuntime => push_str(&mut s, "selected event is not runtime telemetry"),
            QueryError::NoTraceId => push_str(&mut s, "runtime event has no traceId"),
            QueryError::InvalidTraceId => push_str(&mut s, "runtime event traceId is invalid"),
            QueryError::NoTraceMembers => push_str(&mut s, "runtime trace has no members"),
            QueryError::NotNetwork => push_str(&mut s, "selected event is not a browser network request or response"),
            QueryError::NoUrl => push_str(&mut s, "network event has no URL"),
            QueryError::NotPointerDown => push_str(&mut s, "selected event is not pointer-down"),
            QueryError::NoRelease => push_str(&mut s, "pointer-down has no subsequent pointer-up before the next pointer-down"),
            QueryError::EmptyFingerprint => push_str(&mut s, "fingerprint must not be empty"),
            QueryError::FingerprintNotFound(f) => {
                push_str(&mut s, "repository fingerprint ");
                push_str(&mut s, f.as_str());
                push_str(&mut s, " is not in the timeline");
            },
            QueryError::NotConsole => push_str(&mut s, "selected event is not a console message or JavaScript exception"),
            QueryError::FrameLimit => push_str(&mut s, "frame limit must be positive"),
            QueryError::InvalidInterval => push_str(&mut s, "query interval is invalid"),
        }
        s
    }
}

/// `ms` milliseconds in nanoseconds, when that fits 64 bits.
pub open spec fn ns_of(ms: u64) -> Option<u64> {
    if ms * 1000000 <= u64::MAX {
        Some((ms * 1000000) as u64)
    } else {
        None
    }
}

/// `a - b`, or zero.
pub open spec fn sat_sub(a: u64, b: u64) -> u64 {
    if a >= b {
        (a - b) as u64
    } else {
        0
    }
}

/// `a + b`, or the largest 64-bit number.
pub open spec fn sat_add(a: u64, b: u64) -> u64 {
    if a + b <= u64::MAX {
        (a + b) as u64
    } else {
        u64::MAX
    }
}

/// The interval from `before_ms` before `start` to `after_ms` after `end`, saturating.
pub open spec fn widened(start: u64, end: u64, before_ms: u64, after_ms: u64) -> Option<(u64, u64)> {
    match (ns_of(before_ms), ns_of(after_ms)) {
        (Some(b), Some(a)) => Some((sat_sub(start, b), sat_add(end, a))),
        _ => None,
    }
}

fn widen(start: u64, end: u64, before_ms: u64, after_ms: u64) -> (r: Result<QueryInterval, QueryError>)
    ensures
        match widened(start, end, before_ms, after_ms) {
            Some((s, e)) => r matches Ok(i) && i.start_ns == s && i.end_ns == e,
            None => r == Err::<QueryInterval, QueryError>(QueryError::DurationOverflow),
        },
{
    let b = match ms_to_ns(before_ms) {
        Some(b) => b,
        None => return Err(QueryError::DurationOverflow),
    };
    let a = match ms_to_ns(after_ms) {
        Some(a) => a,
        None => return Err(QueryError::DurationOverflow),
    };
    Ok(QueryInterval { start_ns: start.saturating_sub(b), end_ns: end.saturating_add(a) })
}

/// The context of an event: from `before_ms` before it to `after_ms` after it.
pub fn around_interval(anchor_ns: u64, before_ms: u64, after_ms: u64) -> (r: Result<QueryInterval, QueryError>)
    ensures
        match widened(anchor_ns, anchor_ns, before_ms, after_ms) {
            Some((s, e)) => r matches Ok(i) && i.start_ns == s && i.end_ns == e,
            None => r == Err::<QueryInterval, QueryError>(QueryError::DurationOverflow),
        },
{
    widen(anchor_ns, anchor_ns, before_ms, after_ms)
}

/// A trace identifier: 32 hexadecimal digits.
pub open spec fn valid_trace_id(t: Seq<char>) -> bool {
    t.len() == 32 && forall|i: int| 0 <= i < t.len() ==> is_hex_digit(#[trigger] t[i])
}

/// A runtime event of the trace `t`.
pub open spec fn trace_probe(ev: Seq<EventRecord>, t: Seq<char>) -> spec_fn(usize) -> bool {
    |i: usize| ev[i as int].source@ == "runtime"@ && (ev[i as int].facts.trace_id matches Some(x) && x@ == t)
}

/// The members of a runtime trace and the interval around them.
pub struct TracePlan {
    pub members: Vec<usize>,
    pub interval: QueryInterval,
}

/// Whether `ns` is the least host time among the events at `ps`.
pub open spec fn least_time(ev: Seq<EventRecord>, ps: Seq<usize>, ns: u64) -> bool {
    &&& exists|k: int| 0 <= k < ps.len() && ev[ps[k] as int].host_monotonic_ns == ns
    &&& forall|k: int| 0 <= k < ps.len() ==> ns <= ev[#[trigger] ps[k] as int].host_monotonic_ns
}

/// Whether `ns` is the greatest host time among the events at `ps`.
pub open spec fn greatest_time(ev: Seq<EventRecord>, ps: Seq<usize>, ns: u64) -> bool {
    &&& exists|k: int| 0 <= k < ps.len() && ev[ps[k] as int].host_monotonic_ns == ns
    &&& forall|k: int| 0 <= k < ps.len() ==> ev[#[trigger] ps[k] as int].host_monotonic_ns <= ns
}

fn is_trace_id(t: &str) -> (r: bool)
    ensures
        r == valid_trace_id(t@),
{
    crate::storage::all_hex(t, 32)
}

/// Plans a runtime-trace query from its anchor: a runtime event with a valid trace
/// identifier; the trace's members are the runtime events of `all` with that identifier,
/// and the interval runs from `before_ms` before the first to `after_ms` after the last.
pub fn runtime_trace_plan(anchor: &EventRecord, all: &[EventRecord], before_ms: u64, after_ms: u64) -> (r: Result<TracePlan, QueryError>)
    ensures
        anchor.source@ != "runtime"@ ==> r == Err::<TracePlan, QueryError>(QueryError::NotRuntime),
        anchor.source@ == "runtime"@ ==> match anchor.facts.trace_id {
            None => r == Err::<TracePlan, QueryError>(QueryError::NoTraceId),
            Some(t) => if !valid_trace_id(t@) {
                r == Err::<TracePlan, QueryError>(QueryError::InvalidTraceId)
            } else {
                let members = positions(all@.len()).filter(trace_probe(all@, t@));
                if members.len() == 0 {
                    r == Err::<TracePlan, QueryError>(QueryError::NoTraceMembers)
                } else {
                    match r {
                        Ok(p) => {
                            &&& p.members@ == members
                            &&& exists|first: u64, last: u64| least_time(all@, members, first) && greatest_time(all@, members, last)
                                && widened(first, last, before_ms, after_ms) == Some((p.interval.start_ns, p.interval.end_ns))
                        },
                        Err(e) => e == QueryError::DurationOverflow && (ns_of(before_ms) is None || ns_of(after_ms) is None),
                    }
                }
            },
        },
{
    if !str_equal(anchor.source.as_str(), "runtime") {
        return Err(QueryError::NotRuntime);
    }
    let t = match &anchor.facts.trace_id {
        Some(t) => t.as_str(),
        None => return Err(QueryError::NoTraceId),
    };
    if !is_trace_id(t) {
        return Err(QueryError::InvalidTraceId);
    }
    let ghost ev = all@;
    let n = all.len();
    let recorded = recording_order(n);
    let members = all_where(
        &recorded,
        |i: usize| -> (b: bool)
            requires i < n, n == ev.len(), ev == all@,
            ensures b == trace_probe(ev, t@)(i)
        {
            str_equal(all[i].source.as_str(), "runtime") && match &all[i].facts.trace_id {
                Some(x) => str_equal(x.as_str(), t),
                None => false,
            }
        },
        Ghost(trace_probe(ev, t@)),
        Ghost(n as nat),
    );
    if members.len() == 0 {
        return Err(QueryError::NoTraceMembers);
    }
    proof {
        broadcast use vstd::seq_lib::group_filter_ensures;
        assert forall|k: int| 0 <= k < members@.len() implies #[trigger] members@[k] < n by {
            assert(recorded@.filter(trace_probe(ev, t@)).contains(members@[k]));
            recorded@.lemma_filter_contains_rev(trace_probe(ev, t@), members@[k]);
        }
    }
    let mut first = all[members[0]].host_monotonic_ns;
    let mut last = first;
    let ghost mut kf: int = 0;
    let ghost mut kl: int = 0;
    let mut k: usize = 1;
    while k < members.len()
        invariant
            1 <= k <= members@.len(),
            n == all@.len(),
            forall|j: int| 0 <= j < members@.len() ==> #[trigger] members@[j] < n,
            0 <= kf < k && all@[members@[kf] as int].host_monotonic_ns == first,
            0 <= kl < k && all@[members@[kl] as int].host_monotonic_ns == last,
            forall|j: int| 0 <= j < k ==> first <= all@[#[trigger] members@[j] as int].host_monotonic_ns <= last,
        decreases members@.len() - k,
    {
        let ns = all[members[k]].host_monotonic_ns;
        if ns < first {
            first = ns;
            proof { kf = k as int; }
        }
        if ns > last {
            last = ns;
            proof { kl = k as int; }
        }
        k = k + 1;
    }
    let interval = widen(first, last, before_ms, after_ms)?;
    Ok(TracePlan { members, interval })
}

/// A network request or response.
pub open spec fn is_network(e: EventRecord) -> bool {
    e.kind@ == "browser.network.request"@ || e.kind@ == "browser.network.response"@
}

/// The response to a request for `url`, recorded at or after `ns`.
pub open spec fn response_probe(ev: Seq<EventRecord>, ns: u64, url: Seq<char>) -> spec_fn(usize) -> bool {
    |i: usize| ev[i as int].host_monotonic_ns >= ns && ev[i as int].kind@ == "browser.network.response"@
        && (ev[i as int].facts.url matches Some(u) && u@ == url)
}

/// A request for `url`, recorded at or before `ns`.
pub open spec fn request_probe(ev: Seq<EventRecord>, ns: u64, url: Seq<char>) -> spec_fn(usize) -> bool {
    |i: usize| ev[i as int].host_monotonic_ns <= ns && ev[i as int].kind@ == "browser.network.request"@
        && (ev[i as int].facts.url matches Some(u) && u@ == url)
}

/// A network event paired with its peer by URL and order.
pub struct NetworkPlan {
    /// The position in the timeline of the peer, when one was found.
    pub peer: Option<usize>,
    /// The earlier and later host times of the pair.
    pub pair_start: u64,
    pub pair_end: u64,
    pub interval: QueryInterval,
}

/// The peer of a network event: for a request, the first response to its URL recorded
/// at or after it; for a response, the last request for its URL recorded at or before it.
pub open spec fn network_peer(anchor: EventRecord, all: Seq<EventRecord>, url: Seq<char>) -> Option<usize> {
    if anchor.kind@ == "browser.network.request"@ {
        first_in(positions(all.len()), response_probe(all, anchor.host_monotonic_ns, url))
    } else {
        last_in(positions(all.len()), request_probe(all, anchor.host_monotonic_ns, url))
    }
}

/// Plans a network query: the event, its peer, and the interval from 250 ms before the
/// earlier of the two to 500 ms after the later.
pub fn network_plan(anchor: &EventRecord, all: &[EventRecord]) -> (r: Result<NetworkPlan, QueryError>)
    ensures
        !is_network(*anchor) ==> r == Err::<NetworkPlan, QueryError>(QueryError::NotNetwork),
        is_network(*anchor) ==> match anchor.facts.url {
            None => r == Err::<NetworkPlan, QueryError>(QueryError::NoUrl),
            Some(url) => r matches Ok(p) && {
                let peer = network_peer(*anchor, all@, url@);
                let a = anchor.host_monotonic_ns;
                &&& p.peer == peer
                &&& match peer {
                    Some(j) => {
                        let b = all@[j as int].host_monotonic_ns;
                        p.pair_start == (if b <= a { b } else { a }) && p.pair_end == (if b >= a { b } else { a })
                    },
                    None => p.pair_start == a && p.pair_end == a,
                }
                &&& p.interval.start_ns == sat_sub(p.pair_start, 250000000)
                &&& p.interval.end_ns == sat_add(p.pair_end, 500000000)
            },
        },
{
    if !(str_equal(anchor.kind.as_str(), "browser.network.request") || str_equal(anchor.kind.as_str(), "browser.network.response")) {
        return Err(QueryError::NotNetwork);
    }
    let url = match &anchor.facts.url {
        Some(u) => u.as_str(),
        None => return Err(QueryError::NoUrl),
    };
    let ghost ev = all@;
    let n = all.len();
    let a = anchor.host_monotonic_ns;
    let recorded = recording_order(n);
    let peer = if str_equal(anchor.kind.as_str(), "browser.network.request") {
        let found = first_where(
            &recorded,
            |i: usize| -> (b: bool)
                requires i < n, n == ev.len(), ev == all@,
                ensures b == response_probe(ev, a, url@)(i)
            {
                all[i].host_monotonic_ns >= a && str_equal(all[i].kind.as_str(), "browser.network.response")
                    && match &all[i].facts.url {
                        Some(u) => str_equal(u.as_str(), url),
                        None => false,
                    }
            },
            Ghost(response_probe(ev, a, url@)),
            Ghost(n as nat),
        );
        proof { lemma_first_in_member(recorded@, response_probe(ev, a, url@)); }
        found
    } else {
        let found = last_where(
            &recorded,
            |i: usize| -> (b: bool)
                requires i < n, n == ev.len(), ev == all@,
                ensures b == request_probe(ev, a, url@)(i)
            {
                all[i].host_monotonic_ns <= a && str_equal(all[i].kind.as_str(), "browser.network.request")
                    && match &all[i].facts.url {
                        Some(u) => str_equal(u.as_str(), url),
                        None => false,
                    }
            },
            Ghost(request_probe(ev, a, url@)),
            Ghost(n as nat),
        );
        proof { lemma_last_in_member(recorded@, request_probe(ev, a, url@)); }
        found
    };
    let (pair_start, pair_end) = match peer {
        Some(j) => {
            proof {
                assert(recorded@.contains(j));
            }
            let b = all[j].host_monotonic_ns;
            (if b <= a { b } else { a }, if b >= a { b } else { a })
        },
        None => (a, a),
    };
    let interval = QueryInterval {
        start_ns: pair_start.saturating_sub(250000000),
        end_ns: pair_end.saturating_add(500000000),
    };
    Ok(NetworkPlan { peer, pair_start, pair_end, interval })
}

/// The first release after a press, among the events recorded from the press on (the
/// press first): the first `pointer.up` before the next `pointer.down`.
pub open spec fn release_after(later: Seq<EventRecord>, k: int) -> Option<int>
    decreases later.len() - k,
{
    if k < 1 || k >= later.len() {
        None
    } else if later[k].kind@ == "pointer.down"@ {
        None
    } else if later[k].kind@ == "pointer.up"@ {
        Some(k)
    } else {
        release_after(later, k + 1)
    }
}

proof fn lemma_release_after_bound(later: Seq<EventRecord>, k: int)
    ensures
        release_after(later, k) matches Some(j) ==> 1 <= k <= j < later.len(),
    decreases later.len() - k,
{
    if 1 <= k < later.len() && later[k].kind@ != "pointer.down"@ && later[k].kind@ != "pointer.up"@ {
        lemma_release_after_bound(later, k + 1);
    }
}

/// Finds the release of a press. `later` holds the events recorded from the press on,
/// the press first.
pub fn pointer_release(down: &EventRecord, later: &[EventRecord]) -> (r: Result<usize, QueryError>)
    ensures
        down.kind@ != "pointer.down"@ ==> r == Err::<usize, QueryError>(QueryError::NotPointerDown),
        down.kind@ == "pointer.down"@ ==> match release_after(later@, 1) {
            Some(j) => r == Ok::<usize, QueryError>(j as usize),
            None => r == Err::<usize, QueryError>(QueryError::NoRelease),
        },
{
    if !str_equal(down.kind.as_str(), "pointer.down") {
        return Err(QueryError::NotPointerDown);
    }
    proof {
        lemma_release_after_bound(later@, 1);
    }
    let mut k: usize = 1;
    while k < later.len()
        invariant
            1 <= k,
            down.kind@ == "pointer.down"@,
            release_after(later@, 1) == release_after(later@, k as int),
        decreases later@.len() - k,
    {
        if str_equal(later[k].kind.as_str(), "pointer.down") {
            return Err(QueryError::NoRelease);
        }
        if str_equal(later[k].kind.as_str(), "pointer.up") {
            return Ok(k);
        }
        k = k + 1;
    }
    Err(QueryError::NoRelease)
}

/// A display event.
pub open spec fn is_display_event(e: EventRecord) -> bool {
    e.kind@ == "display.scanout"@ || e.kind@ == "display.update"@
}

/// The frame times of a press: its start and end, then each display event's time.
pub open spec fn hold_times_spec(start: u64, end: u64, events: Seq<EventRecord>) -> Seq<u64> {
    seq![start, end] + events.filter(|e: EventRecord| is_display_event(e)).map_values(|e: EventRecord| e.host_monotonic_ns)
}

/// The frame times of a press, from the events of its interval.
pub fn hold_frame_times(start: u64, end: u64, events: &[EventRecord]) -> (r: Vec<u64>)
    ensures
        r@ == hold_times_spec(start, end, events@),
{
    let ghost p = |e: EventRecord| is_display_event(e);
    let mut out: Vec<u64> = vec![start, end];
    let mut k: usize = 0;
    proof {
        reveal(Seq::filter);
        assert(events@.take(0) =~= Seq::<EventRecord>::empty());
        assert(out@ =~= seq![start, end] + events@.take(0).filter(p).map_values(|e: EventRecord| e.host_monotonic_ns));
    }
    while k < events.len()
        invariant
            k <= events@.len(),
            p == (|e: EventRecord| is_display_event(e)),
            out@ == seq![start, end] + events@.take(k as int).filter(p).map_values(|e: EventRecord| e.host_monotonic_ns),
        decreases events@.len() - k,
    {
        let e = &events[k];
        proof {
            assert(events@.take(k + 1) =~= events@.take(k as int).push(*e));
            events@.take(k as int).lemma_filter_push(*e, p);
        }
        let ghost before = out@;
        if str_equal(e.kind.as_str(), "display.scanout") || str_equal(e.kind.as_str(), "display.update") {
            out.push(e.host_monotonic_ns);
            assert(events@.take(k as int).filter(p).push(*e).map_values(|e: EventRecord| e.host_monotonic_ns)
                =~= events@.take(k as int).filter(p).map_values(|e: EventRecord| e.host_monotonic_ns).push(e.host_monotonic_ns));
            assert(out@ =~= seq![start, end] + events@.take(k + 1).filter(p).map_values(|e: EventRecord| e.host_monotonic_ns));
        }
        k = k + 1;
    }
    assert(events@.take(k as int) =~= events@);
    out
}

/// An event that records evidence.
pub open spec fn is_evidence(e: EventRecord) -> bool {
    e.source@ == "evidence"@ || has_prefix(e.kind@, "evidence."@)
}

/// An event recorded against the repository state `f`.
pub open spec fn fingerprint_probe(ev: Seq<EventRecord>, f: Seq<char>) -> spec_fn(usize) -> bool {
    |i: usize| ev[i as int].repository_fingerprint matches Some(x) && x@ == f
}

/// An evidence event recorded from `ns` on.
pub open spec fn evidence_probe(ev: Seq<EventRecord>, ns: u64) -> spec_fn(usize) -> bool {
    |i: usize| ev[i as int].host_monotonic_ns >= ns && is_evidence(ev[i as int])
}

/// The evidence recorded since a repository state first appeared.
pub struct EvidencePlan {
    pub anchor: usize,
    pub interval: QueryInterval,
    pub evidence: Vec<usize>,
}

/// Plans an evidence query: from the first event of the repository state `fingerprint`
/// to the last event of the timeline, the evidence events recorded from that first one on.
pub fn evidence_since(all: &[EventRecord], fingerprint: &str) -> (r: Result<EvidencePlan, QueryError>)
    ensures
        trim(fingerprint@).len() == 0 ==> r == Err::<EvidencePlan, QueryError>(QueryError::EmptyFingerprint),
        trim(fingerprint@).len() > 0 ==> match first_in(positions(all@.len()), fingerprint_probe(all@, fingerprint@)) {
            None => r matches Err(QueryError::FingerprintNotFound(f)) && f@ == fingerprint@,
            Some(a) => r matches Ok(p) && {
                let start = all@[a as int].host_monotonic_ns;
                &&& p.anchor == a
                &&& p.interval.start_ns == start
                &&& p.interval.end_ns == all@.last().host_monotonic_ns
                &&& p.evidence@ == positions(all@.len()).filter(evidence_probe(all@, start))
            },
        },
{
    let fc = chars_of(fingerprint);
    let trimmed = trim_chars(fc.as_slice());
    if trimmed.len() == 0 {
        return Err(QueryError::EmptyFingerprint);
    }
    let ghost ev = all@;
    let n = all.len();
    let recorded = recording_order(n);
    let found = first_where(
        &recorded,
        |i: usize| -> (b: bool)
            requires i < n, n == ev.len(), ev == all@,
            ensures b == fingerprint_probe(ev, fingerprint@)(i)
        {
            match &all[i].repository_fingerprint {
                Some(x) => str_equal(x.as_str(), fingerprint),
                None => false,
            }
        },
        Ghost(fingerprint_probe(ev, fingerprint@)),
        Ghost(n as nat),
    );
    proof { lemma_first_in_member(recorded@, fingerprint_probe(ev, fingerprint@)); }
    let a = match found {
        Some(a) => a,
        None => {
            let mut f = String::new();
            push_str(&mut f, fingerprint);
            return Err(QueryError::FingerprintNotFound(f));
        },
    };
    proof {
        assert(recorded@.contains(a));
    }
    let start = all[a].host_monotonic_ns;
    let end = all[n - 1].host_monotonic_ns;
    let evidence = all_where(
        &recorded,
        |i: usize| -> (b: bool)
            requires i < n, n == ev.len(), ev == all@,
            ensures b == evidence_probe(ev, start)(i)
        {
            all[i].host_monotonic_ns >= start && (str_equal(all[i].source.as_str(), "evidence") || starts_with(all[i].kind.as_str(), "evidence."))
        },
        Ghost(evidence_probe(ev, start)),
        Ghost(n as nat),
    );
    Ok(EvidencePlan { anchor: a, interval: QueryInterval { start_ns: start, end_ns: end }, evidence })
}

/// Plans a query before a console message or JavaScript exception: from `before_ms`
/// before it to it.
pub fn console_interval(exception: &EventRecord, before_ms: u64) -> (r: Result<QueryInterval, QueryError>)
    ensures
        !(exception.kind@ == "browser.javascript.exception"@ || exception.kind@ == "browser.console.message"@)
            ==> r == Err::<QueryInterval, QueryError>(QueryError::NotConsole),
        (exception.kind@ == "browser.javascript.exception"@ || exception.kind@ == "browser.console.message"@) ==> match ns_of(before_ms) {
            Some(b) => r matches Ok(i) && i.start_ns == sat_sub(exception.host_monotonic_ns, b) && i.end_ns == exception.host_monotonic_ns,
            None => r == Err::<QueryInterval, QueryError>(QueryError::DurationOverflow),
        },
{
    if !(str_equal(exception.kind.as_str(), "browser.javascript.exception") || str_equal(exception.kind.as_str(), "browser.console.message")) {
        return Err(QueryError::NotConsole);
    }
    let b = match ms_to_ns(before_ms) {
        Some(b) => b,
        None => return Err(QueryError::DurationOverflow),
    };
    Ok(QueryInterval { start_ns: exception.host_monotonic_ns.saturating_sub(b), end_ns: exception.host_monotonic_ns })
}

/// Whether a sequence of times is strictly increasing.
pub open spec fn increasing(s: Seq<u64>) -> bool {
    forall|i: int, j: int| 0 <= i < j < s.len() ==> s[i] < s[j]
}

/// The distinct times, in increasing order.
pub open spec fn distinct_times(times: Seq<u64>) -> Seq<u64> {
    choose|s: Seq<u64>| increasing(s) && s.to_set() == times.to_set()
}

/// The distinct times, in increasing order.
pub fn distinct_sorted(times: &[u64]) -> (unique: Vec<u64>)
    ensures
        increasing(unique@),
        unique@.to_set() == times@.to_set(),
        unique@.len() <= times@.len(),
{
    let mut unique: Vec<u64> = Vec::new();
    let mut k: usize = 0;
    proof {
        assert(unique@.to_set() =~= times@.take(0).to_set());
    }
    while k < times.len()
        invariant
            k <= times@.len(),
            increasing(unique@),
            unique@.to_set() == times@.take(k as int).to_set(),
            unique@.len() <= k,
        decreases times@.len() - k,
    {
        let t = times[k];
        let mut p: usize = 0;
        while p < unique.len() && unique[p] < t
            invariant
                p <= unique@.len(),
                increasing(unique@),
                forall|j: int| 0 <= j < p ==> unique@[j] < t,
            decreases unique@.len() - p,
        {
            p = p + 1;
        }
        let ghost before = unique@;
        proof {
            assert(times@.take(k + 1) =~= times@.take(k as int).push(t));
            times@.take(k as int).lemma_push_to_set_commute(t);
        }
        if p < unique.len() && unique[p] == t {
            assert(unique@.to_set() =~= unique@.to_set().insert(t)) by {
                assert(unique@.to_set().contains(unique@[p as int]));
            }
        } else {
            unique.insert(p, t);
            proof {
                assert(unique@ =~= before.take(p as int).push(t) + before.skip(p as int));
                assert forall|i: int, j: int| 0 <= i < j < unique@.len() implies unique@[i] < unique@[j] by {
                    if j < p {
                    } else if j == p {
                    } else if i < p {
                        assert(unique@[j] == before[j - 1]);
                    } else if i == p {
                        assert(unique@[j] == before[j - 1]);
                    } else {
                        assert(unique@[i] == before[i - 1] && unique@[j] == before[j - 1]);
                    }
                }
                assert forall|x: u64| unique@.to_set().contains(x) <==> before.to_set().insert(t).contains(x) by {
                    if unique@.contains(x) {
                        let j = choose|j: int| 0 <= j < unique@.len() && unique@[j] == x;
                        if j < p {
                            assert(before[j] == x);
                        } else if j > p {
                            assert(before[j - 1] == x);
                        }
                    }
                    if before.contains(x) {
                        let j = choose|j: int| 0 <= j < before.len() && before[j] == x;
                        if j < p {
                            assert(unique@[j] == x);
                        } else {
                            assert(unique@[j + 1] == x);
                        }
                    }
                    if x == t {
                        assert(unique@[p as int] == t);
                    }
                }
                assert(unique@.to_set() =~= before.to_set().insert(t));
            }
        }
        k = k + 1;
    }
    assert(times@.take(k as int) =~= times@);
    unique
}

/// The frame times to show: the distinct times in increasing order, at most `limit` of
/// them, evenly spaced with the first and last kept.
pub fn frame_times_selection(times: &[u64], limit: usize) -> (r: Result<Vec<u64>, QueryError>)
    requires
        times@.len() <= limit || limit <= 1 || (limit - 1) * (times@.len() - 1) <= usize::MAX,
    ensures
        limit == 0 ==> r == Err::<Vec<u64>, QueryError>(QueryError::FrameLimit),
        limit > 0 ==> (r matches Ok(v) && exists|u: Seq<u64>| increasing(u) && u.to_set() == times@.to_set() && {
            &&& u.len() <= limit ==> v@ == u
            &&& u.len() > limit && limit == 1 ==> v@ == seq![u.last()]
            &&& u.len() > limit && limit > 1 ==> v@.len() == limit && forall|i: int| 0 <= i < limit ==> v@[i] == u[compact_index(i, u.len() as int, limit as int)]
        }),
{
    if limit == 0 {
        return Err(QueryError::FrameLimit);
    }
    let unique = distinct_sorted(times);
    let ghost u = unique@;
    proof {
        if u.len() > limit && limit > 1 {
            assert((limit - 1) * (u.len() - 1) <= (limit - 1) * (times@.len() - 1)) by (nonlinear_arith)
                requires
                    u.len() <= times@.len(),
                    limit > 1,
                    u.len() > limit,
            ;
        }
    }
    let selected = compact(unique, limit);
    proof {
        if u.len() > limit && limit == 1 {
            assert(selected@ =~= seq![u.last()]);
        }
        if u.len() > limit && limit > 1 {
            assert forall|i: int| 0 <= i < limit implies selected@[i] == u[compact_index(i, u.len() as int, limit as int)] by {
                assert(cloned::<u64>(u[compact_index(i, u.len() as int, limit as int)], selected@[i]));
            }
        }
        assert(increasing(u) && u.to_set() == times@.to_set());
    }
    Ok(selected)
}

/// The events of a query, parted by how each was obtained, and the artifacts that they
/// and the query's frames cite.
pub struct QueryPartition {
    pub interval: QueryInterval,
    pub observed_events: Vec<EventRecord>,
    pub derived_events: Vec<EventRecord>,
    pub model_interpretations: Vec<EventRecord>,
    pub agent_claims: Vec<EventRecord>,
    /// Ordered and free of repeats.
    pub artifact_refs: Vec<String>,
}

/// Whether an event was obtained in the way `p`.
pub open spec fn has_provenance(p: Provenance) -> spec_fn(EventRecord) -> bool {
    |e: EventRecord| e.provenance == p
}

/// Every artifact that some event of `events` cites.
pub open spec fn event_artifacts(events: Seq<EventRecord>) -> Set<Seq<char>>
    decreases events.len(),
{
    if events.len() == 0 {
        Set::empty()
    } else {
        event_artifacts(events.drop_last()).union(set_of(events.last().artifact_refs@))
    }
}

/// The answer to a query over `interval`: the events in their given order, directly
/// observed ones first among the four provenance lists, and every artifact that an event
/// or one of the frames (`frame_refs`) cites. Refused when the interval ends before it
/// starts.
pub fn query_result(interval: QueryInterval, events: Vec<EventRecord>, frame_refs: &Vec<String>) -> (r: Result<QueryPartition, QueryError>)
    ensures
        interval.start_ns > interval.end_ns ==> r == Err::<QueryPartition, QueryError>(QueryError::InvalidInterval),
        interval.start_ns <= interval.end_ns ==> (r matches Ok(q) && {
            &&& q.interval == interval
            &&& q.observed_events@ == events@.filter(has_provenance(Provenance::Observed))
            &&& q.derived_events@ == events@.filter(has_provenance(Provenance::Derived))
            &&& q.model_interpretations@ == events@.filter(has_provenance(Provenance::ModelInterpreted))
            &&& q.agent_claims@ == events@.filter(has_provenance(Provenance::AgentClaim))
            &&& is_set(q.artifact_refs@)
            &&& set_of(q.artifact_refs@) == event_artifacts(events@).union(set_of(frame_refs@))
        }),
{
    if interval.start_ns > interval.end_ns {
        return Err(QueryError::InvalidInterval);
    }
    let ghost original = events@;
    let mut rest = events;
    let mut observed: Vec<EventRecord> = Vec::new();
    let mut derived: Vec<EventRecord> = Vec::new();
    let mut interpreted: Vec<EventRecord> = Vec::new();
    let mut claims: Vec<EventRecord> = Vec::new();
    let mut refs: Vec<String> = Vec::new();
    let ghost mut k: int = 0;
    proof {
        reveal(Seq::filter);
        assert(original.take(0) =~= Seq::<EventRecord>::empty());
        assert(original.skip(0) =~= original);
        assert(set_of(refs@) =~= Set::<Seq<char>>::empty());
    }
    while rest.len() > 0
        invariant
            0 <= k <= original.len(),
            rest@ == original.skip(k),
            observed@ == original.take(k).filter(has_provenance(Provenance::Observed)),
            derived@ == original.take(k).filter(has_provenance(Provenance::Derived)),
            interpreted@ == original.take(k).filter(has_provenance(Provenance::ModelInterpreted)),
            claims@ == original.take(k).filter(has_provenance(Provenance::AgentClaim)),
            is_set(refs@),
            set_of(refs@) == event_artifacts(original.take(k)),
        decreases rest@.len(),
    {
        let e = rest.remove(0);
        proof {
            assert(original.take(k + 1) =~= original.take(k).push(e));
            assert(original.take(k + 1).drop_last() =~= original.take(k));
            original.take(k).lemma_filter_push(e, has_provenance(Provenance::Observed));
            original.take(k).lemma_filter_push(e, has_provenance(Provenance::Derived));
            original.take(k).lemma_filter_push(e, has_provenance(Provenance::ModelInterpreted));
            original.take(k).lemma_filter_push(e, has_provenance(Provenance::AgentClaim));
            assert(rest@ =~= original.skip(k + 1));
            k = k + 1;
        }
        set_extend(&mut refs, &e.artifact_refs);
        match e.provenance {
            Provenance::Observed => observed.push(e),
            Provenance::Derived => derived.push(e),
            Provenance::ModelInterpreted => interpreted.push(e),
            Provenance::AgentClaim => claims.push(e),
        }
    }
    assert(original.take(k) =~= original);
    set_extend(&mut refs, frame_refs);
    Ok(QueryPartition {
        interval,
        observed_events: observed,
        derived_events: derived,
        model_interpretations: interpreted,
        agent_claims: claims,
        artifact_refs: refs,
    })
}

/// A query's answer keeps every event exactly once: the four provenance lists together
/// are as long as the events they part.
pub proof fn law_query_partition_keeps_every_event(events: Seq<EventRecord>)
    ensures
        events.filter(has_provenance(Provenance::Observed)).len() + events.filter(has_provenance(Provenance::Derived)).len()
            + events.filter(has_provenance(Provenance::ModelInterpreted)).len() + events.filter(
            has_provenance(Provenance::AgentClaim),
        ).len() == events.len(),
    decreases events.len(),
{
    reveal(Seq::filter);
    if events.len() > 0 {
        law_query_partition_keeps_every_event(events.drop_last());
        let e = events.last();
        assert(events =~= events.drop_last().push(e));
        events.drop_last().lemma_filter_push(e, has_provenance(Provenance::Observed));
        events.drop_last().lemma_filter_push(e, has_provenance(Provenance::Derived));
        events.drop_last().lemma_filter_push(e, has_provenance(Provenance::ModelInterpreted));
        events.drop_last().lemma_filter_push(e, has_provenance(Provenance::AgentClaim));
    }
}

} // verus!
