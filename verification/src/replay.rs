//! Choosing what a replay of an interval shows: its input events, its display events, and
//! the keyframe times (the first display event, the first display event after each press,
//! release or key release, and the last display event), at most twelve of them.
//! Rebuilding the frames at those times is the caller's.
use vstd::prelude::*;
use crate::event::{positions, recording_order, EventRecord};
use crate::experience::{compact_selection, compact_times, strictly_increasing};
use crate::query_plan::{distinct_sorted, increasing};
use crate::reconstruction::is_frame_event;
use crate::text::{push_str, str_equal};
use crate::timeline_search::{all_where, first_in, first_where, lemma_first_in_member};

verus! {

broadcast use vstd::string::group_string_axioms;

/// Why a replay cannot be planned.
#[derive(Clone, Copy, Debug, PartialEq, Eq, Structural)]
pub enum ReplayError {
    StartAfterEnd,
}

impl ReplayError {
    /// The human-readable description of the error.
    pub open spec fn text(&self) -> Seq<char> {
        "replay start must not exceed end"@
    }

    /// Renders the description of the error.
    pub fn message(&self) -> (r: String)
        ensures
            r@ == self.text(),
    {
        let mut s = String::new();
        push_str(&mut s, "replay start must not exceed end");
        s
    }
}

/// An event recorded within the interval.
pub open spec fn in_range(ev: Seq<EventRecord>, start: u64, end: u64) -> spec_fn(usize) -> bool {
    |i: usize| start <= ev[i as int].host_monotonic_ns && ev[i as int].host_monotonic_ns <= end
}

/// An input event.
pub open spec fn input_probe(ev: Seq<EventRecord>) -> spec_fn(usize) -> bool {
    |i: usize| ev[i as int].source@ == "input"@
}

/// A display event.
pub open spec fn display_probe(ev: Seq<EventRecord>) -> spec_fn(usize) -> bool {
    |i: usize| is_frame_event(ev[i as int])
}

/// An event recorded after `ns`.
pub open spec fn after_probe(ev: Seq<EventRecord>, ns: u64) -> spec_fn(usize) -> bool {
    |i: usize| ev[i as int].host_monotonic_ns > ns
}

/// An input whose visual response the replay shows.
pub open spec fn prompts_keyframe(e: EventRecord) -> bool {
    e.kind@ == "pointer.down"@ || e.kind@ == "pointer.up"@ || e.kind@ == "key.up"@
}

/// The `k`-th input is answered, at time `t`, by the first display event after it.
pub open spec fn answered_at(ev: Seq<EventRecord>, inputs: Seq<usize>, displays: Seq<usize>, k: int, t: u64) -> bool {
    &&& 0 <= k < inputs.len()
    &&& prompts_keyframe(ev[inputs[k] as int])
    &&& first_in(displays, after_probe(ev, ev[inputs[k] as int].host_monotonic_ns)) matches Some(p)
    &&& ev[p as int].host_monotonic_ns == t
}

/// The keyframe times: the first and last display events' times, and the times of the
/// display events that answer the inputs.
pub open spec fn keyframe_time(ev: Seq<EventRecord>, inputs: Seq<usize>, displays: Seq<usize>, t: u64) -> bool {
    ||| displays.len() > 0 && t == ev[displays[0] as int].host_monotonic_ns
    ||| displays.len() > 0 && t == ev[displays.last() as int].host_monotonic_ns
    ||| exists|k: int| #[trigger] answered_at(ev, inputs, displays, k, t)
}

/// What a replay shows, as positions in the timeline and keyframe times.
pub struct ReplayPlan {
    pub input_events: Vec<usize>,
    pub display_events: Vec<usize>,
    pub frame_times: Vec<u64>,
}

/// Plans the replay of the interval from `start_ns` to `end_ns` of a timeline given in
/// timeline order.
pub fn replay_plan(events: &[EventRecord], start_ns: u64, end_ns: u64) -> (r: Result<ReplayPlan, ReplayError>)
    requires
        events@.len() * 12 <= usize::MAX,
    ensures
        start_ns > end_ns ==> r == Err::<ReplayPlan, ReplayError>(ReplayError::StartAfterEnd),
        start_ns <= end_ns ==> (r matches Ok(p) && {
            let interval = positions(events@.len()).filter(in_range(events@, start_ns, end_ns));
            let inputs = interval.filter(input_probe(events@));
            let displays = interval.filter(display_probe(events@));
            &&& p.input_events@ == inputs
            &&& p.display_events@ == displays
            &&& exists|u: Seq<u64>| {
                &&& increasing(u)
                &&& forall|t: u64| #[trigger] u.contains(t) <==> keyframe_time(events@, inputs, displays, t)
                &&& u.len() <= 12 ==> p.frame_times@ == u
                &&& u.len() > 12 ==> strictly_increasing(p.frame_times@) && p.frame_times@.to_set() == compact_selection(u, 12).to_set()
            }
        }),
{
    if start_ns > end_ns {
        return Err(ReplayError::StartAfterEnd);
    }
    let ghost ev = events@;
    let n = events.len();
    let order = recording_order(n);
    let interval = all_where(
        &order,
        |i: usize| -> (b: bool)
            requires i < n, n == ev.len(), ev == events@,
            ensures b == in_range(ev, start_ns, end_ns)(i)
        { start_ns <= events[i].host_monotonic_ns && events[i].host_monotonic_ns <= end_ns },
        Ghost(in_range(ev, start_ns, end_ns)),
        Ghost(n as nat),
    );
    proof {
        broadcast use vstd::seq_lib::group_filter_ensures;
        assert forall|k: int| 0 <= k < interval@.len() implies #[trigger] interval@[k] < n by {
            assert(order@.filter(in_range(ev, start_ns, end_ns)).contains(interval@[k]));
            order@.lemma_filter_contains_rev(in_range(ev, start_ns, end_ns), interval@[k]);
        }
    }
    let inputs = all_where(
        &interval,
        |i: usize| -> (b: bool)
            requires i < n, n == ev.len(), ev == events@,
            ensures b == input_probe(ev)(i)
        { str_equal(events[i].source.as_str(), "input") },
        Ghost(input_probe(ev)),
        Ghost(n as nat),
    );
    let displays = all_where(
        &interval,
        |i: usize| -> (b: bool)
            requires i < n, n == ev.len(), ev == events@,
            ensures b == display_probe(ev)(i)
        { str_equal(events[i].kind.as_str(), "display.scanout") || str_equal(events[i].kind.as_str(), "display.update") },
        Ghost(display_probe(ev)),
        Ghost(n as nat),
    );
    proof {
        broadcast use vstd::seq_lib::group_filter_ensures;
        assert forall|k: int| 0 <= k < inputs@.len() implies #[trigger] inputs@[k] < n by {
            assert(interval@.filter(input_probe(ev)).contains(inputs@[k]));
            interval@.lemma_filter_contains_rev(input_probe(ev), inputs@[k]);
        }
        assert forall|k: int| 0 <= k < displays@.len() implies #[trigger] displays@[k] < n by {
            assert(interval@.filter(display_probe(ev)).contains(displays@[k]));
            interval@.lemma_filter_contains_rev(display_probe(ev), displays@[k]);
        }
    }
    let ghost iv = inputs@;
    let ghost dv = displays@;
    let mut candidates: Vec<u64> = Vec::new();
    if displays.len() > 0 {
        candidates.push(events[displays[0]].host_monotonic_ns);
    }
    let mut k: usize = 0;
    proof {
        assert forall|t: u64| #[trigger] candidates@.contains(t) <==> (
            (dv.len() > 0 && t == ev[dv[0] as int].host_monotonic_ns)
            || exists|j: int| 0 <= j < k && #[trigger] answered_at(ev, iv, dv, j, t)) by {
            if dv.len() > 0 && t == ev[dv[0] as int].host_monotonic_ns {
                assert(candidates@[0] == t);
            }
        }
    }
    while k < inputs.len()
        invariant
            n == ev.len(),
            ev == events@,
            iv == inputs@,
            dv == displays@,
            k <= iv.len(),
            candidates@.len() <= k + 1,
            forall|j: int| 0 <= j < iv.len() ==> #[trigger] iv[j] < n,
            forall|j: int| 0 <= j < dv.len() ==> #[trigger] dv[j] < n,
            forall|t: u64| #[trigger] candidates@.contains(t) <==> (
                (dv.len() > 0 && t == ev[dv[0] as int].host_monotonic_ns)
                || exists|j: int| 0 <= j < k && #[trigger] answered_at(ev, iv, dv, j, t)),
        decreases iv.len() - k,
    {
        let e = &events[inputs[k]];
        let ghost before = candidates@;
        if str_equal(e.kind.as_str(), "pointer.down") || str_equal(e.kind.as_str(), "pointer.up") || str_equal(e.kind.as_str(), "key.up") {
            let at = e.host_monotonic_ns;
            let found = first_where(
                &displays,
                |i: usize| -> (b: bool)
                    requires i < n, n == ev.len(), ev == events@,
                    ensures b == after_probe(ev, at)(i)
                { events[i].host_monotonic_ns > at },
                Ghost(after_probe(ev, at)),
                Ghost(n as nat),
            );
            proof {
                lemma_first_in_member(dv, after_probe(ev, at));
            }
            match found {
                Some(p) => {
                    proof {
                        assert(dv.contains(p));
                    }
                    let t = events[p].host_monotonic_ns;
                    candidates.push(t);
                    proof {
                        assert(answered_at(ev, iv, dv, k as int, t));
                        assert forall|x: u64| #[trigger] candidates@.contains(x) <==> (
                            (dv.len() > 0 && x == ev[dv[0] as int].host_monotonic_ns)
                            || exists|j: int| 0 <= j < k + 1 && #[trigger] answered_at(ev, iv, dv, j, x)) by {
                            assert(candidates@ == before.push(t));
                            if exists|j: int| 0 <= j < k + 1 && #[trigger] answered_at(ev, iv, dv, j, x) {
                                let j = choose|j: int| 0 <= j < k + 1 && #[trigger] answered_at(ev, iv, dv, j, x);
                                if j == k {
                                    assert(x == t);
                                    assert(candidates@[before.len() as int] == x);
                                } else {
                                    assert(before.contains(x));
                                    let q = choose|q: int| 0 <= q < before.len() && before[q] == x;
                                    assert(candidates@[q] == x);
                                }
                            }
                            if before.contains(x) {
                                let q = choose|q: int| 0 <= q < before.len() && before[q] == x;
                                assert(candidates@[q] == x);
                            }
                            if candidates@.contains(x) {
                                let q = choose|q: int| 0 <= q < candidates@.len() && candidates@[q] == x;
                                if q < before.len() {
                                    assert(before[q] == x);
                                    assert(before.contains(x));
                                }
                            }
                        }
                    }
                },
                None => {
                    proof {
                        assert forall|x: u64| #[trigger] candidates@.contains(x) <==> (
                            (dv.len() > 0 && x == ev[dv[0] as int].host_monotonic_ns)
                            || exists|j: int| 0 <= j < k + 1 && #[trigger] answered_at(ev, iv, dv, j, x)) by {
                            if exists|j: int| 0 <= j < k + 1 && #[trigger] answered_at(ev, iv, dv, j, x) {
                                let j = choose|j: int| 0 <= j < k + 1 && #[trigger] answered_at(ev, iv, dv, j, x);
                                assert(j != k);
                            }
                        }
                    }
                },
            }
        } else {
            proof {
                assert forall|x: u64| #[trigger] candidates@.contains(x) <==> (
                    (dv.len() > 0 && x == ev[dv[0] as int].host_monotonic_ns)
                    || exists|j: int| 0 <= j < k + 1 && #[trigger] answered_at(ev, iv, dv, j, x)) by {
                    if exists|j: int| 0 <= j < k + 1 && #[trigger] answered_at(ev, iv, dv, j, x) {
                        let j = choose|j: int| 0 <= j < k + 1 && #[trigger] answered_at(ev, iv, dv, j, x);
                        assert(j != k);
                    }
                }
            }
        }
        k = k + 1;
    }
    let ghost middle = candidates@;
    if displays.len() > 0 {
        candidates.push(events[displays[displays.len() - 1]].host_monotonic_ns);
    }
    proof {
        assert forall|t: u64| #[trigger] candidates@.contains(t) <==> keyframe_time(ev, iv, dv, t) by {
            if exists|j: int| #[trigger] answered_at(ev, iv, dv, j, t) {
                let j = choose|j: int| #[trigger] answered_at(ev, iv, dv, j, t);
                assert(0 <= j < k);
                assert(middle.contains(t));
                let q = choose|q: int| 0 <= q < middle.len() && middle[q] == t;
                assert(candidates@[q] == t);
            }
            if middle.contains(t) {
                let q = choose|q: int| 0 <= q < middle.len() && middle[q] == t;
                assert(candidates@[q] == t);
            }
            if candidates@.contains(t) {
                let q = choose|q: int| 0 <= q < candidates@.len() && candidates@[q] == t;
                if q < middle.len() {
                    assert(middle[q] == t);
                    assert(middle.contains(t));
                }
            }
            if dv.len() > 0 && t == ev[dv.last() as int].host_monotonic_ns {
                assert(candidates@[middle.len() as int] == t);
            }
            if dv.len() > 0 && t == ev[dv[0] as int].host_monotonic_ns {
                assert(middle.contains(t));
                let q = choose|q: int| 0 <= q < middle.len() && middle[q] == t;
                assert(candidates@[q] == t);
            }
        }
    }
    let unique = distinct_sorted(candidates.as_slice());
    let ghost u = unique@;
    proof {
        assert(u.len() <= n + 2);
        assert(u.len() <= 12 || 11 * (u.len() - 1) <= usize::MAX);
        assert forall|t: u64| #[trigger] u.contains(t) <==> keyframe_time(ev, iv, dv, t) by {
            assert(u.to_set().contains(t) == u.contains(t));
            assert(candidates@.to_set().contains(t) == candidates@.contains(t));
        }
    }
    let frame_times = compact_times(unique, 12);
    Ok(ReplayPlan { input_events: inputs, display_events: displays, frame_times })
}

/// The display events a replay lists: every scanout, and the updates that produced a
/// keyframe.
pub open spec fn significant_probe(ev: Seq<EventRecord>, keyframe_ids: Seq<String>) -> spec_fn(usize) -> bool {
    |i: usize| ev[i as int].kind@ == "display.scanout"@ || exists|k: int| 0 <= k < keyframe_ids.len() && (#[trigger] keyframe_ids[k])@ == ev[i as int].id@
}

fn is_keyframe(keyframe_ids: &[String], id: &str) -> (r: bool)
    ensures
        r == exists|k: int| 0 <= k < keyframe_ids@.len() && (#[trigger] keyframe_ids@[k])@ == id@,
{
    let mut k: usize = 0;
    while k < keyframe_ids.len()
        invariant
            k <= keyframe_ids@.len(),
            forall|q: int| 0 <= q < k ==> (#[trigger] keyframe_ids@[q])@ != id@,
        decreases keyframe_ids@.len() - k,
    {
        if str_equal(keyframe_ids[k].as_str(), id) {
            assert(keyframe_ids@[k as int]@ == id@);
            return true;
        }
        k = k + 1;
    }
    false
}

/// The display events a replay lists, given the events the keyframes were rebuilt from.
pub fn significant_display_events(events: &[EventRecord], displays: &Vec<usize>, keyframe_ids: &[String]) -> (r: Vec<usize>)
    requires
        forall|k: int| 0 <= k < displays@.len() ==> #[trigger] displays@[k] < events@.len(),
    ensures
        r@ == displays@.filter(significant_probe(events@, keyframe_ids@)),
{
    let ghost ev = events@;
    let n = events.len();
    all_where(
        displays,
        |i: usize| -> (b: bool)
            requires i < n, n == ev.len(), ev == events@,
            ensures b == significant_probe(ev, keyframe_ids@)(i)
        { str_equal(events[i].kind.as_str(), "display.scanout") || is_keyframe(keyframe_ids, events[i].id.as_str()) },
        Ghost(significant_probe(ev, keyframe_ids@)),
        Ghost(n as nat),
    )
}

} // verus!
