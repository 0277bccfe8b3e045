//! The generic observations drawn from a timeline: visual responses to input (and their
//! absence), repeated updates of one region, A-B-A reversions of the frame, several
//! frames while the pointer was held, and display responses to network replies.
use vstd::prelude::*;
use crate::event::EventRecord;
use crate::regions::PixelBounds;
use crate::strset::{is_set, lemma_lt_irreflexive, set_insert, set_of, str_lt};
use crate::temporal::{
    observation_views, DetailView, DisplayUpdateFact, FrameState, ObservationDetail, ObservationKind, ObservationView,
    TemporalObservation, TemporalSettings,
};
use crate::text::{str_equal, views};
use crate::timeline_search::{first_in, last_in, last_where, lemma_last_in_member};

verus! {

broadcast use vstd::string::group_string_axioms;

/// `ms` milliseconds in nanoseconds, saturating.
pub open spec fn ms_to_ns(ms: u64) -> u64 {
    if ms * 1_000_000 > u64::MAX {
        u64::MAX
    } else {
        (ms * 1_000_000) as u64
    }
}

/// `a + b`, saturating.
pub open spec fn sat_add(a: u64, b: u64) -> u64 {
    if a + b > u64::MAX {
        u64::MAX
    } else {
        (a + b) as u64
    }
}

fn ms_to_ns_exec(ms: u64) -> (r: u64)
    ensures
        r == ms_to_ns(ms),
{
    if ms > u64::MAX / 1_000_000 {
        u64::MAX
    } else {
        ms * 1_000_000
    }
}

fn sat_add_exec(a: u64, b: u64) -> (r: u64)
    ensures
        r == sat_add(a, b),
{
    if a > u64::MAX - b {
        u64::MAX
    } else {
        a + b
    }
}

/// At most this many changed pixels can be a repaint of the pointer.
pub const CURSOR_MAX_PIXELS: u64 = 1024;

/// How far, in pixels, a repaint of the pointer may reach beyond its destination.
pub const CURSOR_REACH_PX: u64 = 32;

/// A pointer move that states its destination, recorded no later than `ns`.
pub open spec fn pointer_move_probe(ev: Seq<EventRecord>, ns: u64) -> spec_fn(usize) -> bool {
    |i: usize| ev[i as int].kind@ == "pointer.move"@ && ev[i as int].host_monotonic_ns <= ns
        && ev[i as int].facts.pointer_x is Some && ev[i as int].facts.pointer_y is Some
}

/// Whether changed bounds lie within reach of the pointer destination `(x, y)`.
pub open spec fn near_pointer(b: PixelBounds, x: u64, y: u64) -> bool {
    &&& b.x <= x + CURSOR_REACH_PX
    &&& x <= b.x + b.width + CURSOR_REACH_PX
    &&& b.y <= y + CURSOR_REACH_PX
    &&& y <= b.y + b.height + CURSOR_REACH_PX
}

/// The pointer move whose repaint a display update is: a small change (at most
/// `CURSOR_MAX_PIXELS` pixels) within reach of the destination of the latest pointer move
/// recorded no later than the update, within the response window before it. Such a change
/// is kept as a cursor-only change and answers no input.
pub open spec fn cursor_source(ev: Seq<EventRecord>, ord: Seq<usize>, f: DisplayUpdateFact, s: TemporalSettings) -> Option<usize> {
    if f.changed_pixels == 0 || f.changed_pixels > CURSOR_MAX_PIXELS {
        None
    } else {
        match f.changed_bounds {
            None => None,
            Some(b) => match last_in(ord, pointer_move_probe(ev, f.host_monotonic_ns)) {
                None => None,
                Some(p) => if f.host_monotonic_ns - ev[p as int].host_monotonic_ns <= ms_to_ns(s.response_window_ms)
                    && near_pointer(b, ev[p as int].facts.pointer_x->0, ev[p as int].facts.pointer_y->0) {
                    Some(p)
                } else {
                    None
                },
            },
        }
    }
}

/// The cursor source of every fact.
pub open spec fn cursor_sources(ev: Seq<EventRecord>, ord: Seq<usize>, facts: Seq<DisplayUpdateFact>, s: TemporalSettings) -> Seq<Option<usize>> {
    Seq::new(facts.len(), |k: int| cursor_source(ev, ord, facts[k], s))
}

fn near_pointer_exec(b: PixelBounds, x: u64, y: u64) -> (r: bool)
    ensures
        r == near_pointer(b, x, y),
{
    let reach = CURSOR_REACH_PX as u128;
    (b.x as u128) <= (x as u128) + reach && (x as u128) <= (b.x as u128) + (b.width as u128) + reach
        && (b.y as u128) <= (y as u128) + reach && (y as u128) <= (b.y as u128) + (b.height as u128) + reach
}

/// Finds, for every fact, the pointer move it repaints, if any.
pub fn find_cursor_sources(events: &[EventRecord], ordered: &Vec<usize>, facts: &[DisplayUpdateFact], settings: &TemporalSettings) -> (r: Vec<Option<usize>>)
    requires
        forall|k: int| 0 <= k < ordered@.len() ==> #[trigger] ordered@[k] < events@.len(),
    ensures
        r@ == cursor_sources(events@, ordered@, facts@, *settings),
        forall|k: int| 0 <= k < r@.len() ==> (#[trigger] r@[k] matches Some(p) ==> p < events@.len()),
        forall|k: int| 0 <= k < r@.len() ==> (#[trigger] r@[k] matches Some(p) ==> events@[p as int].facts.pointer_x is Some && events@[p as int].facts.pointer_y is Some),
{
    let ghost ev = events@;
    let n = events.len();
    let window = ms_to_ns_exec(settings.response_window_ms);
    let mut out: Vec<Option<usize>> = Vec::new();
    let mut k: usize = 0;
    while k < facts.len()
        invariant
            n == ev.len(),
            ev == events@,
            window == ms_to_ns(settings.response_window_ms),
            forall|j: int| 0 <= j < ordered@.len() ==> #[trigger] ordered@[j] < n,
            k <= facts@.len(),
            out@.len() == k,
            forall|j: int| 0 <= j < k ==> out@[j] == cursor_source(ev, ordered@, facts@[j], *settings),
            forall|j: int| 0 <= j < k ==> (#[trigger] out@[j] matches Some(p) ==> p < n),
            forall|j: int| 0 <= j < k ==> (#[trigger] out@[j] matches Some(p) ==> ev[p as int].facts.pointer_x is Some && ev[p as int].facts.pointer_y is Some),
        decreases facts@.len() - k,
    {
        let f = &facts[k];
        let mut source: Option<usize> = None;
        if f.changed_pixels > 0 && f.changed_pixels <= CURSOR_MAX_PIXELS {
            match f.changed_bounds {
                Some(b) => {
                    let at = f.host_monotonic_ns;
                    let found = last_where(
                        ordered,
                        |i: usize| -> (r: bool)
                            requires i < n, n == ev.len(), ev == events@,
                            ensures r == pointer_move_probe(ev, at)(i)
                        {
                            str_equal(events[i].kind.as_str(), "pointer.move") && events[i].host_monotonic_ns <= at
                                && events[i].facts.pointer_x.is_some() && events[i].facts.pointer_y.is_some()
                        },
                        Ghost(pointer_move_probe(ev, at)),
                        Ghost(n as nat),
                    );
                    proof {
                        lemma_last_in_member(ordered@, pointer_move_probe(ev, at));
                    }
                    match found {
                        Some(p) => {
                            proof {
                                assert(ordered@.contains(p));
                            }
                            let pe = &events[p];
                            match (pe.facts.pointer_x, pe.facts.pointer_y) {
                                (Some(x), Some(y)) => {
                                    if at - pe.host_monotonic_ns <= window && near_pointer_exec(b, x, y) {
                                        source = Some(p);
                                    }
                                },
                                _ => {},
                            }
                        },
                        None => {},
                    }
                },
                None => {},
            }
        }
        out.push(source);
        k = k + 1;
    }
    assert(out@ =~= cursor_sources(events@, ordered@, facts@, *settings));
    out
}

/// The first fact, from position `k` on, that changed pixels after host time `ns` and
/// no later than `deadline`, and is no repaint of the pointer.
pub open spec fn first_response(facts: Seq<DisplayUpdateFact>, cursor: Seq<Option<usize>>, ns: u64, deadline: u64, k: int) -> Option<int>
    decreases facts.len() - k,
{
    if k < 0 || k >= facts.len() {
        None
    } else if facts[k].changed_pixels > 0 && cursor[k] is None && ns < facts[k].host_monotonic_ns <= deadline {
        Some(k)
    } else {
        first_response(facts, cursor, ns, deadline, k + 1)
    }
}

proof fn lemma_first_response_bound(facts: Seq<DisplayUpdateFact>, cursor: Seq<Option<usize>>, ns: u64, deadline: u64, k: int)
    ensures
        first_response(facts, cursor, ns, deadline, k) matches Some(j) ==> 0 <= k <= j < facts.len()
            && facts[j].changed_pixels > 0 && cursor[j] is None && ns < facts[j].host_monotonic_ns <= deadline,
    decreases facts.len() - k,
{
    if 0 <= k < facts.len() && !(facts[k].changed_pixels > 0 && cursor[k] is None && ns < facts[k].host_monotonic_ns <= deadline) {
        lemma_first_response_bound(facts, cursor, ns, deadline, k + 1);
    }
}

fn find_response(facts: &[DisplayUpdateFact], cursor: &[Option<usize>], ns: u64, deadline: u64) -> (r: Option<usize>)
    requires
        cursor@.len() == facts@.len(),
    ensures
        match first_response(facts@, cursor@, ns, deadline, 0) {
            Some(j) => r == Some(j as usize),
            None => r is None,
        },
        r matches Some(j) ==> j < facts@.len() && facts@[j as int].changed_pixels > 0 && ns < facts@[j as int].host_monotonic_ns <= deadline,
        first_response(facts@, cursor@, ns, deadline, 0) matches Some(j) ==> 0 <= j < facts@.len(),
{
    proof {
        lemma_first_response_bound(facts@, cursor@, ns, deadline, 0);
    }
    let mut k: usize = 0;
    while k < facts.len()
        invariant
            k <= facts@.len(),
            cursor@.len() == facts@.len(),
            first_response(facts@, cursor@, ns, deadline, 0) == first_response(facts@, cursor@, ns, deadline, k as int),
        decreases facts@.len() - k,
    {
        if facts[k].changed_pixels > 0 && cursor[k].is_none() && ns < facts[k].host_monotonic_ns && facts[k].host_monotonic_ns <= deadline {
            return Some(k);
        }
        k = k + 1;
    }
    None
}

/// The cursor-only changes: each fact that repaints the pointer, at its time, supported
/// by the pointer move and the update.
pub open spec fn cursor_observations(ev: Seq<EventRecord>, facts: Seq<DisplayUpdateFact>, cursor: Seq<Option<usize>>) -> Seq<ObservationView>
    decreases facts.len(),
{
    if facts.len() == 0 || cursor.len() < facts.len() {
        seq![]
    } else {
        let k = facts.len() - 1;
        let f = facts[k];
        cursor_observations(ev, facts.drop_last(), cursor) + match cursor[k] {
            Some(p) => seq![ObservationView {
                kind: ObservationKind::CursorOnlyChange,
                start_ns: f.host_monotonic_ns,
                end_ns: f.host_monotonic_ns,
                supporting_event_ids: seq![ev[p as int].id@, f.event_id@],
                detail: DetailView::CursorOnly {
                    changed_pixels: f.changed_pixels,
                    changed_bounds: f.changed_bounds,
                    pointer_x: ev[p as int].facts.pointer_x->0,
                    pointer_y: ev[p as int].facts.pointer_y->0,
                },
            }],
            None => seq![],
        }
    }
}

/// Reports every display update that only repainted the pointer.
pub fn derive_cursor_only_changes(events: &[EventRecord], facts: &[DisplayUpdateFact], cursor: &[Option<usize>]) -> (r: Vec<TemporalObservation>)
    requires
        cursor@.len() == facts@.len(),
        forall|k: int| 0 <= k < cursor@.len() ==> (#[trigger] cursor@[k] matches Some(p) ==> p < events@.len()),
        forall|k: int| 0 <= k < cursor@.len() ==> (#[trigger] cursor@[k] matches Some(p) ==> events@[p as int].facts.pointer_x is Some && events@[p as int].facts.pointer_y is Some),
    ensures
        observation_views(r@) == cursor_observations(events@, facts@, cursor@),
{
    let mut out: Vec<TemporalObservation> = Vec::new();
    let mut k: usize = 0;
    assert(observation_views(out@) =~= cursor_observations(events@, facts@.take(0), cursor@));
    while k < facts.len()
        invariant
            k <= facts@.len(),
            cursor@.len() == facts@.len(),
            forall|j: int| 0 <= j < cursor@.len() ==> (#[trigger] cursor@[j] matches Some(p) ==> p < events@.len()),
            forall|j: int| 0 <= j < cursor@.len() ==> (#[trigger] cursor@[j] matches Some(p) ==> events@[p as int].facts.pointer_x is Some && events@[p as int].facts.pointer_y is Some),
            observation_views(out@) == cursor_observations(events@, facts@.take(k as int), cursor@),
        decreases facts@.len() - k,
    {
        let ghost before = observation_views(out@);
        proof {
            assert(facts@.take(k + 1).drop_last() =~= facts@.take(k as int));
        }
        match cursor[k] {
            Some(p) => {
                assert(cursor@[k as int] matches Some(q) && q == p);
                let f = &facts[k];
                let pe = &events[p];
                let (x, y) = match (pe.facts.pointer_x, pe.facts.pointer_y) {
                    (Some(x), Some(y)) => (x, y),
                    _ => (0, 0),
                };
                push_observation(
                    &mut out,
                    TemporalObservation {
                        kind: ObservationKind::CursorOnlyChange,
                        start_ns: f.host_monotonic_ns,
                        end_ns: f.host_monotonic_ns,
                        supporting_event_ids: two_ids(&pe.id, &f.event_id),
                        detail: ObservationDetail::CursorOnly {
                            changed_pixels: f.changed_pixels,
                            changed_bounds: f.changed_bounds,
                            pointer_x: x,
                            pointer_y: y,
                        },
                    },
                );
                assert(observation_views(out@) =~= cursor_observations(events@, facts@.take(k + 1), cursor@));
            },
            None => {
                assert(observation_views(out@) =~= cursor_observations(events@, facts@.take(k + 1), cursor@));
            },
        }
        k = k + 1;
    }
    assert(facts@.take(k as int) =~= facts@);
    out
}

/// An input event recorded within `start..=end`.
pub open spec fn is_input_between(e: EventRecord, start: u64, end: u64) -> bool {
    e.source@ == "input"@ && start <= e.host_monotonic_ns <= end
}

/// What one input event shows: the first display update that changed pixels within the
/// response window and is no repaint of the pointer, with its latency and whether it was delayed; else, when the window
/// ended by `end`, the absence of any response.
pub open spec fn response_observations(e: EventRecord, facts: Seq<DisplayUpdateFact>, cursor: Seq<Option<usize>>, end: u64, s: TemporalSettings) -> Seq<ObservationView> {
    let deadline = sat_add(e.host_monotonic_ns, ms_to_ns(s.response_window_ms));
    match first_response(facts, cursor, e.host_monotonic_ns, deadline, 0) {
        Some(k) => seq![ObservationView {
            kind: ObservationKind::VisualResponse,
            start_ns: e.host_monotonic_ns,
            end_ns: facts[k].host_monotonic_ns,
            supporting_event_ids: seq![e.id@, facts[k].event_id@],
            detail: DetailView::VisualResponse {
                action_kind: e.kind@,
                latency_ns: (facts[k].host_monotonic_ns - e.host_monotonic_ns) as u64,
                delayed: facts[k].host_monotonic_ns - e.host_monotonic_ns >= s.delayed_response_ms * 1_000_000,
                changed_bounds: facts[k].changed_bounds,
            },
        }],
        None => if end >= deadline {
            seq![ObservationView {
                kind: if e.kind@ == "pointer.move"@ {
                    ObservationKind::PointerMoveWithoutDisplayResponse
                } else {
                    ObservationKind::NoDisplayResponse
                },
                start_ns: e.host_monotonic_ns,
                end_ns: deadline,
                supporting_event_ids: seq![e.id@],
                detail: DetailView::NoResponse { action_kind: e.kind@, waited_ms: s.response_window_ms },
            }]
        } else {
            seq![]
        },
    }
}

/// The responses to every input event of `ord`, in order.
pub open spec fn action_responses_spec(
    ev: Seq<EventRecord>,
    ord: Seq<usize>,
    facts: Seq<DisplayUpdateFact>,
    cursor: Seq<Option<usize>>,
    start: u64,
    end: u64,
    s: TemporalSettings,
) -> Seq<ObservationView>
    decreases ord.len(),
{
    if ord.len() == 0 {
        seq![]
    } else {
        action_responses_spec(ev, ord.drop_last(), facts, cursor, start, end, s) + if is_input_between(ev[ord.last() as int], start, end) {
            response_observations(ev[ord.last() as int], facts, cursor, end, s)
        } else {
            seq![]
        }
    }
}

pub(crate) fn push_observation(out: &mut Vec<TemporalObservation>, o: TemporalObservation)
    ensures
        observation_views(final(out)@) == observation_views(old(out)@).push(o@),
{
    let ghost before = observation_views(out@);
    let ghost ov = o@;
    out.push(o);
    assert(observation_views(out@) =~= before.push(ov));
}

fn two_ids(a: &String, b: &String) -> (r: Vec<String>)
    ensures
        views(r@) == seq![a@, b@],
{
    let v = vec![a.clone(), b.clone()];
    assert(views(v@) =~= seq![a@, b@]);
    v
}

pub(crate) fn one_id(a: &String) -> (r: Vec<String>)
    ensures
        views(r@) == seq![a@],
{
    let v = vec![a.clone()];
    assert(views(v@) =~= seq![a@]);
    v
}

/// Observes the visual response, or its absence, after each input event recorded
/// within `start..=end`, in timeline order.
pub fn derive_action_responses(
    events: &[EventRecord],
    ordered: &Vec<usize>,
    facts: &[DisplayUpdateFact],
    cursor: &[Option<usize>],
    start: u64,
    end: u64,
    settings: &TemporalSettings,
) -> (r: Vec<TemporalObservation>)
    requires
        forall|k: int| 0 <= k < ordered@.len() ==> #[trigger] ordered@[k] < events@.len(),
        cursor@.len() == facts@.len(),
    ensures
        observation_views(r@) == action_responses_spec(events@, ordered@, facts@, cursor@, start, end, *settings),
{
    let window = ms_to_ns_exec(settings.response_window_ms);
    let nf = facts.len();
    let mut out: Vec<TemporalObservation> = Vec::new();
    let mut k: usize = 0;
    assert(observation_views(out@) =~= action_responses_spec(events@, ordered@.take(0), facts@, cursor@, start, end, *settings));
    while k < ordered.len()
        invariant
            k <= ordered@.len(),
            window == ms_to_ns(settings.response_window_ms),
            nf == facts@.len(),
            cursor@.len() == facts@.len(),
            forall|j: int| 0 <= j < ordered@.len() ==> #[trigger] ordered@[j] < events@.len(),
            observation_views(out@) == action_responses_spec(events@, ordered@.take(k as int), facts@, cursor@, start, end, *settings),
        decreases ordered@.len() - k,
    {
        let e = &events[ordered[k]];
        let ghost before = observation_views(out@);
        proof {
            assert(ordered@.take(k + 1).drop_last() =~= ordered@.take(k as int));
            assert(ordered@.take(k + 1).last() == ordered@[k as int]);
        }
        if str_equal(e.source.as_str(), "input") && start <= e.host_monotonic_ns && e.host_monotonic_ns <= end {
            let ns = e.host_monotonic_ns;
            let deadline = sat_add_exec(ns, window);
            let found = find_response(facts, cursor, ns, deadline);
            match found {
                Some(j) => {
                    assert(first_response(facts@, cursor@, ns, deadline, 0) == Some(j as int));
                    let f = &facts[j];
                    let latency = f.host_monotonic_ns - ns;
                    let delayed = (latency as u128) >= (settings.delayed_response_ms as u128) * 1_000_000;
                    push_observation(
                        &mut out,
                        TemporalObservation {
                            kind: ObservationKind::VisualResponse,
                            start_ns: ns,
                            end_ns: f.host_monotonic_ns,
                            supporting_event_ids: two_ids(&e.id, &f.event_id),
                            detail: ObservationDetail::VisualResponse {
                                action_kind: e.kind.clone(),
                                latency_ns: latency,
                                delayed,
                                changed_bounds: f.changed_bounds,
                            },
                        },
                    );
                },
                None => {
                    assert(first_response(facts@, cursor@, ns, deadline, 0) is None);
                    if end >= deadline {
                        let kind = if str_equal(e.kind.as_str(), "pointer.move") {
                            ObservationKind::PointerMoveWithoutDisplayResponse
                        } else {
                            ObservationKind::NoDisplayResponse
                        };
                        push_observation(
                            &mut out,
                            TemporalObservation {
                                kind,
                                start_ns: ns,
                                end_ns: deadline,
                                supporting_event_ids: one_id(&e.id),
                                detail: ObservationDetail::NoResponse {
                                    action_kind: e.kind.clone(),
                                    waited_ms: settings.response_window_ms,
                                },
                            },
                        );
                    }
                },
            }
            assert(deadline == sat_add(events@[ordered@[k as int] as int].host_monotonic_ns, ms_to_ns(settings.response_window_ms)));
            assert(observation_views(out@) =~= before + response_observations(events@[ordered@[k as int] as int], facts@, cursor@, end, *settings));
        } else {
            assert(observation_views(out@) =~= before + Seq::<ObservationView>::empty());
        }
        k = k + 1;
    }
    assert(ordered@.take(k as int) =~= ordered@);
    out
}

/// The smaller of two integers.
pub open spec fn min_int(a: int, b: int) -> int {
    if a <= b {
        a
    } else {
        b
    }
}

/// The larger of two integers.
pub open spec fn max_int(a: int, b: int) -> int {
    if a >= b {
        a
    } else {
        b
    }
}

/// A rectangle whose edges fit 32 bits.
pub open spec fn fits(b: PixelBounds) -> bool {
    b.x + b.width <= u32::MAX && b.y + b.height <= u32::MAX
}

/// The smallest rectangle holding both.
pub open spec fn union_spec(a: PixelBounds, b: PixelBounds) -> PixelBounds {
    let left = min_int(a.x as int, b.x as int);
    let top = min_int(a.y as int, b.y as int);
    let right = max_int(a.x + a.width, b.x + b.width);
    let bottom = max_int(a.y + a.height, b.y + b.height);
    PixelBounds { x: left as u32, y: top as u32, width: (right - left) as u32, height: (bottom - top) as u32 }
}

/// Whether the overlap of two rectangles is at least half of their union: the
/// intersection over union is at least one half.
pub open spec fn iou_at_least_half(a: PixelBounds, b: PixelBounds) -> bool {
    let left = max_int(a.x as int, b.x as int);
    let top = max_int(a.y as int, b.y as int);
    let right = min_int(a.x + a.width, b.x + b.width);
    let bottom = min_int(a.y + a.height, b.y + b.height);
    if right <= left || bottom <= top {
        false
    } else {
        let intersection = (right - left) * (bottom - top);
        2 * intersection >= a.width * a.height + b.width * b.height - intersection
    }
}

/// The smallest rectangle holding both.
pub fn union_bounds(a: PixelBounds, b: PixelBounds) -> (r: PixelBounds)
    requires
        fits(a),
        fits(b),
    ensures
        r == union_spec(a, b),
        fits(r),
{
    let left = if a.x <= b.x { a.x } else { b.x };
    let top = if a.y <= b.y { a.y } else { b.y };
    let right = if a.x + a.width >= b.x + b.width { a.x + a.width } else { b.x + b.width };
    let bottom = if a.y + a.height >= b.y + b.height { a.y + a.height } else { b.y + b.height };
    PixelBounds { x: left, y: top, width: right - left, height: bottom - top }
}

/// Whether the intersection over union of two rectangles is at least one half.
pub fn overlaps_by_half(a: PixelBounds, b: PixelBounds) -> (r: bool)
    requires
        fits(a),
        fits(b),
    ensures
        r == iou_at_least_half(a, b),
{
    let left = if a.x >= b.x { a.x } else { b.x };
    let top = if a.y >= b.y { a.y } else { b.y };
    let right = if a.x + a.width <= b.x + b.width { a.x + a.width } else { b.x + b.width };
    let bottom = if a.y + a.height <= b.y + b.height { a.y + a.height } else { b.y + b.height };
    if right <= left || bottom <= top {
        return false;
    }
    let iw = (right - left) as u128;
    let ih = (bottom - top) as u128;
    proof {
        assert(iw * ih <= 0xffff_ffffu128 * 0xffff_ffffu128) by (nonlinear_arith)
            requires
                iw <= 0xffff_ffff,
                ih <= 0xffff_ffff,
        ;
        assert((a.width as u128) * (a.height as u128) <= 0xffff_ffffu128 * 0xffff_ffffu128) by (nonlinear_arith);
        assert((b.width as u128) * (b.height as u128) <= 0xffff_ffffu128 * 0xffff_ffffu128) by (nonlinear_arith);
    }
    let intersection = iw * ih;
    let areas = (a.width as u128) * (a.height as u128) + (b.width as u128) * (b.height as u128);
    2 * intersection + intersection >= areas
}

/// Where a run of updates that begins before position `end` ends: each next update
/// comes within `window` of the previous one and overlaps the run's region by half,
/// which then grows to hold it. Also the run's region.
pub open spec fn run_end(facts: Seq<DisplayUpdateFact>, end: int, region: PixelBounds, window: u64) -> (int, PixelBounds)
    decreases facts.len() - end,
{
    if 0 < end < facts.len() && facts[end].host_monotonic_ns - facts[end - 1].host_monotonic_ns <= window
        && iou_at_least_half(region, facts[end].announced_rect) {
        run_end(facts, end + 1, union_spec(region, facts[end].announced_rect), window)
    } else {
        (end, region)
    }
}

pub proof fn lemma_run_end_after(facts: Seq<DisplayUpdateFact>, end: int, region: PixelBounds, window: u64)
    ensures
        run_end(facts, end, region, window).0 >= end,
        0 < end <= facts.len() ==> run_end(facts, end, region, window).0 <= facts.len(),
    decreases facts.len() - end,
{
    if 0 < end < facts.len() && facts[end].host_monotonic_ns - facts[end - 1].host_monotonic_ns <= window
        && iou_at_least_half(region, facts[end].announced_rect) {
        lemma_run_end_after(facts, end + 1, union_spec(region, facts[end].announced_rect), window);
    }
}

/// The identifiers of the updates at positions `lo..hi`.
pub open spec fn fact_ids(facts: Seq<DisplayUpdateFact>, lo: int, hi: int) -> Seq<Seq<char>> {
    facts.subrange(lo, hi).map_values(|f: DisplayUpdateFact| f.event_id@)
}

/// The repeated-region observations of the runs that begin at position `index` and
/// after: each run of at least the minimum number of updates is observed.
pub open spec fn repeated_from(facts: Seq<DisplayUpdateFact>, index: int, s: TemporalSettings) -> Seq<ObservationView>
    decreases facts.len() - index,
{
    if index < 0 || index >= facts.len() {
        seq![]
    } else {
        let window = ms_to_ns(s.repeated_region_window_ms);
        let run = run_end(facts, index + 1, facts[index].announced_rect, window);
        proof {
            lemma_run_end_after(facts, index + 1, facts[index].announced_rect, window);
        }
        (if run.0 - index >= s.repeated_region_min_updates {
            seq![ObservationView {
                kind: ObservationKind::RegionUpdatedRepeatedly,
                start_ns: facts[index].host_monotonic_ns,
                end_ns: facts[run.0 - 1].host_monotonic_ns,
                supporting_event_ids: fact_ids(facts, index, run.0),
                detail: DetailView::RegionRepeated {
                    update_count: (run.0 - index) as nat,
                    region: run.1,
                    maximum_inter_update_ms: s.repeated_region_window_ms,
                },
            }]
        } else {
            seq![]
        }) + repeated_from(facts, run.0, s)
    }
}

/// Updates in the order of host time, with rectangles whose edges fit 32 bits.
pub open spec fn facts_ordered(facts: Seq<DisplayUpdateFact>) -> bool {
    &&& forall|i: int, j: int| 0 <= i <= j < facts.len() ==> (#[trigger] facts[i]).host_monotonic_ns <= (#[trigger] facts[j]).host_monotonic_ns
    &&& forall|i: int| 0 <= i < facts.len() ==> fits(#[trigger] facts[i].announced_rect)
}

/// Observes each run of at least the minimum number of updates to one region, each
/// within the window of the one before.
pub fn derive_repeated_regions(facts: &[DisplayUpdateFact], settings: &TemporalSettings) -> (r: Vec<TemporalObservation>)
    requires
        facts_ordered(facts@),
    ensures
        observation_views(r@) == repeated_from(facts@, 0, *settings),
{
    let window = ms_to_ns_exec(settings.repeated_region_window_ms);
    let n = facts.len();
    let mut out: Vec<TemporalObservation> = Vec::new();
    let mut index: usize = 0;
    assert(observation_views(out@) + repeated_from(facts@, 0, *settings) =~= repeated_from(facts@, 0, *settings));
    while index < n
        invariant
            n == facts@.len(),
            index <= n,
            window == ms_to_ns(settings.repeated_region_window_ms),
            facts_ordered(facts@),
            observation_views(out@) + repeated_from(facts@, index as int, *settings) == repeated_from(facts@, 0, *settings),
        decreases n - index,
    {
        let mut end: usize = index + 1;
        let mut region = facts[index].announced_rect;
        proof {
            lemma_run_end_after(facts@, index + 1, facts@[index as int].announced_rect, window);
        }
        while end < n && facts[end].host_monotonic_ns - facts[end - 1].host_monotonic_ns <= window
            && overlaps_by_half(region, facts[end].announced_rect)
            invariant
                n == facts@.len(),
                index < end <= n,
                facts_ordered(facts@),
                fits(region),
                run_end(facts@, end as int, region, window) == run_end(facts@, index + 1, facts@[index as int].announced_rect, window),
            decreases n - end,
        {
            region = union_bounds(region, facts[end].announced_rect);
            end = end + 1;
        }
        let ghost before = observation_views(out@);
        if end - index >= settings.repeated_region_min_updates {
            let mut ids: Vec<String> = Vec::new();
            let mut k: usize = index;
            assert(views(ids@) =~= fact_ids(facts@, index as int, index as int));
            while k < end
                invariant
                    index <= k <= end <= n,
                    n == facts@.len(),
                    views(ids@) == fact_ids(facts@, index as int, k as int),
                decreases end - k,
            {
                let ghost prior = views(ids@);
                ids.push(facts[k].event_id.clone());
                assert(views(ids@) =~= prior.push(facts@[k as int].event_id@));
                assert(fact_ids(facts@, index as int, k + 1) =~= fact_ids(facts@, index as int, k as int).push(facts@[k as int].event_id@));
                k = k + 1;
            }
            push_observation(
                &mut out,
                TemporalObservation {
                    kind: ObservationKind::RegionUpdatedRepeatedly,
                    start_ns: facts[index].host_monotonic_ns,
                    end_ns: facts[end - 1].host_monotonic_ns,
                    supporting_event_ids: ids,
                    detail: ObservationDetail::RegionRepeated {
                        update_count: end - index,
                        region,
                        maximum_inter_update_ms: settings.repeated_region_window_ms,
                    },
                },
            );
        }
        proof {
            assert(repeated_from(facts@, index as int, *settings) == (if end - index >= settings.repeated_region_min_updates {
                seq![observation_views(out@).last()]
            } else {
                Seq::<ObservationView>::empty()
            }) + repeated_from(facts@, end as int, *settings));
            if end - index >= settings.repeated_region_min_updates {
                assert(observation_views(out@) =~= before.push(observation_views(out@).last()));
            }
            assert(observation_views(out@) + repeated_from(facts@, end as int, *settings) =~= before + repeated_from(facts@, index as int, *settings));
        }
        index = end;
    }
    assert(observation_views(out@) + repeated_from(facts@, index as int, *settings) =~= observation_views(out@));
    out
}

/// Frame states in the order of host time.
pub open spec fn states_ordered(states: Seq<FrameState>) -> bool {
    forall|i: int, j: int| 0 <= i <= j < states.len() ==> (#[trigger] states[i]).timestamp <= (#[trigger] states[j]).timestamp
}

/// Whether three consecutive frames show an A-B-A reversion restored within
/// `start..=end` and within the flicker window of the first.
pub open spec fn reverted(b: FrameState, t: FrameState, r: FrameState, start: u64, end: u64, s: TemporalSettings) -> bool {
    &&& start <= r.timestamp <= end
    &&& b.hash@ == r.hash@
    &&& b.hash@ != t.hash@
    &&& r.timestamp - b.timestamp <= ms_to_ns(s.flicker_window_ms)
}

/// The reversion observed over three consecutive frames, if any.
pub open spec fn reversion_at(b: FrameState, t: FrameState, r: FrameState, start: u64, end: u64, s: TemporalSettings) -> Seq<ObservationView> {
    if reverted(b, t, r, start, end, s) {
        seq![ObservationView {
            kind: ObservationKind::StateReverted,
            start_ns: b.timestamp,
            end_ns: r.timestamp,
            supporting_event_ids: seq![b.event_id@, t.event_id@, r.event_id@],
            detail: DetailView::StateReverted {
                transient_duration_ns: (r.timestamp - t.timestamp) as u64,
                restored_frame_sha256: r.hash@,
                transient_frame_sha256: t.hash@,
            },
        }]
    } else {
        seq![]
    }
}

/// The reversions over every three consecutive frames, in order.
pub open spec fn reversions_spec(states: Seq<FrameState>, start: u64, end: u64, s: TemporalSettings) -> Seq<ObservationView>
    decreases states.len(),
{
    if states.len() < 3 {
        seq![]
    } else {
        reversions_spec(states.drop_last(), start, end, s) + reversion_at(
            states[states.len() - 3],
            states[states.len() - 2],
            states[states.len() - 1],
            start,
            end,
            s,
        )
    }
}

/// Observes every A-B-A reversion of the frame: a frame restored, within the flicker
/// window, to the frame before the one in between.
pub fn derive_state_reversions(states: &[FrameState], start: u64, end: u64, settings: &TemporalSettings) -> (r: Vec<TemporalObservation>)
    requires
        states_ordered(states@),
    ensures
        observation_views(r@) == reversions_spec(states@, start, end, *settings),
{
    let window = ms_to_ns_exec(settings.flicker_window_ms);
    let n = states.len();
    let mut out: Vec<TemporalObservation> = Vec::new();
    let mut k: usize = 2;
    assert(observation_views(out@) =~= reversions_spec(states@.take(0), start, end, *settings));
    if n < 3 {
        assert(reversions_spec(states@, start, end, *settings) =~= Seq::<ObservationView>::empty());
        return out;
    }
    assert(reversions_spec(states@.take(2), start, end, *settings) =~= Seq::<ObservationView>::empty());
    while k < n
        invariant
            n == states@.len(),
            2 <= k <= n,
            window == ms_to_ns(settings.flicker_window_ms),
            states_ordered(states@),
            observation_views(out@) == reversions_spec(states@.take(k as int), start, end, *settings),
        decreases n - k,
    {
        let b = &states[k - 2];
        let t = &states[k - 1];
        let r = &states[k];
        let ghost before = observation_views(out@);
        proof {
            assert(states@.take(k + 1).drop_last() =~= states@.take(k as int));
        }
        if start <= r.timestamp && r.timestamp <= end && str_equal(b.hash.as_str(), r.hash.as_str())
            && !str_equal(b.hash.as_str(), t.hash.as_str()) && r.timestamp - b.timestamp <= window {
            let ids = vec![b.event_id.clone(), t.event_id.clone(), r.event_id.clone()];
            assert(views(ids@) =~= seq![b.event_id@, t.event_id@, r.event_id@]);
            push_observation(
                &mut out,
                TemporalObservation {
                    kind: ObservationKind::StateReverted,
                    start_ns: b.timestamp,
                    end_ns: r.timestamp,
                    supporting_event_ids: ids,
                    detail: ObservationDetail::StateReverted {
                        transient_duration_ns: r.timestamp - t.timestamp,
                        restored_frame_sha256: r.hash.clone(),
                        transient_frame_sha256: t.hash.clone(),
                    },
                },
            );
        }
        assert(observation_views(out@) =~= before + reversion_at(
            states@[k - 2],
            states@[k - 1],
            states@[k as int],
            start,
            end,
            *settings,
        ));
        k = k + 1;
    }
    assert(states@.take(k as int) =~= states@);
    out
}

/// An input event.
pub open spec fn input_probe(ev: Seq<EventRecord>) -> spec_fn(usize) -> bool {
    |i: usize| ev[i as int].source@ == "input"@
}

/// A pointer release.
pub open spec fn release_probe(ev: Seq<EventRecord>) -> spec_fn(usize) -> bool {
    |i: usize| ev[i as int].kind@ == "pointer.up"@
}

/// Whether a frame was recorded strictly between `lo` and `hi`.
pub open spec fn held_between(lo: u64, hi: u64) -> spec_fn(FrameState) -> bool {
    |f: FrameState| lo < f.timestamp < hi
}

/// The hashes of frames.
pub open spec fn frame_hashes(fs: Seq<FrameState>) -> Seq<Seq<char>> {
    fs.map_values(|f: FrameState| f.hash@)
}

/// The identifiers of frames.
pub open spec fn frame_ids(fs: Seq<FrameState>) -> Seq<Seq<char>> {
    fs.map_values(|f: FrameState| f.event_id@)
}

/// What the `k`-th input event shows when it presses the pointer within `start..=end`:
/// with the next release among the inputs, the frames recorded while the pointer was
/// held, when they hold at least two distinct frames.
pub open spec fn hold_observation(
    ev: Seq<EventRecord>,
    inputs: Seq<usize>,
    k: int,
    states: Seq<FrameState>,
    start: u64,
    end: u64,
) -> Seq<ObservationView> {
    let d = ev[inputs[k] as int];
    if d.kind@ == "pointer.down"@ && start <= d.host_monotonic_ns <= end {
        match first_in(inputs.skip(k + 1), release_probe(ev)) {
            None => seq![],
            Some(u) => {
                let up = ev[u as int];
                let held = states.filter(held_between(d.host_monotonic_ns, up.host_monotonic_ns));
                let distinct = frame_hashes(held).to_set().len();
                if distinct >= 2 {
                    seq![ObservationView {
                        kind: ObservationKind::MultipleVisualStatesWhilePointerDown,
                        start_ns: d.host_monotonic_ns,
                        end_ns: up.host_monotonic_ns,
                        supporting_event_ids: seq![d.id@] + frame_ids(held) + seq![up.id@],
                        detail: DetailView::MultipleStates { distinct_frame_count: distinct, display_event_count: held.len() },
                    }]
                } else {
                    seq![]
                }
            },
        }
    } else {
        seq![]
    }
}

/// The hold observations of the inputs from the `k`-th on.
pub open spec fn holds_from(ev: Seq<EventRecord>, inputs: Seq<usize>, k: int, states: Seq<FrameState>, start: u64, end: u64) -> Seq<ObservationView>
    decreases inputs.len() - k,
{
    if k < 0 || k >= inputs.len() {
        seq![]
    } else {
        hold_observation(ev, inputs, k, states, start, end) + holds_from(ev, inputs, k + 1, states, start, end)
    }
}

fn first_release_after(events: &[EventRecord], inputs: &Vec<usize>, from: usize) -> (r: Option<usize>)
    requires
        from <= inputs@.len(),
        forall|j: int| 0 <= j < inputs@.len() ==> #[trigger] inputs@[j] < events@.len(),
    ensures
        r == first_in(inputs@.skip(from as int), release_probe(events@)),
{
    let mut j: usize = from;
    while j < inputs.len()
        invariant
            from <= j <= inputs@.len(),
            forall|q: int| 0 <= q < inputs@.len() ==> #[trigger] inputs@[q] < events@.len(),
            first_in(inputs@.skip(from as int), release_probe(events@)) == first_in(inputs@.skip(j as int), release_probe(events@)),
        decreases inputs@.len() - j,
    {
        let i = inputs[j];
        assert(inputs@.skip(j as int)[0] == i);
        assert(inputs@.skip(j as int).drop_first() =~= inputs@.skip(j + 1));
        if str_equal(events[i].kind.as_str(), "pointer.up") {
            return Some(i);
        }
        j = j + 1;
    }
    assert(inputs@.skip(j as int) =~= Seq::<usize>::empty());
    None
}

proof fn lemma_set_len(v: Seq<String>)
    requires
        is_set(v),
    ensures
        set_of(v).len() == v.len(),
{
    let vs = views(v);
    assert forall|a: int, b: int| 0 <= a < vs.len() && 0 <= b < vs.len() && a != b implies vs[a] != vs[b] by {
        if a < b {
            assert(str_lt(vs[a], vs[b]));
        } else {
            assert(str_lt(vs[b], vs[a]));
        }
        lemma_lt_irreflexive(vs[a]);
    }
    vs.unique_seq_to_set();
}

/// The frames held between two host times: their identifiers, the set of their hashes,
/// and how many there are.
fn frames_between(states: &[FrameState], lo: u64, hi: u64) -> (r: (Vec<String>, Vec<String>, usize))
    ensures
        views(r.0@) == frame_ids(states@.filter(held_between(lo, hi))),
        is_set(r.1@),
        set_of(r.1@) == frame_hashes(states@.filter(held_between(lo, hi))).to_set(),
        r.2 == states@.filter(held_between(lo, hi)).len(),
{
    let ghost p = held_between(lo, hi);
    let mut ids: Vec<String> = Vec::new();
    let mut hashes: Vec<String> = Vec::new();
    let mut count: usize = 0;
    let mut j: usize = 0;
    proof {
        reveal(Seq::filter);
        assert(states@.take(0) =~= Seq::<FrameState>::empty());
        assert(set_of(hashes@) =~= Set::<Seq<char>>::empty());
        assert(frame_hashes(states@.take(0).filter(p)).to_set() =~= Set::<Seq<char>>::empty());
        assert(views(ids@) =~= frame_ids(states@.take(0).filter(p)));
    }
    while j < states.len()
        invariant
            j <= states@.len(),
            p == held_between(lo, hi),
            views(ids@) == frame_ids(states@.take(j as int).filter(p)),
            is_set(hashes@),
            set_of(hashes@) == frame_hashes(states@.take(j as int).filter(p)).to_set(),
            count == states@.take(j as int).filter(p).len(),
            count <= j,
        decreases states@.len() - j,
    {
        let f = &states[j];
        let ghost prefix = states@.take(j as int);
        proof {
            assert(states@.take(j + 1) =~= prefix.push(*f));
            prefix.lemma_filter_push(*f, p);
        }
        if lo < f.timestamp && f.timestamp < hi {
            let ghost before_ids = views(ids@);
            ids.push(f.event_id.clone());
            assert(views(ids@) =~= before_ids.push(f.event_id@));
            assert(frame_ids(prefix.filter(p).push(*f)) =~= frame_ids(prefix.filter(p)).push(f.event_id@));
            let ghost before_hashes = set_of(hashes@);
            set_insert(&mut hashes, f.hash.clone());
            assert(frame_hashes(prefix.filter(p).push(*f)) =~= frame_hashes(prefix.filter(p)).push(f.hash@));
            proof {
                frame_hashes(prefix.filter(p)).lemma_push_to_set_commute(f.hash@);
            }
            count = count + 1;
        }
        j = j + 1;
    }
    assert(states@.take(j as int) =~= states@);
    (ids, hashes, count)
}

/// Observes, for each press of the pointer within `start..=end`, the distinct frames
/// shown until the next release, when there were at least two.
pub fn derive_multiple_states(
    events: &[EventRecord],
    ordered: &Vec<usize>,
    states: &[FrameState],
    start: u64,
    end: u64,
) -> (r: Vec<TemporalObservation>)
    requires
        forall|k: int| 0 <= k < ordered@.len() ==> #[trigger] ordered@[k] < events@.len(),
    ensures
        observation_views(r@) == holds_from(events@, ordered@.filter(input_probe(events@)), 0, states@, start, end),
{
    let ghost ev = events@;
    let n = events.len();
    let inputs = crate::timeline_search::all_where(
        ordered,
        |i: usize| -> (b: bool)
            requires i < n, n == ev.len(), ev == events@,
            ensures b == input_probe(ev)(i)
        { str_equal(events[i].source.as_str(), "input") },
        Ghost(input_probe(ev)),
        Ghost(n as nat),
    );
    proof {
        broadcast use vstd::seq_lib::group_filter_ensures;
        assert forall|j: int| 0 <= j < inputs@.len() implies #[trigger] inputs@[j] < events@.len() by {
            assert(ordered@.filter(input_probe(ev)).contains(inputs@[j]));
            ordered@.lemma_filter_contains_rev(input_probe(ev), inputs@[j]);
        }
    }
    let mut out: Vec<TemporalObservation> = Vec::new();
    let mut k: usize = 0;
    assert(observation_views(out@) + holds_from(ev, inputs@, 0, states@, start, end) =~= holds_from(ev, inputs@, 0, states@, start, end));
    while k < inputs.len()
        invariant
            ev == events@,
            k <= inputs@.len(),
            forall|j: int| 0 <= j < inputs@.len() ==> #[trigger] inputs@[j] < events@.len(),
            observation_views(out@) + holds_from(ev, inputs@, k as int, states@, start, end) == holds_from(ev, inputs@, 0, states@, start, end),
        decreases inputs@.len() - k,
    {
        let d = &events[inputs[k]];
        let ghost before = observation_views(out@);
        if str_equal(d.kind.as_str(), "pointer.down") && start <= d.host_monotonic_ns && d.host_monotonic_ns <= end {
            proof {
                crate::timeline_search::lemma_first_in_member(inputs@.skip(k + 1), release_probe(ev));
            }
            match first_release_after(events, &inputs, k + 1) {
                Some(u) => {
                    proof {
                        let rest = inputs@.skip(k + 1);
                        let q = choose|q: int| 0 <= q < rest.len() && #[trigger] rest[q] == u;
                        assert(inputs@[k + 1 + q] == u);
                    }
                    let up = &events[u];
                    let (held_ids, hashes, count) = frames_between(states, d.host_monotonic_ns, up.host_monotonic_ns);
                    proof {
                        lemma_set_len(hashes@);
                    }
                    if hashes.len() >= 2 {
                        let mut ids: Vec<String> = Vec::new();
                        ids.push(d.id.clone());
                        let mut j: usize = 0;
                        assert(views(ids@) =~= seq![d.id@] + views(held_ids@).take(0));
                        while j < held_ids.len()
                            invariant
                                j <= held_ids@.len(),
                                views(ids@) == seq![d.id@] + views(held_ids@).take(j as int),
                            decreases held_ids@.len() - j,
                        {
                            let ghost prior = views(ids@);
                            ids.push(held_ids[j].clone());
                            assert(views(ids@) =~= prior.push(held_ids@[j as int]@));
                            assert(views(held_ids@).take(j + 1) =~= views(held_ids@).take(j as int).push(held_ids@[j as int]@));
                            j = j + 1;
                        }
                        let ghost middle = views(ids@);
                        ids.push(up.id.clone());
                        assert(views(ids@) =~= middle.push(up.id@));
                        assert(views(held_ids@).take(j as int) =~= views(held_ids@));
                        assert(views(ids@) =~= seq![d.id@] + views(held_ids@) + seq![up.id@]);
                        push_observation(
                            &mut out,
                            TemporalObservation {
                                kind: ObservationKind::MultipleVisualStatesWhilePointerDown,
                                start_ns: d.host_monotonic_ns,
                                end_ns: up.host_monotonic_ns,
                                supporting_event_ids: ids,
                                detail: ObservationDetail::MultipleStates { distinct_frame_count: hashes.len(), display_event_count: count },
                            },
                        );
                    }
                },
                None => {},
            }
        }
        assert(observation_views(out@) =~= before + hold_observation(ev, inputs@, k as int, states@, start, end));
        assert(observation_views(out@) + holds_from(ev, inputs@, k + 1, states@, start, end) =~= before + holds_from(ev, inputs@, k as int, states@, start, end));
        k = k + 1;
    }
    assert(observation_views(out@) + holds_from(ev, inputs@, k as int, states@, start, end) =~= observation_views(out@));
    out
}

/// What a network reply shows: the first display update that changed pixels within the
/// response window after it and is no repaint of the pointer.
pub open spec fn network_observations(e: EventRecord, facts: Seq<DisplayUpdateFact>, cursor: Seq<Option<usize>>, s: TemporalSettings) -> Seq<ObservationView> {
    let deadline = sat_add(e.host_monotonic_ns, ms_to_ns(s.response_window_ms));
    match first_response(facts, cursor, e.host_monotonic_ns, deadline, 0) {
        Some(k) => seq![ObservationView {
            kind: ObservationKind::VisualResponseAfterNetworkResponse,
            start_ns: e.host_monotonic_ns,
            end_ns: facts[k].host_monotonic_ns,
            supporting_event_ids: seq![e.id@, facts[k].event_id@],
            detail: DetailView::NetworkOrdered {
                latency_ns: (facts[k].host_monotonic_ns - e.host_monotonic_ns) as u64,
                network_status: crate::temporal::text_of(e.facts.status_json),
                changed_bounds: facts[k].changed_bounds,
            },
        }],
        None => seq![],
    }
}

/// The display responses to every network reply of `ord` recorded from `start` on.
pub open spec fn network_spec(ev: Seq<EventRecord>, ord: Seq<usize>, facts: Seq<DisplayUpdateFact>, cursor: Seq<Option<usize>>, start: u64, s: TemporalSettings) -> Seq<ObservationView>
    decreases ord.len(),
{
    if ord.len() == 0 {
        seq![]
    } else {
        network_spec(ev, ord.drop_last(), facts, cursor, start, s) + {
            let e = ev[ord.last() as int];
            if e.host_monotonic_ns >= start && e.kind@ == "browser.network.response"@ {
                network_observations(e, facts, cursor, s)
            } else {
                seq![]
            }
        }
    }
}

/// Observes the display response that follows each network reply recorded from `start`
/// on.
pub fn derive_network_display_order(
    events: &[EventRecord],
    ordered: &Vec<usize>,
    facts: &[DisplayUpdateFact],
    cursor: &[Option<usize>],
    start: u64,
    settings: &TemporalSettings,
) -> (r: Vec<TemporalObservation>)
    requires
        forall|k: int| 0 <= k < ordered@.len() ==> #[trigger] ordered@[k] < events@.len(),
        cursor@.len() == facts@.len(),
    ensures
        observation_views(r@) == network_spec(events@, ordered@, facts@, cursor@, start, *settings),
{
    let window = ms_to_ns_exec(settings.response_window_ms);
    let nf = facts.len();
    let mut out: Vec<TemporalObservation> = Vec::new();
    let mut k: usize = 0;
    assert(observation_views(out@) =~= network_spec(events@, ordered@.take(0), facts@, cursor@, start, *settings));
    while k < ordered.len()
        invariant
            k <= ordered@.len(),
            window == ms_to_ns(settings.response_window_ms),
            nf == facts@.len(),
            cursor@.len() == facts@.len(),
            forall|j: int| 0 <= j < ordered@.len() ==> #[trigger] ordered@[j] < events@.len(),
            observation_views(out@) == network_spec(events@, ordered@.take(k as int), facts@, cursor@, start, *settings),
        decreases ordered@.len() - k,
    {
        let e = &events[ordered[k]];
        let ghost before = observation_views(out@);
        proof {
            assert(ordered@.take(k + 1).drop_last() =~= ordered@.take(k as int));
            assert(ordered@.take(k + 1).last() == ordered@[k as int]);
        }
        if e.host_monotonic_ns >= start && str_equal(e.kind.as_str(), "browser.network.response") {
            let ns = e.host_monotonic_ns;
            let deadline = sat_add_exec(ns, window);
            let found = find_response(facts, cursor, ns, deadline);
            match found {
                Some(j) => {
                    assert(first_response(facts@, cursor@, ns, deadline, 0) == Some(j as int));
                    let f = &facts[j];
                    push_observation(
                        &mut out,
                        TemporalObservation {
                            kind: ObservationKind::VisualResponseAfterNetworkResponse,
                            start_ns: ns,
                            end_ns: f.host_monotonic_ns,
                            supporting_event_ids: two_ids(&e.id, &f.event_id),
                            detail: ObservationDetail::NetworkOrdered {
                                latency_ns: f.host_monotonic_ns - ns,
                                network_status: e.facts.status_json.clone(),
                                changed_bounds: f.changed_bounds,
                            },
                        },
                    );
                },
                None => {},
            }
            assert(observation_views(out@) =~= before + network_observations(events@[ordered@[k as int] as int], facts@, cursor@, *settings));
        } else {
            assert(observation_views(out@) =~= before + Seq::<ObservationView>::empty());
        }
        k = k + 1;
    }
    assert(ordered@.take(k as int) =~= ordered@);
    out
}

} // verus!
