//! A whole temporal analysis: the display events of a timeline replayed in order with
//! the bytes of their framebuffer artifacts, each measured update's own observations,
//! the observations drawn from the replay, all in the order of start, end and kind.
use vstd::prelude::*;
use vstd::relations::sorted_by;
use crate::event::{lemma_timeline_leq_total, positions, timeline, timeline_leq, timeline_order, EventRecord};
use crate::framebuffer::{rows_fit, FrameView, Framebuffer};
use crate::regions::{components_of, Component, PixelBounds};
use crate::strset::{lemma_lt_asymmetric, lemma_lt_irreflexive, str_lt};
use crate::temporal::{
    change_mask, observation_views, DisplayUpdateFact, FrameState, ObservationView, TemporalError, TemporalObservation,
    TemporalSettings,
};
use crate::temporal_analysis::{
    fact_of, finish_spec, update_fits_frame, is_scanout, is_update, large_components, obs_key_eq, obs_key_lt, obs_leq, sort_observations,
    sorted_observations, update_rect, TemporalAnalyzer, lemma_obs_leq_total,
};
use crate::temporal_motion::{best_move, large_region_observations, large_region_spec, motion_observations, motion_spec, regions_inside};
use crate::text::str_equal;

verus! {

broadcast use vstd::string::group_string_axioms;

/// The result of a temporal analysis of `start_ns..=end_ns`.
#[derive(Debug)]
pub struct TemporalAnalysis {
    pub start_ns: u64,
    pub end_ns: u64,
    pub settings: TemporalSettings,
    /// What each measured update changed, in replay order.
    pub display_update_facts: Vec<DisplayUpdateFact>,
    /// The frame after each replayed display event, in replay order.
    pub frames: Vec<FrameState>,
    pub observations: Vec<TemporalObservation>,
}

/// The events that an analysis ending at `end_ns` replays: those recorded no later than
/// the end, in timeline order.
pub open spec fn analysis_order(events: Seq<EventRecord>, end_ns: u64) -> Seq<usize> {
    timeline(events).filter(|i: usize| events[i as int].host_monotonic_ns <= end_ns)
}

/// One measured update: the event, its rectangle, the frame before and after it, its
/// large changed regions, and its fact.
pub type UpdateStep = (EventRecord, PixelBounds, FrameView, FrameView, Seq<Component>, DisplayUpdateFact);

/// A measured update is told by its fact and its regions: the fact measures the change
/// from the frame before to the frame after, and the regions are the connected regions of
/// changed pixels of at least the minimum size.
pub open spec fn step_ok(st: UpdateStep, s: TemporalSettings) -> bool {
    &&& fact_of(st.5, st.0, st.1, st.2, st.3)
    &&& exists|cs: Seq<Component>| components_of(change_mask(st.2, st.3), st.2.width as int, st.2.height as int, cs)
        && st.4 == large_components(cs, s.component_min_pixels)
}

/// The observations of the measured updates, in replay order: for each, its large change
/// and its best translation.
pub open spec fn update_observations_spec(steps: Seq<UpdateStep>, s: TemporalSettings) -> Seq<ObservationView>
    decreases steps.len(),
{
    if steps.len() == 0 {
        seq![]
    } else {
        let st = steps.last();
        update_observations_spec(steps.drop_last(), s) + large_region_spec(st.5, s) + motion_spec(
            st.0,
            st.4,
            best_move(st.2, st.3, st.4, s),
        )
    }
}

/// An analysis explained by its measured updates: their facts are the analysis's facts,
/// and its observations are theirs with those drawn from the replay, sorted.
pub open spec fn explained_by(
    a: TemporalAnalysis,
    steps: Seq<UpdateStep>,
    events: Seq<EventRecord>,
    s: TemporalSettings,
) -> bool {
    &&& steps.len() == a.display_update_facts@.len()
    &&& forall|k: int| 0 <= k < steps.len() ==> step_ok(#[trigger] steps[k], s) && steps[k].5 == a.display_update_facts@[k]
    &&& observation_views(a.observations@) == sorted_observations(
        update_observations_spec(steps, s) + finish_spec(
            events,
            analysis_order(events, a.end_ns),
            a.display_update_facts@,
            a.frames@,
            a.start_ns,
            a.end_ns,
            s,
        ),
    )
}

/// A display event: a scanout or an update.
pub open spec fn is_display(e: EventRecord) -> bool {
    is_scanout(e) || is_update(e)
}

proof fn lemma_timeline_sorted(events: Seq<EventRecord>)
    ensures
        sorted_by(timeline(events), timeline_leq(events)),
        timeline(events).to_multiset() =~= positions(events.len()).to_multiset(),
{
    lemma_timeline_leq_total(events);
    positions(events.len()).lemma_sort_by_ensures(timeline_leq(events));
}

/// The observations of an analysis come in order: none sorts, by start, end and kind,
/// before one that precedes it, and sorting keeps their number.
pub proof fn law_observations_in_order(v: Seq<ObservationView>)
    ensures
        sorted_observations(v).len() == v.len(),
        forall|i: int, j: int| 0 <= i < j < v.len() ==> !obs_key_lt(#[trigger] sorted_observations(v)[j], #[trigger] sorted_observations(v)[i]),
{
    let leq = obs_leq(v);
    let ps = positions(v.len());
    lemma_obs_leq_total(v);
    ps.lemma_sort_by_ensures(leq);
    let p = ps.sort_by(leq);
    assert(p.len() == ps.len()) by {
        p.to_multiset_ensures();
        ps.to_multiset_ensures();
    }
    let r = sorted_observations(v);
    assert forall|i: int| 0 <= i < p.len() implies (#[trigger] p[i]) < v.len() by {
        assert(p.contains(p[i]));
        if !ps.contains(p[i]) {
            assert(false);
        }
        let q = choose|q: int| 0 <= q < ps.len() && ps[q] == p[i];
    }
    assert forall|i: int, j: int| 0 <= i < j < v.len() implies !obs_key_lt(#[trigger] r[j], #[trigger] r[i]) by {
        assert(leq(p[i], p[j]));
        assert(r[i] == v[p[i] as int]);
        assert(r[j] == v[p[j] as int]);
        let a = r[i].kind.name_spec();
        let b = r[j].kind.name_spec();
        if str_lt(a, b) {
            lemma_lt_asymmetric(a, b);
        }
        lemma_lt_irreflexive(a);
    }
}

proof fn lemma_regions_inside(mask: Seq<bool>, f: FrameView, cs: Seq<Component>, min: u64)
    requires
        components_of(mask, f.width as int, f.height as int, cs),
    ensures
        regions_inside(large_components(cs, min), f),
{
    let big = large_components(cs, min);
    cs.filter_lemma(crate::temporal_analysis::is_large(min));
    assert forall|k: int, m: int| 0 <= k < big.len() && 0 <= m < big[k].pixels@.len() implies (#[trigger] big[k].pixels@[m]).0
        < f.width && big[k].pixels@[m].1 < f.height by {
        assert(big.contains(big[k]));
        cs.lemma_filter_contains_rev(crate::temporal_analysis::is_large(min), big[k]);
        assert(cs.contains(big[k]));
        let idx = choose|idx: int| 0 <= idx < cs.len() && cs[idx] == big[k];
        assert(crate::regions::component_ok(mask, f.width as int, f.height as int, cs[idx]));
        assert(cs[idx].pixels@[m] == big[k].pixels@[m]);
    }
}

proof fn lemma_fits(f: FrameView, e: EventRecord, len: nat, start_ns: u64)
    requires
        Framebuffer::shape_ok(f),
        f.width <= 0x3fff_ffff,
    ensures
        update_fits_frame(Some(f), e, len, start_ns),
{
}

fn find_artifact(artifacts: &Vec<(String, Vec<u8>)>, name: &String) -> (r: Option<usize>)
    ensures
        r matches Some(i) ==> i < artifacts@.len() && artifacts@[i as int].0@ == name@,
        r is None ==> forall|i: int| 0 <= i < artifacts@.len() ==> (#[trigger] artifacts@[i]).0@ != name@,
{
    let mut i: usize = 0;
    while i < artifacts.len()
        invariant
            i <= artifacts@.len(),
            forall|j: int| 0 <= j < i ==> (#[trigger] artifacts@[j]).0@ != name@,
        decreases artifacts@.len() - i,
    {
        if str_equal(artifacts[i].0.as_str(), name.as_str()) {
            return Some(i);
        }
        i = i + 1;
    }
    None
}

fn append_observations(out: &mut Vec<TemporalObservation>, more: Vec<TemporalObservation>)
    ensures
        observation_views(final(out)@) == observation_views(old(out)@) + observation_views(more@),
{
    let ghost a = out@;
    let ghost b = more@;
    let mut more = more;
    out.append(&mut more);
    assert(observation_views(out@) =~= observation_views(a) + observation_views(b));
}

/// Replays one event recorded no later than the end, with its own observations when it
/// is a measured update.
#[verifier::rlimit(50)]
fn replay_event(
    analyzer: &mut TemporalAnalyzer,
    e: &EventRecord,
    artifacts: &Vec<(String, Vec<u8>)>,
    updates: &mut Vec<TemporalObservation>,
    Ghost(steps): Ghost<Seq<UpdateStep>>,
) -> (r: Result<Ghost<Seq<UpdateStep>>, TemporalError>)
    requires
        old(analyzer).wf(),
        old(analyzer).latest_ns() <= e.host_monotonic_ns,
        steps.len() == old(analyzer).facts@.len(),
        forall|j: int| 0 <= j < steps.len() ==> step_ok(#[trigger] steps[j], old(analyzer).settings) && steps[j].5 == old(analyzer).facts@[j],
        observation_views(old(updates)@) == update_observations_spec(steps, old(analyzer).settings),
    ensures
        final(analyzer).start_ns == old(analyzer).start_ns,
        final(analyzer).end_ns == old(analyzer).end_ns,
        final(analyzer).settings == old(analyzer).settings,
        !is_display(*e) ==> r is Ok && final(analyzer).frame_view() == old(analyzer).frame_view(),
        r matches Ok(g) ==> {
            &&& final(analyzer).wf()
            &&& final(analyzer).latest_ns() <= e.host_monotonic_ns
            &&& g@.len() == final(analyzer).facts@.len()
            &&& forall|j: int| 0 <= j < g@.len() ==> step_ok(#[trigger] g@[j], final(analyzer).settings) && g@[j].5 == final(analyzer).facts@[j]
            &&& observation_views(final(updates)@) == update_observations_spec(g@, final(analyzer).settings)
        },
{
    let settings = analyzer.settings;
    let plan = analyzer.artifact_for(e)?;
    let name = match plan {
        Some(name) => name,
        None => {
            return Ok(Ghost(steps));
        },
    };
    let slot = match find_artifact(artifacts, &name) {
        Some(slot) => slot,
        None => {
            return Err(TemporalError::ArtifactUnavailable { reference: name });
        },
    };
    let bytes = artifacts[slot].1.as_slice();
    let ghost before_view = analyzer.frame_view();
    let ghost old_facts = analyzer.facts@;
    match analyzer.current_frame() {
        Some(f) => {
            if str_equal(e.kind.as_str(), "display.update") && f.width() > 0x3fff_ffff {
                return Err(TemporalError::FrameRowsBeyondStride);
            }
            proof {
                if is_update(*e) {
                    lemma_fits(f.view(), *e, bytes@.len(), analyzer.start_ns);
                }
            }
        },
        None => {},
    }
    let detail = analyzer.replay_display(e, bytes)?;
    match detail {
        Some(d) => {
            let ghost rect = update_rect(*e)->Ok_0;
            let fact = &analyzer.facts[analyzer.facts.len() - 1];
            let large = large_region_observations(fact, &settings);
            let after = match analyzer.current_frame() {
                Some(f) => f,
                None => {
                    proof {
                        assert(false);
                    }
                    return Err(TemporalError::NoPrecedingScanout);
                },
            };
            proof {
                let bv = before_view->0;
                let cs = choose|cs: Seq<Component>| components_of(change_mask(bv, after.view()), bv.width as int, bv.height as int, cs)
                    && d.components@ == large_components(cs, settings.component_min_pixels);
                lemma_regions_inside(change_mask(bv, after.view()), bv, cs, settings.component_min_pixels);
            }
            let moved = motion_observations(e, &d.before, after, &d.components, &settings);
            let ghost step: UpdateStep = (*e, rect, before_view->0, after.view(), d.components@, *fact);
            append_observations(updates, large);
            append_observations(updates, moved);
            let ghost next = steps.push(step);
            assert(next.drop_last() =~= steps);
            Ok(Ghost(next))
        },
        None => Ok(Ghost(steps)),
    }
}

/// Analyzes the display events of `events` recorded up to `end_ns`, in timeline order,
/// with the framebuffer bytes that `artifacts` holds for each artifact reference (the
/// first entry of a reference counts). Each update measured from `start_ns` on yields its
/// fact, an observation when its change covers the large share of the screen, and one
/// for its best exact translation; the replay then yields visual responses, cursor-only
/// changes, repeated regions, reversions, several states while the pointer was held, and
/// display responses to network replies. All observations come sorted by start, end and
/// kind. Refused when the interval is empty, the settings break a rule, a display event
/// cannot be replayed, its artifact was not supplied, or an update comes to a frame whose
/// rows are longer than its stride. A timeline without display events is always analyzed.
pub fn analyze_temporal(
    events: &[EventRecord],
    artifacts: &Vec<(String, Vec<u8>)>,
    start_ns: u64,
    end_ns: u64,
    settings: TemporalSettings,
) -> (r: Result<TemporalAnalysis, TemporalError>)
    ensures
        start_ns > end_ns ==> r == Err::<TemporalAnalysis, TemporalError>(TemporalError::StartAfterEnd),
        start_ns <= end_ns && settings.fault() is Some ==> r == Err::<TemporalAnalysis, TemporalError>(settings.fault()->0),
        start_ns <= end_ns && settings.fault() is None && (forall|i: int| 0 <= i < events@.len() ==> !is_display(#[trigger] events@[i]))
            ==> r is Ok,
        r matches Ok(a) ==> {
            &&& a.start_ns == start_ns
            &&& a.end_ns == end_ns
            &&& a.settings == settings
            &&& exists|steps: Seq<UpdateStep>| #[trigger] explained_by(a, steps, events@, settings)
            &&& forall|i: int, j: int| 0 <= i < j < a.observations@.len() ==> !obs_key_lt(
                #[trigger] observation_views(a.observations@)[j],
                #[trigger] observation_views(a.observations@)[i],
            )
        },
{
    let mut analyzer = TemporalAnalyzer::new(start_ns, end_ns, settings)?;
    let order = timeline_order(events);
    let ordered = analyzer.ordered_events(events);
    let n = order.len();
    let mut updates: Vec<TemporalObservation> = Vec::new();
    let ghost mut steps: Seq<UpdateStep> = seq![];
    proof {
        lemma_timeline_sorted(events@);
        assert(observation_views(updates@) =~= update_observations_spec(steps, settings));
    }
    let mut k: usize = 0;
    while k < n
        invariant
            analyzer.wf(),
            analyzer.start_ns == start_ns,
            analyzer.end_ns == end_ns,
            analyzer.settings == settings,
            start_ns <= end_ns,
            settings.fault() is None,
            n == order@.len(),
            n == events@.len(),
            order@ == timeline(events@),
            forall|j: int| 0 <= j < n ==> #[trigger] order@[j] < events@.len(),
            sorted_by(order@, timeline_leq(events@)),
            k <= n,
            k < n ==> analyzer.latest_ns() <= events@[order@[k as int] as int].host_monotonic_ns,
            (forall|i: int| 0 <= i < events@.len() ==> !is_display(#[trigger] events@[i])) ==> analyzer.frame_view() is None,
            steps.len() == analyzer.facts@.len(),
            forall|j: int| 0 <= j < steps.len() ==> step_ok(#[trigger] steps[j], settings) && steps[j].5 == analyzer.facts@[j],
            observation_views(updates@) == update_observations_spec(steps, settings),
        decreases n - k,
    {
        let i = order[k];
        let e = &events[i];
        if e.host_monotonic_ns <= end_ns {
            let g = replay_event(&mut analyzer, e, artifacts, &mut updates, Ghost(steps))?;
            proof {
                steps = g@;
            }
        }
        proof {
            if k + 1 < n {
                assert(timeline_leq(events@)(order@[k as int], order@[k + 1]));
            }
        }
        k = k + 1;
    }
    let observations = analyzer.finish(events, &ordered);
    let mut all = updates;
    append_observations(&mut all, observations);
    let sorted = sort_observations(&all);
    let TemporalAnalyzer { start_ns: s0, end_ns: e0, settings: st, frame: _, states, facts } = analyzer;
    let a = TemporalAnalysis { start_ns: s0, end_ns: e0, settings: st, display_update_facts: facts, frames: states, observations: sorted };
    assert(explained_by(a, steps, events@, settings));
    proof {
        law_observations_in_order(observation_views(all@));
    }
    Ok(a)
}

} // verus!
