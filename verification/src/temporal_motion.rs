//! The observations drawn from one display update: a change over a large share of the
//! screen, and the best exact translation of one changed region into another.
use vstd::prelude::*;
use crate::event::EventRecord;
use crate::framebuffer::{rows_fit, FrameView, Framebuffer};
use crate::regions::Component;
use crate::temporal::{
    observation_views, DetailView, DisplayUpdateFact, ObservationDetail, ObservationKind, ObservationView,
    TemporalObservation, TemporalSettings,
};
use crate::temporal_analysis::{translation_counts, translation_spec};
use crate::temporal_rules::{one_id, push_observation};

verus! {

/// The numerator of the ratio `m / c`, which is zero when nothing was compared.
pub open spec fn ratio_num(m: nat, c: nat) -> nat {
    if c == 0 {
        0
    } else {
        m
    }
}

/// The denominator of the ratio `m / c`.
pub open spec fn ratio_den(c: nat) -> nat {
    if c == 0 {
        1
    } else {
        c
    }
}

/// Whether the ratio `m1 / c1` is at least `m2 / c2`.
pub open spec fn ratio_ge(m1: nat, c1: nat, m2: nat, c2: nat) -> bool {
    ratio_num(m1, c1) * ratio_den(c2) >= ratio_num(m2, c2) * ratio_den(c1)
}

/// Whether the ratio `m1 / c1` exceeds `m2 / c2`.
pub open spec fn ratio_gt(m1: nat, c1: nat, m2: nat, c2: nat) -> bool {
    ratio_num(m1, c1) * ratio_den(c2) > ratio_num(m2, c2) * ratio_den(c1)
}

/// Whether the ratio `m / c` reaches `permille` thousandths.
pub open spec fn ratio_reaches(m: nat, c: nat, permille: nat) -> bool {
    ratio_num(m, c) * 1000 >= permille * ratio_den(c)
}

fn ratio_parts(m: u64, c: u64) -> (r: (u128, u128))
    ensures
        r.0 == ratio_num(m as nat, c as nat),
        r.1 == ratio_den(c as nat),
{
    if c == 0 {
        (0, 1)
    } else {
        (m as u128, c as u128)
    }
}

fn mul_wide(a: u128, b: u128) -> (r: u128)
    requires
        a <= u64::MAX,
        b <= u64::MAX,
    ensures
        r == a * b,
{
    proof {
        assert(a * b <= (u64::MAX as int) * (u64::MAX as int)) by (nonlinear_arith)
            requires
                a <= u64::MAX,
                b <= u64::MAX,
        ;
    }
    a * b
}

fn ratio_ge_exec(m1: u64, c1: u64, m2: u64, c2: u64) -> (r: bool)
    ensures
        r == ratio_ge(m1 as nat, c1 as nat, m2 as nat, c2 as nat),
{
    let (n1, d1) = ratio_parts(m1, c1);
    let (n2, d2) = ratio_parts(m2, c2);
    mul_wide(n1, d2) >= mul_wide(n2, d1)
}

fn ratio_gt_exec(m1: u64, c1: u64, m2: u64, c2: u64) -> (r: bool)
    ensures
        r == ratio_gt(m1 as nat, c1 as nat, m2 as nat, c2 as nat),
{
    let (n1, d1) = ratio_parts(m1, c1);
    let (n2, d2) = ratio_parts(m2, c2);
    mul_wide(n1, d2) > mul_wide(n2, d1)
}

/// Whether the ratio `m / c` reaches `permille` thousandths.
pub fn ratio_reaches_exec(m: u64, c: u64, permille: u64) -> (r: bool)
    ensures
        r == ratio_reaches(m as nat, c as nat, permille as nat),
{
    let (n, d) = ratio_parts(m, c);
    mul_wide(n, 1000) >= mul_wide(permille as u128, d)
}

/// The large-change observation of an update: when its changed pixels reach the large
/// share of the screen, one observation at its time.
pub open spec fn large_region_spec(f: DisplayUpdateFact, s: TemporalSettings) -> Seq<ObservationView> {
    if ratio_reaches(f.changed_pixels as nat, f.screen_pixels as nat, s.large_changed_screen_permille as nat) {
        seq![ObservationView {
            kind: ObservationKind::LargeRegionChanged,
            start_ns: f.host_monotonic_ns,
            end_ns: f.host_monotonic_ns,
            supporting_event_ids: seq![f.event_id@],
            detail: DetailView::LargeRegion {
                changed_pixels: f.changed_pixels,
                screen_pixels: f.screen_pixels,
                changed_bounds: f.changed_bounds,
            },
        }]
    } else {
        seq![]
    }
}

/// Reports an update whose change covers a large share of the screen.
pub fn large_region_observations(f: &DisplayUpdateFact, s: &TemporalSettings) -> (r: Vec<TemporalObservation>)
    ensures
        observation_views(r@) == large_region_spec(*f, *s),
{
    let mut out: Vec<TemporalObservation> = Vec::new();
    assert(observation_views(out@) =~= Seq::<ObservationView>::empty());
    if ratio_reaches_exec(f.changed_pixels, f.screen_pixels, s.large_changed_screen_permille) {
        push_observation(
            &mut out,
            TemporalObservation {
                kind: ObservationKind::LargeRegionChanged,
                start_ns: f.host_monotonic_ns,
                end_ns: f.host_monotonic_ns,
                supporting_event_ids: one_id(&f.event_id),
                detail: ObservationDetail::LargeRegion {
                    changed_pixels: f.changed_pixels,
                    screen_pixels: f.screen_pixels,
                    changed_bounds: f.changed_bounds,
                },
            },
        );
    }
    assert(observation_views(out@) =~= large_region_spec(*f, *s));
    out
}

/// A translation of one changed region onto another: the source and target positions,
/// the matched and comparable pixels, and the displacement.
pub type Move = (int, int, nat, nat, int, int);

/// The translation that the pair `i < j` of regions suggests: the displacement between
/// their corners, at least the minimum distance long, taken in the direction that matches
/// better (forward on a tie), when its match ratio reaches the minimum.
pub open spec fn pair_move(before: FrameView, after: FrameView, cs: Seq<Component>, i: int, j: int, s: TemporalSettings) -> Option<Move> {
    let a = cs[i];
    let b = cs[j];
    let dx = b.bounds.x - a.bounds.x;
    let dy = b.bounds.y - a.bounds.y;
    if dx * dx + dy * dy < s.motion_min_distance_px * s.motion_min_distance_px {
        None
    } else {
        let f = translation_spec(before, after, a.pixels@, dx, dy);
        let r = translation_spec(before, after, b.pixels@, -dx, -dy);
        let m: Move = if ratio_ge(f.0, f.1, r.0, r.1) {
            (i, j, f.0, f.1, dx, dy)
        } else {
            (j, i, r.0, r.1, -dx, -dy)
        };
        if ratio_reaches(m.2, m.3, s.motion_min_match_permille as nat) {
            Some(m)
        } else {
            None
        }
    }
}

/// The better of the best move so far and a candidate: the candidate only when it
/// matches strictly better.
pub open spec fn better_move(best: Option<Move>, c: Option<Move>) -> Option<Move> {
    match c {
        Some(m) => match best {
            Some(b) => if ratio_gt(m.2, m.3, b.2, b.3) {
                Some(m)
            } else {
                best
            },
            None => Some(m),
        },
        None => best,
    }
}

/// The best move over the pairs from `(i, j)` on, in order, starting from `best`.
pub open spec fn best_move_from(
    before: FrameView,
    after: FrameView,
    cs: Seq<Component>,
    s: TemporalSettings,
    i: int,
    j: int,
    best: Option<Move>,
) -> Option<Move>
    decreases cs.len() - i, cs.len() - j,
{
    if i >= cs.len() {
        best
    } else if j >= cs.len() {
        best_move_from(before, after, cs, s, i + 1, i + 2, best)
    } else {
        best_move_from(before, after, cs, s, i, j + 1, better_move(best, pair_move(before, after, cs, i, j, s)))
    }
}

/// The best translation between the regions of an update, over every pair.
pub open spec fn best_move(before: FrameView, after: FrameView, cs: Seq<Component>, s: TemporalSettings) -> Option<Move> {
    best_move_from(before, after, cs, s, 0, 1, None)
}

/// The translation observation of the update `e` for its best move.
pub open spec fn motion_spec(e: EventRecord, cs: Seq<Component>, m: Option<Move>) -> Seq<ObservationView> {
    match m {
        Some(m) => seq![ObservationView {
            kind: ObservationKind::PixelTranslationDetected,
            start_ns: e.host_monotonic_ns,
            end_ns: e.host_monotonic_ns,
            supporting_event_ids: seq![e.id@],
            detail: DetailView::Translation {
                from_bounds: cs[m.0].bounds,
                to_bounds: cs[m.1].bounds,
                delta_x: m.4 as i64,
                delta_y: m.5 as i64,
                matched: m.2 as u64,
                comparable: m.3 as u64,
            },
        }],
        None => seq![],
    }
}

/// The regions lie inside the frame.
pub open spec fn regions_inside(cs: Seq<Component>, f: FrameView) -> bool {
    forall|k: int, m: int| 0 <= k < cs.len() && 0 <= m < cs[k].pixels@.len() ==> (#[trigger] cs[k].pixels@[m]).0 < f.width
        && cs[k].pixels@[m].1 < f.height
}

type ExecMove = (usize, usize, u64, u64, i64, i64);

spec fn move_view(m: Option<ExecMove>) -> Option<Move> {
    match m {
        Some(x) => Some((x.0 as int, x.1 as int, x.2 as nat, x.3 as nat, x.4 as int, x.5 as int)),
        None => None,
    }
}

fn pair_move_exec(before: &Framebuffer, after: &Framebuffer, cs: &Vec<Component>, i: usize, j: usize, s: &TemporalSettings) -> (r: Option<ExecMove>)
    requires
        before.inv(),
        after.inv(),
        rows_fit(before.view()),
        rows_fit(after.view()),
        i < cs@.len(),
        j < cs@.len(),
        regions_inside(cs@, before.view()),
    ensures
        move_view(r) == pair_move(before.view(), after.view(), cs@, i as int, j as int, *s),
        r matches Some(m) ==> m.0 < cs@.len() && m.1 < cs@.len(),
{
    let a = &cs[i];
    let b = &cs[j];
    let dx: i64 = b.bounds.x as i64 - a.bounds.x as i64;
    let dy: i64 = b.bounds.y as i64 - a.bounds.y as i64;
    proof {
        assert(0 <= dx * dx <= 0x1_0000_0000 * 0x1_0000_0000) by (nonlinear_arith)
            requires
                -0x1_0000_0000 < dx < 0x1_0000_0000,
        ;
        assert(0 <= dy * dy <= 0x1_0000_0000 * 0x1_0000_0000) by (nonlinear_arith)
            requires
                -0x1_0000_0000 < dy < 0x1_0000_0000,
        ;
    }
    let wx: i128 = dx as i128 * dx as i128;
    let wy: i128 = dy as i128 * dy as i128;
    let sx: u128 = wx as u128;
    let sy: u128 = wy as u128;
    let d = s.motion_min_distance_px as u128;
    if sx + sy < mul_wide(d, d) {
        return None;
    }
    proof {
        assert forall|m: int| 0 <= m < a.pixels@.len() implies (#[trigger] a.pixels@[m]).0 < before.view().width
            && a.pixels@[m].1 < before.view().height by {
            assert(cs@[i as int].pixels@[m] == a.pixels@[m]);
        }
        assert forall|m: int| 0 <= m < b.pixels@.len() implies (#[trigger] b.pixels@[m]).0 < before.view().width
            && b.pixels@[m].1 < before.view().height by {
            assert(cs@[j as int].pixels@[m] == b.pixels@[m]);
        }
    }
    let (fm, fc) = translation_counts(before, after, &a.pixels, dx, dy);
    let (rm, rc) = translation_counts(before, after, &b.pixels, -dx, -dy);
    let m: ExecMove = if ratio_ge_exec(fm, fc, rm, rc) {
        (i, j, fm, fc, dx, dy)
    } else {
        (j, i, rm, rc, -dx, -dy)
    };
    if ratio_reaches_exec(m.2, m.3, s.motion_min_match_permille) {
        Some(m)
    } else {
        None
    }
}

/// Reports the best exact translation between the large changed regions `cs` of the
/// update `e`, which took the frame from `before` to `after`: over every pair of regions
/// in order, the displacement between their corners when it is at least the minimum
/// distance long, in the direction that matches better, when the share of the moved
/// pixels that land inside the frame and show there what they showed before reaches the
/// minimum; a later pair replaces an earlier one only when it matches strictly better.
pub fn motion_observations(
    e: &EventRecord,
    before: &Framebuffer,
    after: &Framebuffer,
    cs: &Vec<Component>,
    s: &TemporalSettings,
) -> (r: Vec<TemporalObservation>)
    requires
        before.inv(),
        after.inv(),
        rows_fit(before.view()),
        rows_fit(after.view()),
        regions_inside(cs@, before.view()),
    ensures
        observation_views(r@) == motion_spec(*e, cs@, best_move(before.view(), after.view(), cs@, *s)),
{
    let ghost bv = before.view();
    let ghost av = after.view();
    let ghost target = best_move(bv, av, cs@, *s);
    let n = cs.len();
    let mut best: Option<ExecMove> = None;
    let mut i: usize = 0;
    while i < n
        invariant
            n == cs@.len(),
            i <= n,
            bv == before.view(),
            av == after.view(),
            before.inv(),
            after.inv(),
            rows_fit(bv),
            rows_fit(av),
            regions_inside(cs@, bv),
            best_move_from(bv, av, cs@, *s, i as int, i + 1, move_view(best)) == target,
            best matches Some(m) ==> m.0 < n && m.1 < n,
        decreases n - i,
    {
        let mut j: usize = i + 1;
        while j < n
            invariant
                n == cs@.len(),
                i < n,
                i + 1 <= j <= n,
                bv == before.view(),
                av == after.view(),
                before.inv(),
                after.inv(),
                rows_fit(bv),
                rows_fit(av),
                regions_inside(cs@, bv),
                best_move_from(bv, av, cs@, *s, i as int, j as int, move_view(best)) == target,
                best matches Some(m) ==> m.0 < n && m.1 < n,
            decreases n - j,
        {
            let c = pair_move_exec(before, after, cs, i, j, s);
            let ghost old_best = best;
            best = match c {
                Some(m) => match best {
                    Some(b) => if ratio_gt_exec(m.2, m.3, b.2, b.3) {
                        Some(m)
                    } else {
                        best
                    },
                    None => Some(m),
                },
                None => best,
            };
            assert(move_view(best) == better_move(move_view(old_best), move_view(c)));
            j = j + 1;
        }
        i = i + 1;
    }
    let mut out: Vec<TemporalObservation> = Vec::new();
    assert(observation_views(out@) =~= Seq::<ObservationView>::empty());
    match best {
        Some(m) => {
            let from = &cs[m.0];
            let to = &cs[m.1];
            push_observation(
                &mut out,
                TemporalObservation {
                    kind: ObservationKind::PixelTranslationDetected,
                    start_ns: e.host_monotonic_ns,
                    end_ns: e.host_monotonic_ns,
                    supporting_event_ids: one_id(&e.id),
                    detail: ObservationDetail::Translation {
                        from_bounds: from.bounds,
                        to_bounds: to.bounds,
                        delta_x: m.4,
                        delta_y: m.5,
                        matched: m.2,
                        comparable: m.3,
                    },
                },
            );
        },
        None => {},
    }
    assert(observation_views(out@) =~= motion_spec(*e, cs@, target));
    out
}

} // verus!
