//! Replaying display events in timeline order: each scanout replaces the frame, each
//! update is copied into it and measured against the frame before it; the observations
//! are then drawn from the replayed frames, the update facts and the events.
use vstd::prelude::*;
use crate::digest::sha256_hex;
use crate::event::{positions, timeline, timeline_order, EventRecord};
use crate::strset::{lemma_lt_asymmetric, lemma_lt_irreflexive, lemma_lt_total, lemma_lt_transitive, str_lt, string_lt};
use vstd::relations::{sorted_by, total_ordering};
use crate::framebuffer::{scanout_accepted, scanout_error, update_error, updated_bytes, FrameView, Framebuffer, Rect, rows_fit};
use crate::regions::{components_of, connected_components, Component, PixelBounds};
use crate::temporal::{
    change_mask, count_true, is_mask_bbox, pixel_bytes, pixel_difference, DisplayUpdateFact, FrameState,
    TemporalError, TemporalObservation, TemporalSettings,
};
use crate::temporal::{observation_views, ObservationDetail, ObservationView};
use crate::temporal_rules::{
    action_responses_spec, cursor_observations, cursor_sources, derive_action_responses, derive_cursor_only_changes, find_cursor_sources, derive_multiple_states, derive_network_display_order,
    derive_repeated_regions, derive_state_reversions, facts_ordered, fits, holds_from, input_probe, network_spec,
    repeated_from, reversions_spec, states_ordered,
};
use crate::text::{str_equal, views};

verus! {

broadcast use vstd::string::group_string_axioms;

/// A display event's field read as an unsigned 32-bit number.
pub open spec fn field_u32(e: EventRecord, name: &'static str, v: Option<u64>) -> Result<u32, TemporalError> {
    match v {
        None => Err(TemporalError::NoUnsignedField { kind: e.kind, name }),
        Some(x) => if x > u32::MAX {
            Err(TemporalError::FieldExceedsU32 { name })
        } else {
            Ok(x as u32)
        },
    }
}

fn field_u32_exec(e: &EventRecord, name: &'static str, v: Option<u64>) -> (r: Result<u32, TemporalError>)
    ensures
        r == field_u32(*e, name, v),
{
    match v {
        None => Err(TemporalError::NoUnsignedField { kind: e.kind.clone(), name }),
        Some(x) => if x > 0xffff_ffff {
            Err(TemporalError::FieldExceedsU32 { name })
        } else {
            Ok(x as u32)
        },
    }
}

/// A coordinate of an update rectangle: a signed integer that fits 32 unsigned bits.
pub open spec fn rect_coordinate(name: &'static str, v: Option<i64>) -> Result<u32, TemporalError> {
    match v {
        None => Err(TemporalError::NoSignedRectField { name }),
        Some(x) => if x < 0 || x > u32::MAX {
            Err(TemporalError::NegativeRectField { name })
        } else {
            Ok(x as u32)
        },
    }
}

fn rect_coordinate_exec(name: &'static str, v: Option<i64>) -> (r: Result<u32, TemporalError>)
    ensures
        r == rect_coordinate(name, v),
{
    match v {
        None => Err(TemporalError::NoSignedRectField { name }),
        Some(x) => if x < 0 || x > 0xffff_ffff {
            Err(TemporalError::NegativeRectField { name })
        } else {
            Ok(x as u32)
        },
    }
}

/// The rectangle an update announces: `x`, `y`, `width` and `height` in that order, and
/// not empty.
pub open spec fn update_rect(e: EventRecord) -> Result<PixelBounds, TemporalError> {
    match e.facts.rect {
        None => Err(TemporalError::NoRectangle),
        Some(r) => match rect_coordinate("x", r.x) {
            Err(err) => Err(err),
            Ok(x) => match rect_coordinate("y", r.y) {
                Err(err) => Err(err),
                Ok(y) => match rect_coordinate("width", r.width) {
                    Err(err) => Err(err),
                    Ok(width) => match rect_coordinate("height", r.height) {
                        Err(err) => Err(err),
                        Ok(height) => if width > 0 && height > 0 {
                            Ok(PixelBounds { x, y, width, height })
                        } else {
                            Err(TemporalError::EmptyRectangle)
                        },
                    },
                },
            },
        },
    }
}

/// Reads the rectangle an update announces.
pub fn event_rect(e: &EventRecord) -> (r: Result<PixelBounds, TemporalError>)
    ensures
        r == update_rect(*e),
{
    let rect = match e.facts.rect {
        None => return Err(TemporalError::NoRectangle),
        Some(r) => r,
    };
    let x = rect_coordinate_exec("x", rect.x)?;
    let y = rect_coordinate_exec("y", rect.y)?;
    let width = rect_coordinate_exec("width", rect.width)?;
    let height = rect_coordinate_exec("height", rect.height)?;
    if width > 0 && height > 0 {
        Ok(PixelBounds { x, y, width, height })
    } else {
        Err(TemporalError::EmptyRectangle)
    }
}

/// A full scanout.
pub open spec fn is_scanout(e: EventRecord) -> bool {
    e.kind@ == "display.scanout"@
}

/// An update of part of the frame.
pub open spec fn is_update(e: EventRecord) -> bool {
    e.kind@ == "display.update"@
}

/// An update that the frame would accept ends within the frame's stride, and, when it is
/// measured (from the start of the analysis on), every row of the frame lies within the
/// stride. Only a frame whose rows are longer than its stride (from a width of 2^30 pixels
/// on) can fail this; copying or comparing its pixels would reach across rows or past the
/// buffer.
pub open spec fn update_fits_frame(before: Option<FrameView>, e: EventRecord, len: nat, start_ns: u64) -> bool {
    match before {
        None => true,
        Some(f) => match update_rect(e) {
            Err(_) => true,
            Ok(b) => match (field_u32(e, "stride", e.facts.stride), field_u32(e, "pixmanFormat", e.facts.pixman_format)) {
                (Ok(stride), Ok(format)) => update_error(f, frame_rect(b), stride, format, len) is None ==> {
                    &&& 4 * (frame_rect(b).x + frame_rect(b).width) <= f.stride
                    &&& e.host_monotonic_ns >= start_ns ==> rows_fit(f)
                },
                _ => true,
            },
        },
    }
}

/// The update rectangle as the frame takes it.
pub open spec fn frame_rect(b: PixelBounds) -> Rect {
    Rect { x: b.x as i32, y: b.y as i32, width: b.width as i32, height: b.height as i32 }
}

/// What an update changed, with the frame before it and the connected regions of changed
/// pixels that are large enough to track.
#[derive(Debug)]
pub struct UpdateDetail {
    pub before: Framebuffer,
    pub components: Vec<Component>,
}

/// A component of at least `min` pixels.
pub open spec fn is_large(min: u64) -> spec_fn(Component) -> bool {
    |c: Component| c.pixels@.len() >= min
}

/// The components of at least `min` pixels.
pub open spec fn large_components(cs: Seq<Component>, min: u64) -> Seq<Component> {
    cs.filter(is_large(min))
}

/// The frames after replaying `e`: one more, for `e`, with the hash of `data`.
pub open spec fn frame_recorded(before: Seq<FrameState>, after: Seq<FrameState>, e: EventRecord, data: Seq<u8>) -> bool {
    &&& after.len() == before.len() + 1
    &&& after.drop_last() == before
    &&& after.last().event_id@ == e.id@
    &&& after.last().timestamp == e.host_monotonic_ns
    &&& after.last().hash@ == sha256_hex(data)
}

/// The fact of the update `e` announcing `rect`, which took the frame from `before` to
/// `after`: the changed pixels, their count and bounding box, the announced and screen
/// areas, and the hash of the resulting frame.
pub open spec fn fact_of(fact: DisplayUpdateFact, e: EventRecord, rect: PixelBounds, before: FrameView, after: FrameView) -> bool {
    let mask = change_mask(before, after);
    &&& fact.event_id@ == e.id@
    &&& fact.host_monotonic_ns == e.host_monotonic_ns
    &&& fact.announced_rect == rect
    &&& fact.changed_pixels == count_true(mask)
    &&& (fact.changed_bounds is None <==> fact.changed_pixels == 0)
    &&& (fact.changed_bounds matches Some(b) ==> is_mask_bbox(mask, before.width as int, b))
    &&& fact.announced_pixels == rect.width * rect.height
    &&& fact.screen_pixels == before.width * before.height
    &&& fact.resulting_frame_sha256@ == sha256_hex(after.data)
}

/// The detail of an update from `before` to `after`: the frame before it, and the
/// connected regions of changed pixels of at least `min` pixels.
pub open spec fn detail_of(d: UpdateDetail, before: FrameView, after: FrameView, min: u64) -> bool {
    &&& d.before.inv()
    &&& d.before.view() == before
    &&& exists|cs: Seq<Component>| components_of(change_mask(before, after), before.width as int, before.height as int, cs)
        && d.components@ == large_components(cs, min)
}

/// Replays display events in timeline order.
#[derive(Debug)]
pub struct TemporalAnalyzer {
    pub start_ns: u64,
    pub end_ns: u64,
    pub settings: TemporalSettings,
    pub frame: Option<Framebuffer>,
    pub states: Vec<FrameState>,
    pub facts: Vec<DisplayUpdateFact>,
}

impl TemporalAnalyzer {
    /// The frame after the events replayed so far, when a scanout was replayed.
    pub open spec fn frame_view(&self) -> Option<FrameView> {
        match self.frame {
            Some(f) => Some(f.view()),
            None => None,
        }
    }

    /// The replay's invariant: a well-formed frame, frames and facts in the order of host
    /// time, facts no later than the last frame, and update rectangles whose edges fit
    /// 32 bits.
    pub closed spec fn wf(&self) -> bool {
        &&& (self.frame matches Some(f) ==> f.inv())
        &&& (self.frame is None ==> self.facts@.len() == 0)
        &&& states_ordered(self.states@)
        &&& facts_ordered(self.facts@)
        &&& self.facts@.len() > 0 ==> self.states@.len() > 0
            && self.facts@.last().host_monotonic_ns <= self.states@.last().timestamp
    }

    /// The host time of the last replayed frame, or zero.
    pub open spec fn latest_ns(&self) -> u64 {
        if self.states@.len() == 0 {
            0
        } else {
            self.states@.last().timestamp
        }
    }

    /// Starts a replay of `start_ns..=end_ns`. Refused when the interval is empty or the
    /// settings break a rule.
    pub fn new(start_ns: u64, end_ns: u64, settings: TemporalSettings) -> (r: Result<Self, TemporalError>)
        ensures
            start_ns > end_ns ==> r == Err::<Self, TemporalError>(TemporalError::StartAfterEnd),
            start_ns <= end_ns ==> match settings.fault() {
                Some(e) => r == Err::<Self, TemporalError>(e),
                None => r matches Ok(a) && {
                    &&& a.wf()
                    &&& a.start_ns == start_ns
                    &&& a.end_ns == end_ns
                    &&& a.settings == settings
                    &&& a.frame_view() is None
                    &&& a.states@.len() == 0
                    &&& a.facts@.len() == 0
                },
            },
    {
        if start_ns > end_ns {
            return Err(TemporalError::StartAfterEnd);
        }
        settings.validate()?;
        let a = TemporalAnalyzer { start_ns, end_ns, settings, frame: None, states: Vec::new(), facts: Vec::new() };
        assert(states_ordered(a.states@));
        Ok(a)
    }

    /// The positions of the events recorded no later than the end, in timeline order.
    pub fn ordered_events(&self, events: &[EventRecord]) -> (r: Vec<usize>)
        ensures
            r@ == timeline(events@).filter(|i: usize| events@[i as int].host_monotonic_ns <= self.end_ns),
            forall|k: int| 0 <= k < r@.len() ==> #[trigger] r@[k] < events@.len(),
    {
        let ghost ev = events@;
        let n = events.len();
        let end = self.end_ns;
        let order = timeline_order(events);
        let r = crate::timeline_search::all_where(
            &order,
            |i: usize| -> (b: bool)
                requires i < n, n == ev.len(), ev == events@,
                ensures b == (ev[i as int].host_monotonic_ns <= end)
            { events[i].host_monotonic_ns <= end },
            Ghost(|i: usize| ev[i as int].host_monotonic_ns <= end),
            Ghost(n as nat),
        );
        proof {
            broadcast use vstd::seq_lib::group_filter_ensures;
            assert forall|k: int| 0 <= k < r@.len() implies #[trigger] r@[k] < events@.len() by {
                assert(order@.filter(|i: usize| ev[i as int].host_monotonic_ns <= end).contains(r@[k]));
                order@.lemma_filter_contains_rev(|i: usize| ev[i as int].host_monotonic_ns <= end, r@[k]);
            }
        }
        r
    }

    /// Whether replaying `e` needs a framebuffer artifact, and which: the first one the
    /// event names, for a scanout, or for an update that has a frame to apply to and a
    /// valid rectangle.
    pub open spec fn artifact_plan(&self, e: EventRecord) -> Result<Option<Seq<char>>, TemporalError> {
        if is_scanout(e) {
            if e.artifact_refs@.len() == 0 {
                Err(TemporalError::NoFramebufferArtifact { kind: e.kind })
            } else {
                Ok(Some(e.artifact_refs@[0]@))
            }
        } else if is_update(e) {
            if self.frame_view() is None {
                Err(TemporalError::NoPrecedingScanout)
            } else {
                match update_rect(e) {
                    Err(err) => Err(err),
                    Ok(_) => if e.artifact_refs@.len() == 0 {
                        Err(TemporalError::NoFramebufferArtifact { kind: e.kind })
                    } else {
                        Ok(Some(e.artifact_refs@[0]@))
                    },
                }
            }
        } else {
            Ok(None)
        }
    }

    /// The framebuffer artifact that replaying `e` needs, if any.
    pub fn artifact_for(&self, e: &EventRecord) -> (r: Result<Option<String>, TemporalError>)
        ensures
            match self.artifact_plan(*e) {
                Ok(Some(a)) => r matches Ok(Some(s)) && s@ == a,
                Ok(None) => r matches Ok(None),
                Err(err) => r == Err::<Option<String>, TemporalError>(err),
            },
    {
        if str_equal(e.kind.as_str(), "display.scanout") {
            if e.artifact_refs.len() == 0 {
                Err(TemporalError::NoFramebufferArtifact { kind: e.kind.clone() })
            } else {
                Ok(Some(e.artifact_refs[0].clone()))
            }
        } else if str_equal(e.kind.as_str(), "display.update") {
            if self.frame.is_none() {
                return Err(TemporalError::NoPrecedingScanout);
            }
            event_rect(e)?;
            if e.artifact_refs.len() == 0 {
                Err(TemporalError::NoFramebufferArtifact { kind: e.kind.clone() })
            } else {
                Ok(Some(e.artifact_refs[0].clone()))
            }
        } else {
            Ok(None)
        }
    }

    /// The current frame, if a scanout was replayed.
    pub fn current_frame(&self) -> (r: Option<&Framebuffer>)
        requires
            self.wf(),
        ensures
            match r {
                Some(f) => f.inv() && self.frame_view() == Some(f.view()),
                None => self.frame_view() is None,
            },
    {
        match &self.frame {
            Some(f) => Some(f),
            None => None,
        }
    }

    /// Replays a display event with the bytes of its framebuffer artifact. A scanout
    /// replaces the frame. An update is copied into the frame; when it was recorded from
    /// the start on, its fact is recorded and the frame before it and its large changed
    /// regions are returned. Either records the resulting frame's hash. Refused, with the
    /// replay unchanged, when a field is missing or out of range, or the frame refuses the
    /// data.
    pub fn apply(&mut self, e: &EventRecord, bytes: &[u8]) -> (r: Result<Option<UpdateDetail>, TemporalError>)
        requires
            old(self).wf(),
            old(self).latest_ns() <= e.host_monotonic_ns,
            old(self).artifact_plan(*e) matches Ok(Some(_)),
            is_update(*e) ==> update_fits_frame(old(self).frame_view(), *e, bytes@.len(), old(self).start_ns),
        ensures
            final(self).wf(),
            final(self).start_ns == old(self).start_ns,
            final(self).end_ns == old(self).end_ns,
            final(self).settings == old(self).settings,
            r is Err ==> *final(self) == *old(self),
            is_scanout(*e) ==> match field_u32(*e, "width", e.facts.width) {
                Err(err) => r == Err::<Option<UpdateDetail>, TemporalError>(err),
                Ok(width) => match field_u32(*e, "height", e.facts.height) {
                    Err(err) => r == Err::<Option<UpdateDetail>, TemporalError>(err),
                    Ok(height) => match field_u32(*e, "stride", e.facts.stride) {
                        Err(err) => r == Err::<Option<UpdateDetail>, TemporalError>(err),
                        Ok(stride) => match field_u32(*e, "pixmanFormat", e.facts.pixman_format) {
                            Err(err) => r == Err::<Option<UpdateDetail>, TemporalError>(err),
                            Ok(format) => if !scanout_accepted(width, height, stride, bytes@.len()) {
                                r == Err::<Option<UpdateDetail>, TemporalError>(TemporalError::Frame(scanout_error(width, height, stride, bytes@.len())))
                            } else {
                                let view = FrameView {
                                    width: width as nat,
                                    height: height as nat,
                                    stride: stride as nat,
                                    format,
                                    data: bytes@.take(stride * height),
                                };
                                &&& r matches Ok(None)
                                &&& final(self).frame_view() == Some(view)
                                &&& final(self).facts@ == old(self).facts@
                                &&& frame_recorded(old(self).states@, final(self).states@, *e, view.data)
                            },
                        },
                    },
                },
            },
            is_update(*e) ==> {
                let before = old(self).frame_view()->0;
                let rect = update_rect(*e)->Ok_0;
                match field_u32(*e, "stride", e.facts.stride) {
                    Err(err) => r == Err::<Option<UpdateDetail>, TemporalError>(err),
                    Ok(stride) => match field_u32(*e, "pixmanFormat", e.facts.pixman_format) {
                        Err(err) => r == Err::<Option<UpdateDetail>, TemporalError>(err),
                        Ok(format) => match update_error(before, frame_rect(rect), stride, format, bytes@.len()) {
                            Some(fe) => r == Err::<Option<UpdateDetail>, TemporalError>(TemporalError::Frame(fe)),
                            None => {
                                let after = FrameView {
                                    data: updated_bytes(before.data, before.stride as int, frame_rect(rect), stride as int, bytes@),
                                    ..before
                                };
                                &&& final(self).frame_view() == Some(after)
                                &&& frame_recorded(old(self).states@, final(self).states@, *e, after.data)
                                &&& (if e.host_monotonic_ns < old(self).start_ns {
                                    r matches Ok(None) && final(self).facts@ == old(self).facts@
                                } else {
                                    &&& final(self).facts@.drop_last() == old(self).facts@
                                    &&& final(self).facts@.len() == old(self).facts@.len() + 1
                                    &&& fact_of(final(self).facts@.last(), *e, rect, before, after)
                                    &&& r matches Ok(Some(d)) && detail_of(d, before, after, old(self).settings.component_min_pixels)
                                })
                            },
                        },
                    },
                }
            },
    {
        proof {
            reveal_strlit("display.scanout");
            reveal_strlit("display.update");
        }
        if str_equal(e.kind.as_str(), "display.scanout") {
            assert(e.kind@ == "display.scanout"@);
            assert("display.scanout"@.len() == 15);
            assert("display.update"@.len() == 14);
            assert(!is_update(*e));
            let width = field_u32_exec(e, "width", e.facts.width)?;
            let height = field_u32_exec(e, "height", e.facts.height)?;
            let stride = field_u32_exec(e, "stride", e.facts.stride)?;
            let format = field_u32_exec(e, "pixmanFormat", e.facts.pixman_format)?;
            let next = match Framebuffer::from_scanout(width, height, stride, format, bytes) {
                Ok(f) => f,
                Err(fe) => return Err(TemporalError::Frame(fe)),
            };
            let hash = next.sha256();
            let ghost old_states = self.states@;
            self.states.push(FrameState { event_id: e.id.clone(), timestamp: e.host_monotonic_ns, hash });
            assert(self.states@.drop_last() =~= old_states);
            self.frame = Some(next);
            return Ok(None);
        }
        let rect = match event_rect(e) {
            Ok(r) => r,
            Err(err) => return Err(err),
        };
        let stride = field_u32_exec(e, "stride", e.facts.stride)?;
        let format = field_u32_exec(e, "pixmanFormat", e.facts.pixman_format)?;
        let current = match &self.frame {
            Some(f) => f,
            None => return Err(TemporalError::NoPrecedingScanout),
        };
        let before = current.duplicate();
        let mut next = current.duplicate();
        match next.apply_update(frame_rect_exec(rect), stride, format, bytes) {
            Ok(()) => {},
            Err(fe) => return Err(TemporalError::Frame(fe)),
        }
        let hash = next.sha256();
        proof {
            lemma_nonnegative_cast(rect.x);
            lemma_nonnegative_cast(rect.y);
            lemma_nonnegative_cast(rect.width);
            lemma_nonnegative_cast(rect.height);
        }
        let ghost old_states = self.states@;
        self.states.push(FrameState { event_id: e.id.clone(), timestamp: e.host_monotonic_ns, hash: hash.clone() });
        assert(self.states@.drop_last() =~= old_states);
        if e.host_monotonic_ns < self.start_ns {
            self.frame = Some(next);
            return Ok(None);
        }
        let difference = match pixel_difference(&before, &next) {
            Some(d) => d,
            None => {
                self.frame = Some(next);
                return Err(TemporalError::DimensionsChanged);
            },
        };
        let width = before.width();
        let height = before.height();
        let all = connected_components(difference.mask.as_slice(), width as usize, height as usize);
        let components = keep_large(all, self.settings.component_min_pixels);
        let fact = DisplayUpdateFact {
            event_id: e.id.clone(),
            host_monotonic_ns: e.host_monotonic_ns,
            announced_rect: rect,
            changed_bounds: difference.bounds,
            changed_pixels: difference.changed_pixels,
            announced_pixels: mul_u32(rect.width, rect.height),
            screen_pixels: mul_u32(width, height),
            resulting_frame_sha256: hash,
        };
        let ghost old_facts = self.facts@;
        self.facts.push(fact);
        assert(self.facts@.drop_last() =~= old_facts);
        self.frame = Some(next);
        Ok(Some(UpdateDetail { before, components }))
    }
}

impl TemporalAnalyzer {
    /// What replaying one display event keeps and adds, in short: the replay's invariant
    /// and bounds, the host time of its last frame, and, for a measured update, its fact
    /// and its detail.
    #[verifier::rlimit(50)]
    pub fn replay_display(&mut self, e: &EventRecord, bytes: &[u8]) -> (r: Result<Option<UpdateDetail>, TemporalError>)
        requires
            old(self).wf(),
            old(self).latest_ns() <= e.host_monotonic_ns,
            old(self).artifact_plan(*e) matches Ok(Some(_)),
            is_update(*e) ==> update_fits_frame(old(self).frame_view(), *e, bytes@.len(), old(self).start_ns),
        ensures
            final(self).wf(),
            final(self).start_ns == old(self).start_ns,
            final(self).end_ns == old(self).end_ns,
            final(self).settings == old(self).settings,
            r is Ok ==> final(self).latest_ns() == e.host_monotonic_ns && final(self).frame_view() is Some,
            r matches Ok(None) ==> final(self).facts@ == old(self).facts@,
            r matches Ok(Some(d)) ==> {
                let before = old(self).frame_view()->0;
                let after = final(self).frame_view()->0;
                &&& is_update(*e)
                &&& update_rect(*e) is Ok
                &&& old(self).frame_view() is Some
                &&& final(self).facts@.drop_last() == old(self).facts@
                &&& final(self).facts@.len() == old(self).facts@.len() + 1
                &&& fact_of(final(self).facts@.last(), *e, update_rect(*e)->Ok_0, before, after)
                &&& detail_of(d, before, after, old(self).settings.component_min_pixels)
                &&& after.width == before.width && after.height == before.height && after.stride == before.stride
            },
    {
        proof {
            reveal_strlit("display.scanout");
            reveal_strlit("display.update");
            assert("display.scanout"@.len() == 15);
            assert("display.update"@.len() == 14);
        }
        self.apply(e, bytes)
    }
}

fn mul_u32(a: u32, b: u32) -> (r: u64)
    ensures
        r == a * b,
{
    proof {
        assert(a * b <= 0xffff_ffffu64 * 0xffff_ffffu64) by (nonlinear_arith)
            requires
                a <= 0xffff_ffff,
                b <= 0xffff_ffff,
        ;
    }
    (a as u64) * (b as u64)
}

fn frame_rect_exec(b: PixelBounds) -> (r: Rect)
    ensures
        r == frame_rect(b),
{
    Rect { x: b.x as i32, y: b.y as i32, width: b.width as i32, height: b.height as i32 }
}

fn keep_large(all: Vec<Component>, min: u64) -> (r: Vec<Component>)
    ensures
        r@ == large_components(all@, min),
{
    let ghost original = all@;
    let ghost p = is_large(min);
    let mut rest = all;
    let mut out: Vec<Component> = Vec::new();
    let ghost mut k: int = 0;
    proof {
        reveal(Seq::filter);
        assert(original.take(0) =~= Seq::<Component>::empty());
        assert(original.skip(0) =~= original);
    }
    while rest.len() > 0
        invariant
            0 <= k <= original.len(),
            p == is_large(min),
            rest@ == original.skip(k),
            out@ == original.take(k).filter(p),
        decreases rest@.len(),
    {
        let c = rest.remove(0);
        proof {
            assert(original.take(k + 1) =~= original.take(k).push(c));
            original.take(k).lemma_filter_push(c, p);
            assert(rest@ =~= original.skip(k + 1));
            k = k + 1;
        }
        if c.pixels.len() as u64 >= min {
            out.push(c);
        }
    }
    assert(original.take(k) =~= original);
    out
}

proof fn lemma_nonnegative_cast(x: u32)
    ensures
        (x as i32) >= 0 ==> x <= 0x7fff_ffff,
        x <= 0x7fff_ffff ==> (x as i32) == x,
{
    assert((x as i32) >= 0 ==> x <= 0x7fff_ffff) by (bit_vector);
    assert(x <= 0x7fff_ffff ==> (x as i32) == x) by (bit_vector);
}

impl TemporalAnalyzer {
    /// Draws the observations from the replay and the events at `ordered` (the events
    /// recorded no later than the end, in timeline order): visual responses to input,
    /// the updates that only repainted the pointer (which answer no input and no network
    /// reply), repeated regions, reverted states, several states while the pointer was
    /// held, and display responses to network replies, in that order.
    pub fn finish(&self, events: &[EventRecord], ordered: &Vec<usize>) -> (r: Vec<TemporalObservation>)
        requires
            self.wf(),
            forall|k: int| 0 <= k < ordered@.len() ==> #[trigger] ordered@[k] < events@.len(),
        ensures
            observation_views(r@) == finish_spec(events@, ordered@, self.facts@, self.states@, self.start_ns, self.end_ns, self.settings),
    {
        let cursor = find_cursor_sources(events, ordered, self.facts.as_slice(), &self.settings);
        let mut out = derive_action_responses(events, ordered, self.facts.as_slice(), cursor.as_slice(), self.start_ns, self.end_ns, &self.settings);
        let mut cursor_only = derive_cursor_only_changes(events, self.facts.as_slice(), cursor.as_slice());
        let ghost a0 = out@;
        out.append(&mut cursor_only);
        let mut repeated = derive_repeated_regions(self.facts.as_slice(), &self.settings);
        let mut reverted = derive_state_reversions(self.states.as_slice(), self.start_ns, self.end_ns, &self.settings);
        let mut holds = derive_multiple_states(events, ordered, self.states.as_slice(), self.start_ns, self.end_ns);
        let mut network = derive_network_display_order(events, ordered, self.facts.as_slice(), cursor.as_slice(), self.start_ns, &self.settings);
        let ghost a = out@;
        out.append(&mut repeated);
        let ghost b = out@;
        out.append(&mut reverted);
        let ghost c = out@;
        out.append(&mut holds);
        let ghost d = out@;
        out.append(&mut network);
        proof {
            assert(observation_views(b) =~= observation_views(a) + observation_views(b.skip(a.len() as int)));
            assert(observation_views(a) =~= observation_views(a0) + cursor_observations(events@, self.facts@, cursor@));
            assert(observation_views(out@) =~= observation_views(a) + repeated_from(self.facts@, 0, self.settings)
                + reversions_spec(self.states@, self.start_ns, self.end_ns, self.settings)
                + holds_from(events@, ordered@.filter(input_probe(events@)), 0, self.states@, self.start_ns, self.end_ns)
                + network_spec(events@, ordered@, self.facts@, cursor@, self.start_ns, self.settings));
        }
        out
    }
}

/// The observations drawn from a replay's facts and frames and the events at `ordered`:
/// visual responses to input, cursor-only changes, repeated regions, reverted states,
/// several states while the pointer was held, and display responses to network replies.
pub open spec fn finish_spec(
    events: Seq<EventRecord>,
    ordered: Seq<usize>,
    facts: Seq<DisplayUpdateFact>,
    states: Seq<FrameState>,
    start_ns: u64,
    end_ns: u64,
    s: TemporalSettings,
) -> Seq<ObservationView> {
    let cursor = cursor_sources(events, ordered, facts, s);
    action_responses_spec(events, ordered, facts, cursor, start_ns, end_ns, s) + cursor_observations(events, facts, cursor)
        + repeated_from(facts, 0, s) + reversions_spec(states, start_ns, end_ns, s) + holds_from(
        events,
        ordered.filter(input_probe(events)),
        0,
        states,
        start_ns,
        end_ns,
    ) + network_spec(events, ordered, facts, cursor, start_ns, s)
}

/// Whether observation `a` sorts before `b`: by start, then end, then kind name.
pub open spec fn obs_key_lt(a: ObservationView, b: ObservationView) -> bool {
    ||| a.start_ns < b.start_ns
    ||| a.start_ns == b.start_ns && a.end_ns < b.end_ns
    ||| a.start_ns == b.start_ns && a.end_ns == b.end_ns && str_lt(a.kind.name_spec(), b.kind.name_spec())
}

/// Equal sort keys.
pub open spec fn obs_key_eq(a: ObservationView, b: ObservationView) -> bool {
    a.start_ns == b.start_ns && a.end_ns == b.end_ns && a.kind.name_spec() == b.kind.name_spec()
}

/// The order on positions of `v`: by key, and by position among equal keys (a stable
/// sort).
pub open spec fn obs_leq(v: Seq<ObservationView>) -> spec_fn(usize, usize) -> bool {
    |i: usize, j: usize| obs_key_lt(v[i as int], v[j as int]) || (obs_key_eq(v[i as int], v[j as int]) && i <= j)
}

/// The observations in stable order of start, end and kind name.
pub open spec fn sorted_observations(v: Seq<ObservationView>) -> Seq<ObservationView> {
    positions(v.len()).sort_by(obs_leq(v)).map_values(|i: usize| v[i as int])
}

pub proof fn lemma_obs_leq_total(v: Seq<ObservationView>)
    ensures
        total_ordering(obs_leq(v)),
{
    let leq = obs_leq(v);
    assert forall|i: usize| #[trigger] leq(i, i) by {}
    assert forall|i: usize, j: usize| #[trigger] leq(i, j) && #[trigger] leq(j, i) implies i == j by {
        let a = v[i as int].kind.name_spec();
        let b = v[j as int].kind.name_spec();
        if str_lt(a, b) {
            lemma_lt_asymmetric(a, b);
        }
        if str_lt(b, a) {
            lemma_lt_asymmetric(b, a);
        }
        lemma_lt_irreflexive(a);
    }
    assert forall|i: usize, j: usize, k: usize| #[trigger] leq(i, j) && #[trigger] leq(j, k) implies leq(i, k) by {
        let a = v[i as int].kind.name_spec();
        let b = v[j as int].kind.name_spec();
        let c = v[k as int].kind.name_spec();
        if str_lt(a, b) && str_lt(b, c) {
            lemma_lt_transitive(a, b, c);
        }
    }
    assert forall|i: usize, j: usize| #[trigger] leq(i, j) || #[trigger] leq(j, i) by {
        lemma_lt_total(v[i as int].kind.name_spec(), v[j as int].kind.name_spec());
    }
}

fn obs_before(a: &TemporalObservation, b: &TemporalObservation) -> (r: bool)
    ensures
        r == obs_key_lt(a@, b@),
{
    if a.start_ns != b.start_ns {
        return a.start_ns < b.start_ns;
    }
    if a.end_ns != b.end_ns {
        return a.end_ns < b.end_ns;
    }
    string_lt(a.kind.name(), b.kind.name())
}

fn copy_strings(v: &Vec<String>) -> (r: Vec<String>)
    ensures
        views(r@) == views(v@),
{
    let mut out: Vec<String> = Vec::new();
    for i in 0..v.len()
        invariant
            views(out@) == views(v@.take(i as int)),
    {
        let ghost prior = views(out@);
        let x = v[i].clone();
        out.push(x);
        assert(views(out@) =~= prior.push(x@));
        assert(v@.take(i + 1) =~= v@.take(i as int).push(v@[i as int]));
        assert(views(out@) =~= views(v@.take(i + 1)));
    }
    assert(v@.take(v@.len() as int) =~= v@);
    out
}

fn copy_detail(d: &ObservationDetail) -> (r: ObservationDetail)
    ensures
        r@ == d@,
{
    match d {
        ObservationDetail::VisualResponse { action_kind, latency_ns, delayed, changed_bounds } => ObservationDetail::VisualResponse {
            action_kind: action_kind.clone(),
            latency_ns: *latency_ns,
            delayed: *delayed,
            changed_bounds: *changed_bounds,
        },
        ObservationDetail::NoResponse { action_kind, waited_ms } => ObservationDetail::NoResponse { action_kind: action_kind.clone(), waited_ms: *waited_ms },
        ObservationDetail::RegionRepeated { update_count, region, maximum_inter_update_ms } => ObservationDetail::RegionRepeated {
            update_count: *update_count,
            region: *region,
            maximum_inter_update_ms: *maximum_inter_update_ms,
        },
        ObservationDetail::StateReverted { transient_duration_ns, restored_frame_sha256, transient_frame_sha256 } => ObservationDetail::StateReverted {
            transient_duration_ns: *transient_duration_ns,
            restored_frame_sha256: restored_frame_sha256.clone(),
            transient_frame_sha256: transient_frame_sha256.clone(),
        },
        ObservationDetail::MultipleStates { distinct_frame_count, display_event_count } => ObservationDetail::MultipleStates {
            distinct_frame_count: *distinct_frame_count,
            display_event_count: *display_event_count,
        },
        ObservationDetail::NetworkOrdered { latency_ns, network_status, changed_bounds } => ObservationDetail::NetworkOrdered {
            latency_ns: *latency_ns,
            network_status: match network_status {
                Some(x) => Some(x.clone()),
                None => None,
            },
            changed_bounds: *changed_bounds,
        },
        ObservationDetail::LargeRegion { changed_pixels, screen_pixels, changed_bounds } => ObservationDetail::LargeRegion {
            changed_pixels: *changed_pixels,
            screen_pixels: *screen_pixels,
            changed_bounds: *changed_bounds,
        },
        ObservationDetail::Translation { from_bounds, to_bounds, delta_x, delta_y, matched, comparable } => ObservationDetail::Translation {
            from_bounds: *from_bounds,
            to_bounds: *to_bounds,
            delta_x: *delta_x,
            delta_y: *delta_y,
            matched: *matched,
            comparable: *comparable,
        },
        ObservationDetail::CursorOnly { changed_pixels, changed_bounds, pointer_x, pointer_y } => ObservationDetail::CursorOnly {
            changed_pixels: *changed_pixels,
            changed_bounds: *changed_bounds,
            pointer_x: *pointer_x,
            pointer_y: *pointer_y,
        },
    }
}

fn copy_observation(o: &TemporalObservation) -> (r: TemporalObservation)
    ensures
        r@ == o@,
{
    TemporalObservation {
        kind: o.kind,
        start_ns: o.start_ns,
        end_ns: o.end_ns,
        supporting_event_ids: copy_strings(&o.supporting_event_ids),
        detail: copy_detail(&o.detail),
    }
}

/// Sorts observations by start, then end, then kind name, keeping the order of
/// observations with equal keys.
pub fn sort_observations(obs: &Vec<TemporalObservation>) -> (r: Vec<TemporalObservation>)
    ensures
        observation_views(r@) == sorted_observations(observation_views(obs@)),
{
    let n = obs.len();
    let ghost v = observation_views(obs@);
    let ghost leq = obs_leq(v);
    let mut order: Vec<usize> = Vec::new();
    proof {
        lemma_obs_leq_total(v);
        assert(order@ =~= positions(0));
    }
    for i in 0..n
        invariant
            n == obs@.len(),
            v == observation_views(obs@),
            leq == obs_leq(v),
            total_ordering(leq),
            order@.len() == i,
            forall|k: int| 0 <= k < order@.len() ==> order@[k] < i,
            sorted_by(order@, leq),
            order@.to_multiset() == positions(i as nat).to_multiset(),
    {
        let mut p: usize = order.len();
        while p > 0 && obs_before(&obs[i], &obs[order[p - 1]])
            invariant
                p <= order@.len(),
                n == obs@.len(),
                i < n,
                v == observation_views(obs@),
                forall|k: int| 0 <= k < order@.len() ==> order@[k] < i,
                forall|k: int| p <= k < order@.len() ==> obs_key_lt(v[i as int], v[order@[k] as int]),
                sorted_by(order@, leq),
                leq == obs_leq(v),
                total_ordering(leq),
            decreases p,
        {
            p = p - 1;
        }
        let ghost before = order@;
        proof {
            if p > 0 {
                let q = before[p - 1];
                assert(!obs_key_lt(v[i as int], v[q as int]));
                assert(leq(q, i as usize)) by {
                    lemma_lt_total(v[i as int].kind.name_spec(), v[q as int].kind.name_spec());
                }
            }
        }
        order.insert(p, i);
        proof {
            broadcast use vstd::seq_lib::group_to_multiset_ensures;
            assert(order@ == before.insert(p as int, i));
            assert(positions((i + 1) as nat) =~= positions(i as nat).push(i));
            assert forall|a: int, b: int| 0 <= a < b < order@.len() implies #[trigger] leq(order@[a], order@[b]) by {
                if b < p {
                    assert(leq(before[a], before[b]));
                } else if a > p {
                    assert(leq(before[a - 1], before[b - 1]));
                } else if a == p {
                    assert(order@[b] == before[b - 1]);
                    assert(obs_key_lt(v[i as int], v[before[b - 1] as int]));
                } else {
                    assert(order@[a] == before[a]);
                    if b == p {
                        if a < p - 1 {
                            assert(leq(before[a], before[p - 1]));
                        }
                    } else {
                        assert(order@[b] == before[b - 1]);
                        assert(leq(before[a], before[b - 1]));
                    }
                }
            }
        }
    }
    proof {
        let s = positions(n as nat);
        s.lemma_sort_by_ensures(leq);
        vstd::seq_lib::lemma_sorted_unique(order@, s.sort_by(leq), leq);
    }
    let mut out: Vec<TemporalObservation> = Vec::new();
    for k in 0..n
        invariant
            n == obs@.len(),
            v == observation_views(obs@),
            order@.len() == n,
            forall|j: int| 0 <= j < order@.len() ==> order@[j] < n,
            observation_views(out@) == order@.take(k as int).map_values(|i: usize| v[i as int]),
    {
        let o = copy_observation(&obs[order[k]]);
        let ghost prior = observation_views(out@);
        out.push(o);
        assert(observation_views(out@) =~= prior.push(v[order@[k as int] as int]));
        assert(order@.take(k + 1).map_values(|i: usize| v[i as int]) =~= order@.take(k as int).map_values(|i: usize| v[i as int]).push(v[order@[k as int] as int]));
    }
    assert(order@.take(n as int) =~= order@);
    out
}

/// How many pixels of `pixels` land inside the frame `after` when moved by
/// `(dx, dy)`, and how many of those show, in `after`, the pixel they showed in
/// `before`.
pub open spec fn translation_spec(before: FrameView, after: FrameView, pixels: Seq<(u32, u32)>, dx: int, dy: int) -> (nat, nat)
    decreases pixels.len(),
{
    if pixels.len() == 0 {
        (0, 0)
    } else {
        let (matched, comparable) = translation_spec(before, after, pixels.drop_last(), dx, dy);
        let p = pixels.last();
        let tx = p.0 + dx;
        let ty = p.1 + dy;
        if tx < 0 || ty < 0 || tx >= after.width || ty >= after.height {
            (matched, comparable)
        } else if pixel_bytes(before, p.0 as int, p.1 as int) == pixel_bytes(after, tx, ty) {
            (matched + 1, comparable + 1)
        } else {
            (matched, comparable + 1)
        }
    }
}

/// Counts, for a translation by `(dx, dy)`, the pixels of `pixels` that land inside
/// `after` and those that match there; the pixels must lie inside `before`.
pub fn translation_counts(before: &Framebuffer, after: &Framebuffer, pixels: &Vec<(u32, u32)>, dx: i64, dy: i64) -> (r: (u64, u64))
    requires
        before.inv(),
        after.inv(),
        rows_fit(before.view()),
        rows_fit(after.view()),
        -0x1_0000_0000 < dx < 0x1_0000_0000,
        -0x1_0000_0000 < dy < 0x1_0000_0000,
        forall|k: int| 0 <= k < pixels@.len() ==> (#[trigger] pixels@[k]).0 < before.view().width && pixels@[k].1 < before.view().height,
    ensures
        r.0 == translation_spec(before.view(), after.view(), pixels@, dx as int, dy as int).0,
        r.1 == translation_spec(before.view(), after.view(), pixels@, dx as int, dy as int).1,
{
    let bw = before.width() as i64;
    let aw = after.width() as i64;
    let ah = after.height() as i64;
    let b_stride = before.stride() as usize;
    let a_stride = after.stride() as usize;
    let a = after.bytes();
    let b = before.bytes();
    let b_height = before.height() as usize;
    let a_height = after.height() as usize;
    let a_len = a.len();
    let b_len = b.len();
    let ghost bv = before.view();
    let ghost av = after.view();
    let mut matched: u64 = 0;
    let mut comparable: u64 = 0;
    let mut k: usize = 0;
    assert(pixels@.take(0) =~= Seq::<(u32, u32)>::empty());
    while k < pixels.len()
        invariant
            bv == before.view(),
            av == after.view(),
            Framebuffer::shape_ok(bv),
            Framebuffer::shape_ok(av),
            rows_fit(bv),
            rows_fit(av),
            a@ == av.data,
            b@ == bv.data,
            aw == av.width,
            ah == av.height,
            a_stride == av.stride,
            b_stride == bv.stride,
            b_height == bv.height,
            a_height == av.height,
            -0x1_0000_0000 < dx < 0x1_0000_0000,
            -0x1_0000_0000 < dy < 0x1_0000_0000,
            k <= pixels@.len(),
            forall|j: int| 0 <= j < pixels@.len() ==> (#[trigger] pixels@[j]).0 < bv.width && pixels@[j].1 < bv.height,
            comparable <= k,
            matched <= comparable,
            a_len == a@.len(),
            b_len == b@.len(),
            matched == translation_spec(bv, av, pixels@.take(k as int), dx as int, dy as int).0,
            comparable == translation_spec(bv, av, pixels@.take(k as int), dx as int, dy as int).1,
        decreases pixels@.len() - k,
    {
        let (x, y) = pixels[k];
        let tx = x as i64 + dx;
        let ty = y as i64 + dy;
        proof {
            assert(pixels@.take(k + 1).drop_last() =~= pixels@.take(k as int));
            assert(pixels@.take(k + 1).last() == pixels@[k as int]);
        }
        if !(tx < 0 || ty < 0 || tx >= aw || ty >= ah) {
            proof {
                crate::temporal::lemma_pixel_in_frame(y as int, x as int, b_height as int, bv.width as int, b_stride as int);
                crate::temporal::lemma_pixel_in_frame(ty as int, tx as int, a_height as int, av.width as int, a_stride as int);
            }
            let b_off = (y as usize) * b_stride + 4 * (x as usize);
            let a_off = (ty as usize) * a_stride + 4 * (tx as usize);
            comparable = comparable + 1;
            if crate::temporal::same_pixel(b, b_off, a, a_off) {
                matched = matched + 1;
            }
        }
        k = k + 1;
    }
    assert(pixels@.take(k as int) =~= pixels@);
    (matched, comparable)
}

} // verus!
