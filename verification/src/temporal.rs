//! Temporal facts derived from recorded display and input events: which pixels a display
//! update changed, and the generic observations drawn from the timeline (visual
//! responses to input and their absence, repeated updates of a region, reverted states,
//! several states while the pointer was held, and display responses to network replies).
use vstd::prelude::*;
use vstd::arithmetic::div_mod::lemma_fundamental_div_mod_converse;
use crate::framebuffer::{rows_fit, FrameView, Framebuffer};
use crate::regions::PixelBounds;
use crate::text::{push_str, views};

verus! {

/// The four bytes of the pixel at column `x` and row `y`.
pub open spec fn pixel_bytes(f: FrameView, x: int, y: int) -> Seq<u8> {
    f.data.subrange(y * f.stride + 4 * x, y * f.stride + 4 * x + 4)
}

/// Which pixels, in row-major order, differ between two frames of the width of `a`.
pub open spec fn change_mask(a: FrameView, b: FrameView) -> Seq<bool> {
    Seq::new(
        a.width * a.height,
        |i: int| pixel_bytes(a, i % (a.width as int), i / (a.width as int)) != pixel_bytes(b, i % (a.width as int), i / (a.width as int)),
    )
}

/// The number of set entries.
pub open spec fn count_true(s: Seq<bool>) -> nat
    decreases s.len(),
{
    if s.len() == 0 {
        0
    } else {
        count_true(s.drop_last()) + if s.last() {
            1nat
        } else {
            0nat
        }
    }
}

/// The smallest rectangle holding every set position of a row-major mask `w` wide.
pub open spec fn is_mask_bbox(mask: Seq<bool>, w: int, b: PixelBounds) -> bool {
    &&& forall|i: int| 0 <= i < mask.len() && #[trigger] mask[i] ==> {
        &&& b.x <= i % w < b.x + b.width
        &&& b.y <= i / w < b.y + b.height
    }
    &&& exists|i: int| 0 <= i < mask.len() && #[trigger] mask[i] && i % w == b.x
    &&& exists|i: int| 0 <= i < mask.len() && #[trigger] mask[i] && i % w == b.x + b.width - 1
    &&& exists|i: int| 0 <= i < mask.len() && #[trigger] mask[i] && i / w == b.y
    &&& exists|i: int| 0 <= i < mask.len() && #[trigger] mask[i] && i / w == b.y + b.height - 1
}

/// How two frames of the same size differ.
pub struct Difference {
    /// Which pixels changed, row by row.
    pub mask: Vec<bool>,
    /// How many pixels changed.
    pub changed_pixels: u64,
    /// The smallest rectangle holding the changed pixels, when any changed.
    pub bounds: Option<PixelBounds>,
}

pub fn same_pixel(a: &[u8], i: usize, b: &[u8], j: usize) -> (r: bool)
    requires
        i + 4 <= a@.len(),
        j + 4 <= b@.len(),
    ensures
        r == (a@.subrange(i as int, i + 4) == b@.subrange(j as int, j + 4)),
{
    let r = a[i] == b[j] && a[i + 1] == b[j + 1] && a[i + 2] == b[j + 2] && a[i + 3] == b[j + 3];
    proof {
        if r {
            assert(a@.subrange(i as int, i + 4) =~= b@.subrange(j as int, j + 4));
        } else {
            if a@.subrange(i as int, i + 4) == b@.subrange(j as int, j + 4) {
                assert(a@.subrange(i as int, i + 4)[0] == b@.subrange(j as int, j + 4)[0]);
                assert(a@.subrange(i as int, i + 4)[1] == b@.subrange(j as int, j + 4)[1]);
                assert(a@.subrange(i as int, i + 4)[2] == b@.subrange(j as int, j + 4)[2]);
                assert(a@.subrange(i as int, i + 4)[3] == b@.subrange(j as int, j + 4)[3]);
            }
        }
    }
    r
}

pub proof fn lemma_pixel_in_frame(y: int, x: int, h: int, w: int, stride: int)
    requires
        0 <= y < h,
        0 <= x < w,
        stride >= 4 * w,
    ensures
        0 <= y * stride + 4 * x,
        y * stride + 4 * x + 4 <= stride * h,
{
    assert(y * stride + 4 * x + 4 <= stride * h) by (nonlinear_arith)
        requires
            0 <= y < h,
            0 <= x < w,
            stride >= 4 * w,
    ;
    assert(0 <= y * stride) by (nonlinear_arith)
        requires
            0 <= y,
            stride >= 0,
    ;
}

/// The pixels that changed between two frames of the same size, how many, and the
/// rectangle that holds them. `None` when the frames differ in size: only a scanout may
/// change the size.
pub fn pixel_difference(before: &Framebuffer, after: &Framebuffer) -> (r: Option<Difference>)
    requires
        before.inv(),
        after.inv(),
        before.view().width == after.view().width && before.view().height == after.view().height
            ==> rows_fit(before.view()) && rows_fit(after.view()),
    ensures
        (before.view().width != after.view().width || before.view().height != after.view().height) ==> r is None,
        (before.view().width == after.view().width && before.view().height == after.view().height) ==> (r matches Some(d) && {
            &&& d.mask@ == change_mask(before.view(), after.view())
            &&& d.changed_pixels == count_true(d.mask@)
            &&& (d.bounds is None <==> d.changed_pixels == 0)
            &&& (d.bounds matches Some(b) ==> is_mask_bbox(d.mask@, before.view().width as int, b))
        }),
{
    let width = before.width();
    let height = before.height();
    if width != after.width() || height != after.height() {
        return None;
    }
    let ghost av = before.view();
    let ghost bv = after.view();
    let ghost w = width as int;
    let a_stride = before.stride() as usize;
    let b_stride = after.stride() as usize;
    let a = before.bytes();
    let b = after.bytes();
    let w_us = width as usize;
    let h_us = height as usize;
    let a_len = a.len();
    let b_len = b.len();
    proof {
        assert(w * (height as int) <= a@.len()) by (nonlinear_arith)
            requires
                a@.len() == av.stride * av.height,
                av.stride >= 4 * av.width,
                w == av.width,
                height == av.height,
        ;
    }
    let n = w_us * h_us;
    let mut mask: Vec<bool> = Vec::new();
    let mut count: u64 = 0;
    let mut min_x: u32 = u32::MAX;
    let mut min_y: u32 = u32::MAX;
    let mut max_x: u32 = 0;
    let mut max_y: u32 = 0;
    let ghost mut wx0: int = 0;
    let ghost mut wx1: int = 0;
    let ghost mut wy0: int = 0;
    let ghost mut wy1: int = 0;
    let mut x: usize = 0;
    let mut y: usize = 0;
    let mut i: usize = 0;
    while i < n
        invariant
            av == before.view(),
            bv == after.view(),
            Framebuffer::shape_ok(av),
            Framebuffer::shape_ok(bv),
            rows_fit(av),
            rows_fit(bv),
            a@ == av.data,
            b@ == bv.data,
            a_stride == av.stride,
            b_stride == bv.stride,
            w == av.width,
            w_us == av.width,
            h_us == av.height,
            bv.width == av.width,
            bv.height == av.height,
            n == w_us * h_us,
            a_len == a@.len(),
            b_len == b@.len(),
            w <= u32::MAX,
            h_us <= u32::MAX,
            i <= n,
            i == y * w_us + x,
            x < w_us,
            mask@.len() == i,
            forall|k: int| 0 <= k < i ==> mask@[k] == change_mask(av, bv)[k],
            count == count_true(mask@),
            count <= i,
            count == 0 ==> min_x == u32::MAX && min_y == u32::MAX && max_x == 0 && max_y == 0,
            count == 0 ==> forall|k: int| 0 <= k < i ==> !mask@[k],
            count > 0 ==> max_x < w && max_y < h_us,
            count > 0 ==> {
                &&& min_x <= max_x
                &&& min_y <= max_y
                &&& forall|k: int| 0 <= k < i && #[trigger] mask@[k] ==> min_x <= k % w <= max_x && min_y <= k / w <= max_y
                &&& 0 <= wx0 < i && mask@[wx0] && wx0 % w == min_x
                &&& 0 <= wx1 < i && mask@[wx1] && wx1 % w == max_x
                &&& 0 <= wy0 < i && mask@[wy0] && wy0 / w == min_y
                &&& 0 <= wy1 < i && mask@[wy1] && wy1 / w == max_y
            },
        decreases n - i,
    {
        proof {
            lemma_fundamental_div_mod_converse(i as int, w, y as int, x as int);
            assert(y < h_us) by (nonlinear_arith)
                requires
                    i == y * w_us + x,
                    i < w_us * h_us,
                    x < w_us,
            ;
            lemma_pixel_in_frame(y as int, x as int, h_us as int, w, a_stride as int);
            lemma_pixel_in_frame(y as int, x as int, h_us as int, w, b_stride as int);
        }
        proof {
            assert(a_len == a_stride * h_us);
            assert(b_len == b_stride * h_us);
        }
        let a_off = y * a_stride + 4 * x;
        let b_off = y * b_stride + 4 * x;
        let changed = !same_pixel(a, a_off, b, b_off);
        let ghost before_mask = mask@;
        mask.push(changed);
        proof {
            assert(mask@.drop_last() =~= before_mask);
            assert(change_mask(av, bv)[i as int] == changed);
        }
        if changed {
            count = count + 1;
            let xu = x as u32;
            let yu = y as u32;
            if xu < min_x {
                min_x = xu;
                proof { wx0 = i as int; }
            }
            if xu >= max_x {
                max_x = xu;
                proof { wx1 = i as int; }
            }
            if yu < min_y {
                min_y = yu;
                proof { wy0 = i as int; }
            }
            if yu >= max_y {
                max_y = yu;
                proof { wy1 = i as int; }
            }
        }
        i = i + 1;
        x = x + 1;
        if x == w_us {
            x = 0;
            y = y + 1;
            proof {
                assert(i == y * w_us + x) by (nonlinear_arith)
                    requires
                        i == (y - 1) * w_us + w_us,
                        x == 0,
                ;
            }
        }
    }
    let bounds = if count == 0 {
        None
    } else {
        Some(PixelBounds { x: min_x, y: min_y, width: max_x - min_x + 1, height: max_y - min_y + 1 })
    };
    proof {
        assert(mask@ =~= change_mask(av, bv));
        if let Some(bb) = bounds {
            assert(mask@[wx0] && wx0 % w == bb.x);
            assert(mask@[wx1] && wx1 % w == bb.x + bb.width - 1);
            assert(mask@[wy0] && wy0 / w == bb.y);
            assert(mask@[wy1] && wy1 / w == bb.y + bb.height - 1);
        }
    }
    Some(Difference { mask, changed_pixels: count, bounds })
}


/// The thresholds of temporal analysis. Ratios are in thousandths.
#[derive(Clone, Copy, Debug, PartialEq, Eq, Structural)]
pub struct TemporalSettings {
    pub response_window_ms: u64,
    pub delayed_response_ms: u64,
    pub repeated_region_window_ms: u64,
    pub repeated_region_min_updates: usize,
    pub flicker_window_ms: u64,
    /// The share of the screen, in thousandths, from which an update's change is large.
    pub large_changed_screen_permille: u64,
    /// The shortest displacement, in pixels, of a translation.
    pub motion_min_distance_px: u64,
    /// The share of a component's comparable pixels, in thousandths, that a translation
    /// must match.
    pub motion_min_match_permille: u64,
    pub component_min_pixels: u64,
}

impl Default for TemporalSettings {
    fn default() -> (r: Self)
        ensures
            r == (TemporalSettings {
                response_window_ms: 1000,
                delayed_response_ms: 200,
                repeated_region_window_ms: 300,
                repeated_region_min_updates: 3,
                flicker_window_ms: 300,
                large_changed_screen_permille: 200,
                motion_min_distance_px: 24,
                motion_min_match_permille: 700,
                component_min_pixels: 4,
            }),
    {
        TemporalSettings {
            response_window_ms: 1000,
            delayed_response_ms: 200,
            repeated_region_window_ms: 300,
            repeated_region_min_updates: 3,
            flicker_window_ms: 300,
            large_changed_screen_permille: 200,
            motion_min_distance_px: 24,
            motion_min_match_permille: 700,
            component_min_pixels: 4,
        }
    }
}

/// Why temporal analysis stopped.
#[derive(Debug, PartialEq, Eq)]
pub enum TemporalError {
    StartAfterEnd,
    WindowNotPositive,
    DelayExceedsWindow,
    RepeatMinimumTooSmall,
    LargeRatioOutOfRange,
    MatchRatioOutOfRange,
    /// A display event of this kind names no framebuffer artifact.
    NoFramebufferArtifact { kind: String },
    /// A display event of this kind has no unsigned field of this name.
    NoUnsignedField { kind: String, name: &'static str },
    /// The field of this name does not fit 32 bits.
    FieldExceedsU32 { name: &'static str },
    NoPrecedingScanout,
    NoRectangle,
    /// The update rectangle has no signed field of this name.
    NoSignedRectField { name: &'static str },
    /// The update rectangle's field of this name is negative or too large.
    NegativeRectField { name: &'static str },
    EmptyRectangle,
    DimensionsChanged,
    Frame(crate::framebuffer::FrameError),
    /// The framebuffer artifact of this reference was not supplied.
    ArtifactUnavailable { reference: String },
    /// A frame whose rows are longer than its stride cannot take an update.
    FrameRowsBeyondStride,
}

impl TemporalError {
    /// The human-readable description of the error.
    pub open spec fn text(&self) -> Seq<char> {
        match self {
            TemporalError::StartAfterEnd => "temporal analysis start exceeds end"@,
            TemporalError::WindowNotPositive => "response window must be positive"@,
            TemporalError::DelayExceedsWindow => "delayed response threshold exceeds response window"@,
            TemporalError::RepeatMinimumTooSmall => "repeated region minimum must be at least two"@,
            TemporalError::LargeRatioOutOfRange => "large changed-screen ratio must be between zero and one"@,
            TemporalError::MatchRatioOutOfRange => "motion match ratio must be between zero and one"@,
            TemporalError::NoFramebufferArtifact { kind } => kind@ + " has no framebuffer artifact"@,
            TemporalError::NoUnsignedField { kind, name } => kind@ + " has no unsigned "@ + name@,
            TemporalError::FieldExceedsU32 { name } => name@ + " exceeds u32"@,
            TemporalError::NoPrecedingScanout => "display update has no preceding scanout"@,
            TemporalError::NoRectangle => "display update has no rectangle"@,
            TemporalError::NoSignedRectField { name } => "display update rectangle has no signed "@ + name@,
            TemporalError::NegativeRectField { name } => "display update rectangle "@ + name@ + " is negative"@,
            TemporalError::EmptyRectangle => "empty display update rectangle"@,
            TemporalError::DimensionsChanged => "frame dimensions changed without a scanout"@,
            TemporalError::Frame(e) => e.text(),
            TemporalError::ArtifactUnavailable { reference } => "framebuffer artifact "@ + reference@ + " is unavailable"@,
            TemporalError::FrameRowsBeyondStride => "frame rows exceed the frame stride"@,
        }
    }

    /// Renders the description of the error.
    pub fn message(&self) -> (r: String)
        ensures
            r@ == self.text(),
    {
        let mut s = String::new();
        match self {
            TemporalError::StartAfterEnd => push_str(&mut s, "temporal analysis start exceeds end"),
            TemporalError::WindowNotPositive => push_str(&mut s, "response window must be positive"),
            TemporalError::DelayExceedsWindow => push_str(&mut s, "delayed response threshold exceeds response window"),
            TemporalError::RepeatMinimumTooSmall => push_str(&mut s, "repeated region minimum must be at least two"),
            TemporalError::LargeRatioOutOfRange => push_str(&mut s, "large changed-screen ratio must be between zero and one"),
            TemporalError::MatchRatioOutOfRange => push_str(&mut s, "motion match ratio must be between zero and one"),
            TemporalError::NoFramebufferArtifact { kind } => {
                push_str(&mut s, kind.as_str());
                push_str(&mut s, " has no framebuffer artifact");
            },
            TemporalError::NoUnsignedField { kind, name } => {
                push_str(&mut s, kind.as_str());
                push_str(&mut s, " has no unsigned ");
                push_str(&mut s, name);
            },
            TemporalError::FieldExceedsU32 { name } => {
                push_str(&mut s, name);
                push_str(&mut s, " exceeds u32");
            },
            TemporalError::NoPrecedingScanout => push_str(&mut s, "display update has no preceding scanout"),
            TemporalError::NoRectangle => push_str(&mut s, "display update has no rectangle"),
            TemporalError::NoSignedRectField { name } => {
                push_str(&mut s, "display update rectangle has no signed ");
                push_str(&mut s, name);
            },
            TemporalError::NegativeRectField { name } => {
                push_str(&mut s, "display update rectangle ");
                push_str(&mut s, name);
                push_str(&mut s, " is negative");
            },
            TemporalError::EmptyRectangle => push_str(&mut s, "empty display update rectangle"),
            TemporalError::DimensionsChanged => push_str(&mut s, "frame dimensions changed without a scanout"),
            TemporalError::Frame(e) => {
                let m = e.message();
                push_str(&mut s, m.as_str());
            },
            TemporalError::ArtifactUnavailable { reference } => {
                push_str(&mut s, "framebuffer artifact ");
                push_str(&mut s, reference.as_str());
                push_str(&mut s, " is unavailable");
            },
            TemporalError::FrameRowsBeyondStride => push_str(&mut s, "frame rows exceed the frame stride"),
        }
        s
    }
}

impl TemporalSettings {
    /// The first rule that the settings break, if any: a positive response window, a
    /// delay threshold within it, a repetition minimum of at least two, and ratios
    /// between zero and one.
    pub open spec fn fault(&self) -> Option<TemporalError> {
        if self.response_window_ms == 0 {
            Some(TemporalError::WindowNotPositive)
        } else if self.delayed_response_ms > self.response_window_ms {
            Some(TemporalError::DelayExceedsWindow)
        } else if self.repeated_region_min_updates < 2 {
            Some(TemporalError::RepeatMinimumTooSmall)
        } else if self.large_changed_screen_permille > 1000 {
            Some(TemporalError::LargeRatioOutOfRange)
        } else if self.motion_min_match_permille > 1000 {
            Some(TemporalError::MatchRatioOutOfRange)
        } else {
            None
        }
    }

    /// Checks the settings.
    pub fn validate(&self) -> (r: Result<(), TemporalError>)
        ensures
            match self.fault() {
                Some(e) => r == Err::<(), TemporalError>(e),
                None => r == Ok::<(), TemporalError>(()),
            },
    {
        if self.response_window_ms == 0 {
            Err(TemporalError::WindowNotPositive)
        } else if self.delayed_response_ms > self.response_window_ms {
            Err(TemporalError::DelayExceedsWindow)
        } else if self.repeated_region_min_updates < 2 {
            Err(TemporalError::RepeatMinimumTooSmall)
        } else if self.large_changed_screen_permille > 1000 {
            Err(TemporalError::LargeRatioOutOfRange)
        } else if self.motion_min_match_permille > 1000 {
            Err(TemporalError::MatchRatioOutOfRange)
        } else {
            Ok(())
        }
    }
}

/// What one display update changed.
#[derive(Clone, Debug)]
pub struct DisplayUpdateFact {
    pub event_id: String,
    pub host_monotonic_ns: u64,
    pub announced_rect: PixelBounds,
    pub changed_bounds: Option<PixelBounds>,
    pub changed_pixels: u64,
    pub announced_pixels: u64,
    pub screen_pixels: u64,
    pub resulting_frame_sha256: String,
}

/// The frame after a display event.
#[derive(Clone, Debug)]
pub struct FrameState {
    pub event_id: String,
    pub timestamp: u64,
    pub hash: String,
}

/// The kinds of temporal observation.
#[derive(Clone, Copy, Debug, PartialEq, Eq, Structural)]
pub enum ObservationKind {
    VisualResponse,
    NoDisplayResponse,
    PointerMoveWithoutDisplayResponse,
    RegionUpdatedRepeatedly,
    StateReverted,
    MultipleVisualStatesWhilePointerDown,
    VisualResponseAfterNetworkResponse,
    LargeRegionChanged,
    PixelTranslationDetected,
    CursorOnlyChange,
}

impl ObservationKind {
    /// The name of the kind.
    pub open spec fn name_spec(&self) -> Seq<char> {
        match *self {
            ObservationKind::VisualResponse => "input.visual_response"@,
            ObservationKind::NoDisplayResponse => "input.no_display_response"@,
            ObservationKind::PointerMoveWithoutDisplayResponse => "input.pointer_move_without_display_response"@,
            ObservationKind::RegionUpdatedRepeatedly => "display.region_updated_repeatedly"@,
            ObservationKind::StateReverted => "display.state_reverted"@,
            ObservationKind::MultipleVisualStatesWhilePointerDown => "input.multiple_visual_states_while_pointer_down"@,
            ObservationKind::VisualResponseAfterNetworkResponse => "display.visual_response_after_network_response"@,
            ObservationKind::LargeRegionChanged => "display.large_region_changed"@,
            ObservationKind::PixelTranslationDetected => "display.pixel_translation_detected"@,
            ObservationKind::CursorOnlyChange => "display.cursor_only_change"@,
        }
    }

    /// The name of the kind.
    pub fn name(&self) -> (r: &'static str)
        ensures
            r@ == self.name_spec(),
    {
        match *self {
            ObservationKind::VisualResponse => "input.visual_response",
            ObservationKind::NoDisplayResponse => "input.no_display_response",
            ObservationKind::PointerMoveWithoutDisplayResponse => "input.pointer_move_without_display_response",
            ObservationKind::RegionUpdatedRepeatedly => "display.region_updated_repeatedly",
            ObservationKind::StateReverted => "display.state_reverted",
            ObservationKind::MultipleVisualStatesWhilePointerDown => "input.multiple_visual_states_while_pointer_down",
            ObservationKind::VisualResponseAfterNetworkResponse => "display.visual_response_after_network_response",
            ObservationKind::LargeRegionChanged => "display.large_region_changed",
            ObservationKind::PixelTranslationDetected => "display.pixel_translation_detected",
            ObservationKind::CursorOnlyChange => "display.cursor_only_change",
        }
    }
}

/// What an observation reports, by kind.
#[derive(Clone, Debug)]
pub enum ObservationDetail {
    VisualResponse { action_kind: String, latency_ns: u64, delayed: bool, changed_bounds: Option<PixelBounds> },
    NoResponse { action_kind: String, waited_ms: u64 },
    RegionRepeated { update_count: usize, region: PixelBounds, maximum_inter_update_ms: u64 },
    StateReverted { transient_duration_ns: u64, restored_frame_sha256: String, transient_frame_sha256: String },
    MultipleStates { distinct_frame_count: usize, display_event_count: usize },
    NetworkOrdered { latency_ns: u64, network_status: Option<String>, changed_bounds: Option<PixelBounds> },
    LargeRegion { changed_pixels: u64, screen_pixels: u64, changed_bounds: Option<PixelBounds> },
    Translation { from_bounds: PixelBounds, to_bounds: PixelBounds, delta_x: i64, delta_y: i64, matched: u64, comparable: u64 },
    CursorOnly { changed_pixels: u64, changed_bounds: Option<PixelBounds>, pointer_x: u64, pointer_y: u64 },
}

/// A temporal observation over an interval of host time.
#[derive(Clone, Debug)]
pub struct TemporalObservation {
    pub kind: ObservationKind,
    pub start_ns: u64,
    pub end_ns: u64,
    pub supporting_event_ids: Vec<String>,
    pub detail: ObservationDetail,
}

/// The abstract content of an observation's detail.
pub enum DetailView {
    VisualResponse { action_kind: Seq<char>, latency_ns: u64, delayed: bool, changed_bounds: Option<PixelBounds> },
    NoResponse { action_kind: Seq<char>, waited_ms: u64 },
    RegionRepeated { update_count: nat, region: PixelBounds, maximum_inter_update_ms: u64 },
    StateReverted { transient_duration_ns: u64, restored_frame_sha256: Seq<char>, transient_frame_sha256: Seq<char> },
    MultipleStates { distinct_frame_count: nat, display_event_count: nat },
    NetworkOrdered { latency_ns: u64, network_status: Option<Seq<char>>, changed_bounds: Option<PixelBounds> },
    LargeRegion { changed_pixels: u64, screen_pixels: u64, changed_bounds: Option<PixelBounds> },
    Translation { from_bounds: PixelBounds, to_bounds: PixelBounds, delta_x: i64, delta_y: i64, matched: u64, comparable: u64 },
    CursorOnly { changed_pixels: u64, changed_bounds: Option<PixelBounds>, pointer_x: u64, pointer_y: u64 },
}

/// The abstract content of an observation.
pub struct ObservationView {
    pub kind: ObservationKind,
    pub start_ns: u64,
    pub end_ns: u64,
    pub supporting_event_ids: Seq<Seq<char>>,
    pub detail: DetailView,
}

/// The text of an optional string.
pub open spec fn text_of(o: Option<String>) -> Option<Seq<char>> {
    match o {
        Some(s) => Some(s@),
        None => None,
    }
}

impl View for ObservationDetail {
    type V = DetailView;

    open spec fn view(&self) -> DetailView {
        match self {
            ObservationDetail::VisualResponse { action_kind, latency_ns, delayed, changed_bounds } => DetailView::VisualResponse {
                action_kind: action_kind@,
                latency_ns: *latency_ns,
                delayed: *delayed,
                changed_bounds: *changed_bounds,
            },
            ObservationDetail::NoResponse { action_kind, waited_ms } => DetailView::NoResponse { action_kind: action_kind@, waited_ms: *waited_ms },
            ObservationDetail::RegionRepeated { update_count, region, maximum_inter_update_ms } => DetailView::RegionRepeated {
                update_count: *update_count as nat,
                region: *region,
                maximum_inter_update_ms: *maximum_inter_update_ms,
            },
            ObservationDetail::StateReverted { transient_duration_ns, restored_frame_sha256, transient_frame_sha256 } => DetailView::StateReverted {
                transient_duration_ns: *transient_duration_ns,
                restored_frame_sha256: restored_frame_sha256@,
                transient_frame_sha256: transient_frame_sha256@,
            },
            ObservationDetail::MultipleStates { distinct_frame_count, display_event_count } => DetailView::MultipleStates {
                distinct_frame_count: *distinct_frame_count as nat,
                display_event_count: *display_event_count as nat,
            },
            ObservationDetail::NetworkOrdered { latency_ns, network_status, changed_bounds } => DetailView::NetworkOrdered {
                latency_ns: *latency_ns,
                network_status: text_of(*network_status),
                changed_bounds: *changed_bounds,
            },
            ObservationDetail::LargeRegion { changed_pixels, screen_pixels, changed_bounds } => DetailView::LargeRegion {
                changed_pixels: *changed_pixels,
                screen_pixels: *screen_pixels,
                changed_bounds: *changed_bounds,
            },
            ObservationDetail::Translation { from_bounds, to_bounds, delta_x, delta_y, matched, comparable } => DetailView::Translation {
                from_bounds: *from_bounds,
                to_bounds: *to_bounds,
                delta_x: *delta_x,
                delta_y: *delta_y,
                matched: *matched,
                comparable: *comparable,
            },
            ObservationDetail::CursorOnly { changed_pixels, changed_bounds, pointer_x, pointer_y } => DetailView::CursorOnly {
                changed_pixels: *changed_pixels,
                changed_bounds: *changed_bounds,
                pointer_x: *pointer_x,
                pointer_y: *pointer_y,
            },
        }
    }
}

impl View for TemporalObservation {
    type V = ObservationView;

    open spec fn view(&self) -> ObservationView {
        ObservationView {
            kind: self.kind,
            start_ns: self.start_ns,
            end_ns: self.end_ns,
            supporting_event_ids: views(self.supporting_event_ids@),
            detail: self.detail@,
        }
    }
}

/// The abstract content of a list of observations.
pub open spec fn observation_views(v: Seq<TemporalObservation>) -> Seq<ObservationView> {
    v.map_values(|o: TemporalObservation| o@)
}

} // verus!
