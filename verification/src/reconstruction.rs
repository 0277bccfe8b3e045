//! Rebuilding the guest's framebuffer at a moment of the timeline: the display events
//! recorded up to then are replayed in timeline order, each scanout replacing the frame
//! and each update copied into it, and every recorded frame hash is checked on the way.
//! Reading the framebuffer artifacts is the caller's.
use vstd::prelude::*;
use crate::digest::sha256_hex;
use crate::event::{timeline, timeline_order, EventRecord};
use crate::framebuffer::{scanout_accepted, scanout_error, update_error, updated_bytes, FrameError, FrameView, Framebuffer, Rect, rows_fit};
use crate::text::{push_str, str_equal};

verus! {

broadcast use vstd::string::group_string_axioms;

/// Why a frame cannot be rebuilt.
#[derive(Debug)]
pub enum ReconstructError {
    NoArtifact { kind: String },
    NoUnsignedField { kind: String, name: &'static str },
    FieldExceedsU32 { name: &'static str },
    NoPrecedingScanout,
    NoRect,
    NoSignedRectField { name: &'static str },
    RectFieldExceedsI32 { name: &'static str },
    Frame(FrameError),
    HashMismatch { event_id: String },
    NothingAtTime,
}

impl ReconstructError {
    /// The human-readable description of the error.
    pub open spec fn text(&self) -> Seq<char> {
        match self {
            ReconstructError::NoArtifact { kind } => kind@ + " has no raw framebuffer artifact"@,
            ReconstructError::NoUnsignedField { kind, name } => kind@ + " has no unsigned "@ + name@,
            ReconstructError::FieldExceedsU32 { name } => name@ + " exceeds u32"@,
            ReconstructError::NoPrecedingScanout => "display update has no preceding scanout"@,
            ReconstructError::NoRect => "display update has no rect"@,
            ReconstructError::NoSignedRectField { name } => "rect has no signed "@ + name@,
            ReconstructError::RectFieldExceedsI32 { name } => "rect "@ + name@ + " exceeds i32"@,
            ReconstructError::Frame(e) => e.text(),
            ReconstructError::HashMismatch { event_id } => "reconstructed frame hash differs at event "@ + event_id@,
            ReconstructError::NothingAtTime => "no reconstructable framebuffer at requested time"@,
        }
    }

    /// Renders the description of the error.
    pub fn message(&self) -> (r: String)
        ensures
            r@ == self.text(),
    {
        let mut s = String::new();
        match self {
            ReconstructError::NoArtifact { kind } => {
                push_str(&mut s, kind.as_str());
                push_str(&mut s, " has no raw framebuffer artifact");
            },
            ReconstructError::NoUnsignedField { kind, name } => {
                push_str(&mut s, kind.as_str());
                push_str(&mut s, " has no unsigned ");
                push_str(&mut s, name);
            },
            ReconstructError::FieldExceedsU32 { name } => {
                push_str(&mut s, name);
                push_str(&mut s, " exceeds u32");
            },
            ReconstructError::NoPrecedingScanout => push_str(&mut s, "display update has no preceding scanout"),
            ReconstructError::NoRect => push_str(&mut s, "display update has no rect"),
            ReconstructError::NoSignedRectField { name } => {
                push_str(&mut s, "rect has no signed ");
                push_str(&mut s, name);
            },
            ReconstructError::RectFieldExceedsI32 { name } => {
                push_str(&mut s, "rect ");
                push_str(&mut s, name);
                push_str(&mut s, " exceeds i32");
            },
            ReconstructError::Frame(e) => return e.message(),
            ReconstructError::HashMismatch { event_id } => {
                push_str(&mut s, "reconstructed frame hash differs at event ");
                push_str(&mut s, event_id.as_str());
            },
            ReconstructError::NothingAtTime => push_str(&mut s, "no reconstructable framebuffer at requested time"),
        }
        s
    }
}

/// A display event: a scanout or an update.
pub open spec fn is_frame_event(e: EventRecord) -> bool {
    e.kind@ == "display.scanout"@ || e.kind@ == "display.update"@
}

/// The display events recorded no later than `at_ns`, in timeline order.
pub open spec fn frame_events_spec(events: Seq<EventRecord>, at_ns: u64) -> Seq<usize> {
    timeline(events).filter(|i: usize| events[i as int].host_monotonic_ns <= at_ns && is_frame_event(events[i as int]))
}

/// The positions of the display events to replay for the frame at `at_ns`.
pub fn frame_events(events: &[EventRecord], at_ns: u64) -> (r: Vec<usize>)
    ensures
        r@ == frame_events_spec(events@, at_ns),
        forall|k: int| 0 <= k < r@.len() ==> #[trigger] r@[k] < events@.len(),
{
    let ghost ev = events@;
    let n = events.len();
    let order = timeline_order(events);
    let r = crate::timeline_search::all_where(
        &order,
        |i: usize| -> (b: bool)
            requires i < n, n == ev.len(), ev == events@,
            ensures b == (ev[i as int].host_monotonic_ns <= at_ns && is_frame_event(ev[i as int]))
        {
            events[i].host_monotonic_ns <= at_ns && (str_equal(events[i].kind.as_str(), "display.scanout")
                || str_equal(events[i].kind.as_str(), "display.update"))
        },
        Ghost(|i: usize| ev[i as int].host_monotonic_ns <= at_ns && is_frame_event(ev[i as int])),
        Ghost(n as nat),
    );
    proof {
        broadcast use vstd::seq_lib::group_filter_ensures;
        let p = |i: usize| ev[i as int].host_monotonic_ns <= at_ns && is_frame_event(ev[i as int]);
        assert forall|k: int| 0 <= k < r@.len() implies #[trigger] r@[k] < events@.len() by {
            assert(order@.filter(p).contains(r@[k]));
            order@.lemma_filter_contains_rev(p, r@[k]);
        }
    }
    r
}

/// The framebuffer artifact of a display event: the first one it names.
pub open spec fn artifact_spec(e: EventRecord) -> Result<Seq<char>, ReconstructError> {
    if e.artifact_refs@.len() == 0 {
        Err(ReconstructError::NoArtifact { kind: e.kind })
    } else {
        Ok(e.artifact_refs@[0]@)
    }
}

/// Names the framebuffer artifact that replaying a display event reads.
pub fn frame_artifact(e: &EventRecord) -> (r: Result<String, ReconstructError>)
    ensures
        match artifact_spec(*e) {
            Ok(a) => r matches Ok(s) && s@ == a,
            Err(x) => r == Err::<String, ReconstructError>(x),
        },
{
    if e.artifact_refs.len() == 0 {
        Err(ReconstructError::NoArtifact { kind: e.kind.clone() })
    } else {
        Ok(e.artifact_refs[0].clone())
    }
}

/// An unsigned payload field that must fit 32 bits.
pub open spec fn unsigned_field(e: EventRecord, name: &'static str, v: Option<u64>) -> Result<u32, ReconstructError> {
    match v {
        None => Err(ReconstructError::NoUnsignedField { kind: e.kind, name }),
        Some(x) => if x > u32::MAX {
            Err(ReconstructError::FieldExceedsU32 { name })
        } else {
            Ok(x as u32)
        },
    }
}

fn unsigned_field_exec(e: &EventRecord, name: &'static str, v: Option<u64>) -> (r: Result<u32, ReconstructError>)
    ensures
        r == unsigned_field(*e, name, v),
{
    match v {
        None => Err(ReconstructError::NoUnsignedField { kind: e.kind.clone(), name }),
        Some(x) => if x > 0xffff_ffff {
            Err(ReconstructError::FieldExceedsU32 { name })
        } else {
            Ok(x as u32)
        },
    }
}

/// A signed rectangle field that must fit 32 bits.
pub open spec fn signed_field(name: &'static str, v: Option<i64>) -> Result<i32, ReconstructError> {
    match v {
        None => Err(ReconstructError::NoSignedRectField { name }),
        Some(x) => if x < i32::MIN || x > i32::MAX {
            Err(ReconstructError::RectFieldExceedsI32 { name })
        } else {
            Ok(x as i32)
        },
    }
}

fn signed_field_exec(name: &'static str, v: Option<i64>) -> (r: Result<i32, ReconstructError>)
    ensures
        r == signed_field(name, v),
{
    match v {
        None => Err(ReconstructError::NoSignedRectField { name }),
        Some(x) => if x < -0x8000_0000 || x > 0x7fff_ffff {
            Err(ReconstructError::RectFieldExceedsI32 { name })
        } else {
            Ok(x as i32)
        },
    }
}

/// The frame a scanout announces, from its fields and bytes.
pub open spec fn scanout_step(e: EventRecord, bytes: Seq<u8>) -> Result<FrameView, ReconstructError> {
    match unsigned_field(e, "width", e.facts.width) {
        Err(x) => Err(x),
        Ok(width) => match unsigned_field(e, "height", e.facts.height) {
            Err(x) => Err(x),
            Ok(height) => match unsigned_field(e, "stride", e.facts.stride) {
                Err(x) => Err(x),
                Ok(stride) => match unsigned_field(e, "pixmanFormat", e.facts.pixman_format) {
                    Err(x) => Err(x),
                    Ok(format) => if !scanout_accepted(width, height, stride, bytes.len()) {
                        Err(ReconstructError::Frame(scanout_error(width, height, stride, bytes.len())))
                    } else {
                        Ok(FrameView {
                            width: width as nat,
                            height: height as nat,
                            stride: stride as nat,
                            format,
                            data: bytes.take(stride * height),
                        })
                    },
                },
            },
        },
    }
}

/// The rectangle an update announces, its fields read in the order x, y, width, height.
pub open spec fn rect_spec(e: EventRecord) -> Result<Rect, ReconstructError> {
    match e.facts.rect {
        None => Err(ReconstructError::NoRect),
        Some(r) => match signed_field("x", r.x) {
            Err(x) => Err(x),
            Ok(x) => match signed_field("y", r.y) {
                Err(err) => Err(err),
                Ok(y) => match signed_field("width", r.width) {
                    Err(err) => Err(err),
                    Ok(width) => match signed_field("height", r.height) {
                        Err(err) => Err(err),
                        Ok(height) => Ok(Rect { x, y, width, height }),
                    },
                },
            },
        },
    }
}

/// The frame after an update is copied into the frame before it.
pub open spec fn update_step(before: Option<FrameView>, e: EventRecord, bytes: Seq<u8>) -> Result<FrameView, ReconstructError> {
    match before {
        None => Err(ReconstructError::NoPrecedingScanout),
        Some(f) => match rect_spec(e) {
            Err(x) => Err(x),
            Ok(rect) => match unsigned_field(e, "stride", e.facts.stride) {
                Err(x) => Err(x),
                Ok(stride) => match unsigned_field(e, "pixmanFormat", e.facts.pixman_format) {
                    Err(x) => Err(x),
                    Ok(format) => match update_error(f, rect, stride, format, bytes.len()) {
                        Some(fe) => Err(ReconstructError::Frame(fe)),
                        None => Ok(FrameView {
                            data: updated_bytes(f.data, f.stride as int, rect, stride as int, bytes),
                            ..f
                        }),
                    },
                },
            },
        },
    }
}

/// The frame after replaying a display event, refused where the event records a frame
/// hash that the result does not have.
pub open spec fn replay_step(before: Option<FrameView>, e: EventRecord, bytes: Seq<u8>) -> Result<FrameView, ReconstructError> {
    let next = if e.kind@ == "display.scanout"@ {
        scanout_step(e, bytes)
    } else {
        update_step(before, e, bytes)
    };
    match next {
        Err(x) => Err(x),
        Ok(f) => match e.facts.frame_sha256 {
            Some(h) => if sha256_hex(f.data) == h@ {
                Ok(f)
            } else {
                Err(ReconstructError::HashMismatch { event_id: e.id })
            },
            None => Ok(f),
        },
    }
}

/// An update that the frame would accept ends within the frame's stride. Only a frame
/// whose rows are longer than its stride (from a width of 2^30 pixels on) can receive one
/// that does not; replaying that writes across rows or past the buffer.
pub open spec fn update_within_stride(before: Option<FrameView>, e: EventRecord, len: nat) -> bool {
    match before {
        None => true,
        Some(f) => match rect_spec(e) {
            Err(_) => true,
            Ok(rect) => match (unsigned_field(e, "stride", e.facts.stride), unsigned_field(e, "pixmanFormat", e.facts.pixman_format)) {
                (Ok(stride), Ok(format)) => update_error(f, rect, stride, format, len) is None ==> 4 * (rect.x + rect.width) <= f.stride,
                _ => true,
            },
        },
    }
}

/// A rebuilt frame and the display event it was last changed by.
pub struct ReconstructedFrame {
    pub event_id: String,
    pub host_monotonic_ns: u64,
    pub framebuffer: Framebuffer,
}

/// A replay in progress: the frame so far and the last event replayed.
pub struct Reconstruction {
    frame: Option<Framebuffer>,
    last: Option<(String, u64)>,
}

impl Reconstruction {
    /// The frame so far.
    pub closed spec fn frame_view(&self) -> Option<FrameView> {
        match self.frame {
            Some(f) => Some(f.view()),
            None => None,
        }
    }

    /// The identifier and host time of the last event replayed.
    pub closed spec fn last_event(&self) -> Option<(Seq<char>, u64)> {
        match self.last {
            Some((id, ns)) => Some((id@, ns)),
            None => None,
        }
    }

    /// The frame is well formed, and present once an event was replayed.
    pub closed spec fn wf(&self) -> bool {
        &&& self.frame matches Some(f) ==> f.inv()
        &&& self.last is Some ==> self.frame is Some
    }

    /// Nothing replayed yet.
    pub fn new() -> (r: Self)
        ensures
            r.wf(),
            r.frame_view() is None,
            r.last_event() is None,
    {
        Reconstruction { frame: None, last: None }
    }

    /// Replays a display event with the bytes of its framebuffer artifact.
    pub fn apply(&mut self, e: &EventRecord, bytes: &[u8]) -> (r: Result<(), ReconstructError>)
        requires
            old(self).wf(),
            is_frame_event(*e),
            e.kind@ != "display.scanout"@ ==> update_within_stride(old(self).frame_view(), *e, bytes@.len()),
        ensures
            final(self).wf(),
            match replay_step(old(self).frame_view(), *e, bytes@) {
                Ok(f) => r is Ok && final(self).frame_view() == Some(f) && final(self).last_event() == Some((e.id@, e.host_monotonic_ns)),
                Err(x) => r == Err::<(), ReconstructError>(x),
            },
    {
        let next: Framebuffer;
        if str_equal(e.kind.as_str(), "display.scanout") {
            let width = unsigned_field_exec(e, "width", e.facts.width)?;
            let height = unsigned_field_exec(e, "height", e.facts.height)?;
            let stride = unsigned_field_exec(e, "stride", e.facts.stride)?;
            let format = unsigned_field_exec(e, "pixmanFormat", e.facts.pixman_format)?;
            next = match Framebuffer::from_scanout(width, height, stride, format, bytes) {
                Ok(f) => f,
                Err(fe) => return Err(ReconstructError::Frame(fe)),
            };
        } else {
            let mut current = match self.frame.take() {
                Some(f) => f,
                None => return Err(ReconstructError::NoPrecedingScanout),
            };
            self.last = None;
            let ghost before = current.view();
            let facts = match e.facts.rect {
                Some(r) => r,
                None => return Err(ReconstructError::NoRect),
            };
            let x = signed_field_exec("x", facts.x)?;
            let y = signed_field_exec("y", facts.y)?;
            let width = signed_field_exec("width", facts.width)?;
            let height = signed_field_exec("height", facts.height)?;
            let stride = unsigned_field_exec(e, "stride", e.facts.stride)?;
            let format = unsigned_field_exec(e, "pixmanFormat", e.facts.pixman_format)?;
            match current.apply_update(Rect { x, y, width, height }, stride, format, bytes) {
                Ok(()) => {},
                Err(fe) => return Err(ReconstructError::Frame(fe)),
            }
            next = current;
        }
        match &e.facts.frame_sha256 {
            Some(expected) => {
                let actual = next.sha256();
                if !str_equal(actual.as_str(), expected.as_str()) {
                    return Err(ReconstructError::HashMismatch { event_id: e.id.clone() });
                }
            },
            None => {},
        }
        self.frame = Some(next);
        self.last = Some((e.id.clone(), e.host_monotonic_ns));
        Ok(())
    }

    /// The rebuilt frame, once a display event was replayed.
    pub fn finish(self) -> (r: Result<ReconstructedFrame, ReconstructError>)
        requires
            self.wf(),
        ensures
            match self.last_event() {
                None => r matches Err(ReconstructError::NothingAtTime),
                Some((id, ns)) => r matches Ok(f) && f.event_id@ == id && f.host_monotonic_ns == ns
                    && f.framebuffer.inv() && self.frame_view() == Some(f.framebuffer.view()),
            },
    {
        match (self.last, self.frame) {
            (Some((event_id, host_monotonic_ns)), Some(framebuffer)) => Ok(ReconstructedFrame { event_id, host_monotonic_ns, framebuffer }),
            _ => Err(ReconstructError::NothingAtTime),
        }
    }
}

} // verus!
