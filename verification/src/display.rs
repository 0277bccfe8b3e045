//! Display listener state and input translation for the QEMU D-Bus display.
use vstd::prelude::*;

use crate::framebuffer::{Framebuffer, FrameError, FrameView, Rect, update_error, updated_bytes, rows_fit};
use crate::digest::sha256_hex;
use crate::text::ascii_lower;

verus! {

/// Mouse buttons of the QEMU mouse interface.
#[derive(Clone, Copy, Debug, PartialEq, Eq, Structural)]
pub enum MouseButton {
    Left,
    Middle,
    Right,
    WheelUp,
    WheelDown,
}

impl MouseButton {
    /// The button number on the wire.
    pub open spec fn spec_code(self) -> u32 {
        match self {
            MouseButton::Left => 0,
            MouseButton::Middle => 1,
            MouseButton::Right => 2,
            MouseButton::WheelUp => 3,
            MouseButton::WheelDown => 4,
        }
    }

    /// The button number on the wire.
    pub fn code(self) -> (r: u32)
        ensures
            r == self.spec_code(),
    {
        match self {
            MouseButton::Left => 0,
            MouseButton::Middle => 1,
            MouseButton::Right => 2,
            MouseButton::WheelUp => 3,
            MouseButton::WheelDown => 4,
        }
    }

    /// The name recorded in input events.
    pub fn name(self) -> (r: &'static str)
        ensures
            r@ == match self {
                MouseButton::Left => "Left"@,
                MouseButton::Middle => "Middle"@,
                MouseButton::Right => "Right"@,
                MouseButton::WheelUp => "WheelUp"@,
                MouseButton::WheelDown => "WheelDown"@,
            },
    {
        match self {
            MouseButton::Left => "Left",
            MouseButton::Middle => "Middle",
            MouseButton::Right => "Right",
            MouseButton::WheelUp => "WheelUp",
            MouseButton::WheelDown => "WheelDown",
        }
    }
}

/// The XT scan code of a lower-case letter.
pub open spec fn letter_code(c: char) -> u32 {
    match c {
        'a' => 0x1e, 'b' => 0x30, 'c' => 0x2e, 'd' => 0x20, 'e' => 0x12, 'f' => 0x21, 'g' => 0x22,
        'h' => 0x23, 'i' => 0x17, 'j' => 0x24, 'k' => 0x25, 'l' => 0x26, 'm' => 0x32, 'n' => 0x31,
        'o' => 0x18, 'p' => 0x19, 'q' => 0x10, 'r' => 0x13, 's' => 0x1f, 't' => 0x14, 'u' => 0x16,
        'v' => 0x2f, 'w' => 0x11, 'x' => 0x2d, 'y' => 0x15, _ => 0x2c,
    }
}

/// The XT scan code of the key that produces `c` on a US keyboard, ignoring shift.
pub open spec fn base_code(c: char) -> Option<u32> {
    let lower = ascii_lower(c);
    if 'a' <= lower && lower <= 'z' {
        Some(letter_code(lower))
    } else if '1' <= lower && lower <= '9' {
        Some((0x02 + (lower as int - '1' as int)) as u32)
    } else {
        match lower {
            '0' => Some(0x0b),
            ' ' => Some(0x39),
            '-' | '_' => Some(0x0c),
            '=' | '+' => Some(0x0d),
            '[' | '{' => Some(0x1a),
            ']' | '}' => Some(0x1b),
            ';' | ':' => Some(0x27),
            '\'' | '"' => Some(0x28),
            '`' | '~' => Some(0x29),
            '\\' | '|' => Some(0x2b),
            ',' | '<' => Some(0x33),
            '.' | '>' => Some(0x34),
            '/' | '?' => Some(0x35),
            '\n' => Some(0x1c),
            _ => None,
        }
    }
}

/// Whether `c` needs shift on a US keyboard.
pub open spec fn needs_shift(c: char) -> bool {
    ('A' <= c && c <= 'Z') || c == '_' || c == '+' || c == '{' || c == '}' || c == ':' || c == '"'
        || c == '~' || c == '|' || c == '<' || c == '>' || c == '?'
}

/// The scan code and shift state that type `c`, if the US layout has it.
pub open spec fn keycode_spec(c: char) -> Option<(u32, bool)> {
    match base_code(c) {
        Some(code) => Some((code, needs_shift(c))),
        None => None,
    }
}

fn letter_code_exec(c: char) -> (r: u32)
    ensures
        r == letter_code(c),
{
    match c {
        'a' => 0x1e, 'b' => 0x30, 'c' => 0x2e, 'd' => 0x20, 'e' => 0x12, 'f' => 0x21, 'g' => 0x22,
        'h' => 0x23, 'i' => 0x17, 'j' => 0x24, 'k' => 0x25, 'l' => 0x26, 'm' => 0x32, 'n' => 0x31,
        'o' => 0x18, 'p' => 0x19, 'q' => 0x10, 'r' => 0x13, 's' => 0x1f, 't' => 0x14, 'u' => 0x16,
        'v' => 0x2f, 'w' => 0x11, 'x' => 0x2d, 'y' => 0x15, _ => 0x2c,
    }
}

/// The XT scan code and shift state that type `c` on a US keyboard.
pub fn us_keycode(c: char) -> (r: Option<(u32, bool)>)
    ensures
        r == keycode_spec(c),
{
    let lower = crate::text::ascii_lower_exec(c);
    let code: u32 = if 'a' <= lower && lower <= 'z' {
        letter_code_exec(lower)
    } else if '1' <= lower && lower <= '9' {
        0x02 + ((lower as u32) - ('1' as u32))
    } else {
        match lower {
            '0' => 0x0b,
            ' ' => 0x39,
            '-' | '_' => 0x0c,
            '=' | '+' => 0x0d,
            '[' | '{' => 0x1a,
            ']' | '}' => 0x1b,
            ';' | ':' => 0x27,
            '\'' | '"' => 0x28,
            '`' | '~' => 0x29,
            '\\' | '|' => 0x2b,
            ',' | '<' => 0x33,
            '.' | '>' => 0x34,
            '/' | '?' => 0x35,
            '\n' => 0x1c,
            _ => return None,
        }
    };
    let shift = ('A' <= c && c <= 'Z') || c == '_' || c == '+' || c == '{' || c == '}' || c == ':'
        || c == '"' || c == '~' || c == '|' || c == '<' || c == '>' || c == '?';
    Some((code, shift))
}

/// Keys follow the rows of a US keyboard: along the number row `1` to `=`, the top row
/// `q` to `]`, the home row `a` to `` ` `` and the bottom row `z` to `/`, consecutive keys
/// have consecutive XT set-1 scan codes from 2, 16, 30 and 44, and each is typed without
/// shift; a capital letter is typed with shift on its letter's key; each key is typed by
/// pressing and releasing it.
pub proof fn law_keys_follow_us_key_rows()
    ensures
        forall|i: int| 0 <= i < 12 ==> keycode_spec(#[trigger] "1234567890-="@[i]) == Some(((2 + i) as u32, false)),
        forall|i: int| 0 <= i < 12 ==> keycode_spec(#[trigger] "qwertyuiop[]"@[i]) == Some(((16 + i) as u32, false)),
        forall|i: int| 0 <= i < 12 ==> keycode_spec(#[trigger] "asdfghjkl;'`"@[i]) == Some(((30 + i) as u32, false)),
        forall|i: int| 0 <= i < 10 ==> keycode_spec(#[trigger] "zxcvbnm,./"@[i]) == Some(((44 + i) as u32, false)),
        forall|c: char| 'a' <= c <= 'z' ==> #[trigger] keycode_spec(((c as u32) - 32) as char) == Some((
            base_code(c)->0,
            true,
        )),
        forall|c: char| 'a' <= c <= 'z' ==> #[trigger] keystrokes_spec(c) == Some(seq![
            KeyTransition::Down(base_code(c)->0),
            KeyTransition::Up(base_code(c)->0),
        ]),
{
    reveal_strlit("1234567890-=");
    reveal_strlit("qwertyuiop[]");
    reveal_strlit("asdfghjkl;'`");
    reveal_strlit("zxcvbnm,./");
    assert forall|i: int| 0 <= i < 12 implies keycode_spec(#[trigger] "1234567890-="@[i]) == Some(((2 + i) as u32, false)) by {
        let c = "1234567890-="@[i];
        assert(ascii_lower(c) == c);
    }
    assert forall|i: int| 0 <= i < 12 implies keycode_spec(#[trigger] "qwertyuiop[]"@[i]) == Some(((16 + i) as u32, false)) by {
        let c = "qwertyuiop[]"@[i];
        assert(ascii_lower(c) == c);
    }
    assert forall|i: int| 0 <= i < 12 implies keycode_spec(#[trigger] "asdfghjkl;'`"@[i]) == Some(((30 + i) as u32, false)) by {
        let c = "asdfghjkl;'`"@[i];
        assert(ascii_lower(c) == c);
    }
    assert forall|i: int| 0 <= i < 10 implies keycode_spec(#[trigger] "zxcvbnm,./"@[i]) == Some(((44 + i) as u32, false)) by {
        let c = "zxcvbnm,./"@[i];
        assert(ascii_lower(c) == c);
    }
    assert forall|c: char| 'a' <= c <= 'z' implies #[trigger] keycode_spec(((c as u32) - 32) as char) == Some((
        base_code(c)->0,
        true,
    )) by {
        let u = ((c as u32) - 32) as char;
        assert(ascii_lower(u) == c);
        assert(ascii_lower(c) == c);
    }
    assert forall|c: char| 'a' <= c <= 'z' implies #[trigger] keystrokes_spec(c) == Some(seq![
        KeyTransition::Down(base_code(c)->0),
        KeyTransition::Up(base_code(c)->0),
    ]) by {
        assert(ascii_lower(c) == c);
    }
}

/// A shifted symbol is typed with shift on the key of its unshifted partner, the backslash
/// key is 43, the space bar 57 and the enter key 28; a shifted character is typed as
/// shift down, its key down and up, shift up.
pub proof fn law_shifted_symbols_share_their_keys()
    ensures
        forall|i: int| 0 <= i < 11 ==> #[trigger] keycode_spec("_+{}:\"~|<>?"@[i]) == Some((
            base_code("-=[];'`\\,./"@[i])->0,
            true,
        )) && keycode_spec("-=[];'`\\,./"@[i]) == Some((base_code("-=[];'`\\,./"@[i])->0, false)),
        keycode_spec('\\') == Some((43u32, false)),
        keycode_spec(' ') == Some((57u32, false)),
        keycode_spec('\n') == Some((28u32, false)),
        forall|c: char| #[trigger] keycode_spec(c) matches Some((k, true)) ==> keystrokes_spec(c) == Some(seq![
            KeyTransition::Down(LEFT_SHIFT),
            KeyTransition::Down(k),
            KeyTransition::Up(k),
            KeyTransition::Up(LEFT_SHIFT),
        ]),
{
    reveal_strlit("_+{}:\"~|<>?");
    reveal_strlit("-=[];'`\\,./");
    assert forall|i: int| 0 <= i < 11 implies #[trigger] keycode_spec("_+{}:\"~|<>?"@[i]) == Some((
        base_code("-=[];'`\\,./"@[i])->0,
        true,
    )) && keycode_spec("-=[];'`\\,./"@[i]) == Some((base_code("-=[];'`\\,./"@[i])->0, false)) by {
        let c = "_+{}:\"~|<>?"@[i];
        let d = "-=[];'`\\,./"@[i];
        assert(ascii_lower(c) == c);
        assert(ascii_lower(d) == d);
    }
}

/// One key event.
#[derive(Clone, Copy, Debug, PartialEq, Eq, Structural)]
pub enum KeyTransition {
    Down(u32),
    Up(u32),
}

/// The scan code of the left shift key.
pub const LEFT_SHIFT: u32 = 0x2a;

/// The low-level transitions that type one character: the key down and up, wrapped in
/// a shift press when the character needs one.
pub open spec fn keystrokes_spec(c: char) -> Option<Seq<KeyTransition>> {
    match keycode_spec(c) {
        None => None,
        Some((code, shift)) => if shift {
            Some(seq![KeyTransition::Down(LEFT_SHIFT), KeyTransition::Down(code), KeyTransition::Up(code), KeyTransition::Up(LEFT_SHIFT)])
        } else {
            Some(seq![KeyTransition::Down(code), KeyTransition::Up(code)])
        },
    }
}

/// The low-level transitions that type one character.
pub fn keystroke_sequence(character: char) -> (r: Option<Vec<KeyTransition>>)
    ensures
        match r {
            Some(v) => keystrokes_spec(character) == Some(v@),
            None => keystrokes_spec(character) is None,
        },
{
    let (keycode, shift) = match us_keycode(character) {
        Some(found) => found,
        None => return None,
    };
    let mut sequence: Vec<KeyTransition> = Vec::new();
    if shift {
        sequence.push(KeyTransition::Down(LEFT_SHIFT));
    }
    sequence.push(KeyTransition::Down(keycode));
    sequence.push(KeyTransition::Up(keycode));
    if shift {
        sequence.push(KeyTransition::Up(LEFT_SHIFT));
    }
    proof {
        if shift {
            assert(sequence@ =~= seq![KeyTransition::Down(LEFT_SHIFT), KeyTransition::Down(keycode), KeyTransition::Up(keycode), KeyTransition::Up(LEFT_SHIFT)]);
        } else {
            assert(sequence@ =~= seq![KeyTransition::Down(keycode), KeyTransition::Up(keycode)]);
        }
    }
    Some(sequence)
}

/// Nanoseconds left until a full scanout recorded at `last_ns` has been quiet for `quiet_ns`.
pub open spec fn remaining_spec(last_ns: u64, now_ns: u64, quiet_ns: u64) -> u64 {
    let elapsed = if now_ns >= last_ns { now_ns - last_ns } else { 0 };
    if quiet_ns >= elapsed { (quiet_ns - elapsed) as u64 } else { 0 }
}

/// Nanoseconds left until the latest full scanout has been quiet long enough.
pub fn stable_scanout_remaining(last_ns: u64, now_ns: u64, quiet_ns: u64) -> (r: u64)
    ensures
        r == remaining_spec(last_ns, now_ns, quiet_ns),
{
    quiet_ns.saturating_sub(now_ns.saturating_sub(last_ns))
}

/// What the display listener knows about the guest display.
pub struct DisplayState {
    pub framebuffer: Option<Framebuffer>,
    pub last_scanout_ns: Option<u64>,
    pub last_display_ns: Option<u64>,
    pub display_timestamps: Vec<u64>,
    pub display_callbacks_in_flight: usize,
    pub last_error: Option<String>,
}

/// The specification of the display state.
pub struct DisplayView {
    pub frame: Option<FrameView>,
    pub last_scanout_ns: Option<u64>,
    pub last_display_ns: Option<u64>,
    pub display_timestamps: Seq<u64>,
    pub in_flight: nat,
    pub last_error: Option<Seq<char>>,
}

/// Nanoseconds until the display counts as stable at the given minimum size, or `None`
/// while display work is in flight, no frame is held, the frame is smaller than
/// required, or no full scanout has been seen.
pub open spec fn stable_frame_spec(s: DisplayView, now_ns: u64, quiet_ns: u64, min_width: u32, min_height: u32) -> Option<u64> {
    if s.in_flight > 0 {
        None
    } else {
        match s.frame {
            None => None,
            Some(f) => if f.width < min_width || f.height < min_height {
                None
            } else {
                match s.last_scanout_ns {
                    Some(last) => Some(remaining_spec(last, now_ns, quiet_ns)),
                    None => None,
                }
            },
        }
    }
}

/// The number of display timestamps strictly between two instants.
pub open spec fn count_between(ts: Seq<u64>, start_ns: u64, end_ns: u64) -> nat
    decreases ts.len(),
{
    if ts.len() == 0 {
        0
    } else {
        count_between(ts.drop_last(), start_ns, end_ns) + if start_ns < ts.last() && ts.last() < end_ns { 1nat } else { 0nat }
    }
}

impl Default for DisplayState {
    /// The state before any display callback.
    fn default() -> (r: Self)
        ensures
            r.inv(),
            r.view() == (DisplayView {
                frame: None,
                last_scanout_ns: None,
                last_display_ns: None,
                display_timestamps: Seq::empty(),
                in_flight: 0,
                last_error: None,
            }),
    {
        DisplayState::new()
    }
}

impl DisplayState {
    /// The specification of the display state.
    pub open spec fn view(&self) -> DisplayView {
        DisplayView {
            frame: match self.framebuffer {
                Some(f) => Some(f.view()),
                None => None,
            },
            last_scanout_ns: self.last_scanout_ns,
            last_display_ns: self.last_display_ns,
            display_timestamps: self.display_timestamps@,
            in_flight: self.display_callbacks_in_flight as nat,
            last_error: match self.last_error {
                Some(e) => Some(e@),
                None => None,
            },
        }
    }

    /// The internal invariant: a held framebuffer is well formed.
    pub open spec fn inv(&self) -> bool {
        match self.framebuffer {
            Some(f) => f.inv(),
            None => true,
        }
    }

    /// The state before any display callback.
    pub fn new() -> (r: Self)
        ensures
            r.inv(),
            r.view() == (DisplayView {
                frame: None,
                last_scanout_ns: None,
                last_display_ns: None,
                display_timestamps: Seq::empty(),
                in_flight: 0,
                last_error: None,
            }),
    {
        let r = DisplayState {
            framebuffer: None,
            last_scanout_ns: None,
            last_display_ns: None,
            display_timestamps: Vec::new(),
            display_callbacks_in_flight: 0,
            last_error: None,
        };
        assert(r.view().display_timestamps =~= Seq::<u64>::empty());
        r
    }

    /// A display callback starts; a full scanout restarts the quiet period.
    pub fn begin_display_callback(&mut self, timestamp: u64, is_scanout: bool)
        requires
            old(self).inv(),
            old(self).display_callbacks_in_flight < usize::MAX,
        ensures
            final(self).inv(),
            final(self).view() == (DisplayView {
                in_flight: old(self).view().in_flight + 1,
                last_scanout_ns: if is_scanout { Some(timestamp) } else { old(self).view().last_scanout_ns },
                ..old(self).view()
            }),
    {
        self.display_callbacks_in_flight = self.display_callbacks_in_flight + 1;
        if is_scanout {
            self.last_scanout_ns = Some(timestamp);
        }
    }

    /// A callback produced a frame that was recorded: it becomes the latest display time.
    fn accept_frame(&mut self, timestamp: u64)
        requires
            old(self).inv(),
            old(self).display_callbacks_in_flight > 0,
        ensures
            final(self).inv(),
            final(self).view() == (DisplayView {
                last_display_ns: Some(timestamp),
                display_timestamps: old(self).view().display_timestamps.push(timestamp),
                in_flight: (old(self).view().in_flight - 1) as nat,
                ..old(self).view()
            }),
    {
        self.last_display_ns = Some(timestamp);
        self.display_timestamps.push(timestamp);
        self.display_callbacks_in_flight = self.display_callbacks_in_flight - 1;
    }

    /// A full scanout was accepted: it replaces the held frame and clears the last error.
    pub fn accept_scanout(&mut self, frame: Framebuffer, timestamp: u64)
        requires
            old(self).inv(),
            frame.inv(),
            old(self).display_callbacks_in_flight > 0,
        ensures
            final(self).inv(),
            final(self).view() == (DisplayView {
                frame: Some(frame.view()),
                last_error: None,
                last_display_ns: Some(timestamp),
                display_timestamps: old(self).view().display_timestamps.push(timestamp),
                in_flight: (old(self).view().in_flight - 1) as nat,
                ..old(self).view()
            }),
    {
        self.framebuffer = Some(frame);
        self.last_error = None;
        self.accept_frame(timestamp);
    }

    /// A callback was refused: its error is kept and the callback ends.
    pub fn reject(&mut self, error: String)
        requires
            old(self).inv(),
            old(self).display_callbacks_in_flight > 0,
        ensures
            final(self).inv(),
            final(self).view() == (DisplayView {
                last_error: Some(error@),
                in_flight: (old(self).view().in_flight - 1) as nat,
                ..old(self).view()
            }),
    {
        self.last_error = Some(error);
        self.display_callbacks_in_flight = self.display_callbacks_in_flight - 1;
    }

    /// An update could not be applied: the held frame is dropped and a new full scanout is awaited.
    pub fn require_full_scanout(&mut self)
        requires
            old(self).inv(),
            old(self).display_callbacks_in_flight > 0,
        ensures
            final(self).inv(),
            final(self).view() == (DisplayView {
                frame: None,
                last_scanout_ns: None,
                last_error: None,
                in_flight: (old(self).view().in_flight - 1) as nat,
                ..old(self).view()
            }),
    {
        self.framebuffer = None;
        self.last_scanout_ns = None;
        self.last_error = None;
        self.display_callbacks_in_flight = self.display_callbacks_in_flight - 1;
    }

    /// Applies a rectangular update to the held frame. On success the frame's new hash is
    /// returned and the update counts as display activity; without a frame, or when the
    /// update does not fit, the frame is dropped until the next full scanout.
    pub fn apply_update(&mut self, timestamp: u64, rect: Rect, stride: u32, format: u32, data: &[u8]) -> (r: Result<String, UpdateFailure>)
        requires
            old(self).inv(),
            old(self).display_callbacks_in_flight > 0,
            match old(self).view().frame {
                Some(f) => update_error(f, rect, stride, format, data@.len()) is None ==> 4 * (rect.x + rect.width) <= f.stride,
                None => true,
            },
        ensures
            final(self).inv(),
            match old(self).view().frame {
                None => r == Err::<String, UpdateFailure>(UpdateFailure::NoScanout) && final(self).view() == (DisplayView {
                    frame: None,
                    last_scanout_ns: None,
                    last_error: None,
                    in_flight: (old(self).view().in_flight - 1) as nat,
                    ..old(self).view()
                }),
                Some(f) => match update_error(f, rect, stride, format, data@.len()) {
                    Some(e) => r == Err::<String, UpdateFailure>(UpdateFailure::Frame(e)) && final(self).view() == (DisplayView {
                        frame: None,
                        last_scanout_ns: None,
                        last_error: None,
                        in_flight: (old(self).view().in_flight - 1) as nat,
                        ..old(self).view()
                    }),
                    None => {
                        let g = FrameView { data: updated_bytes(f.data, f.stride as int, rect, stride as int, data@), ..f };
                        &&& r matches Ok(hash) && hash@ == sha256_hex(g.data)
                        &&& final(self).view() == (DisplayView {
                            frame: Some(g),
                            last_display_ns: Some(timestamp),
                            display_timestamps: old(self).view().display_timestamps.push(timestamp),
                            in_flight: (old(self).view().in_flight - 1) as nat,
                            ..old(self).view()
                        })
                    },
                },
            },
    {
        let mut held: Option<Framebuffer> = None;
        std::mem::swap(&mut held, &mut self.framebuffer);
        match held {
            None => {
                self.require_full_scanout();
                Err(UpdateFailure::NoScanout)
            },
            Some(mut frame) => {
                match frame.apply_update(rect, stride, format, data) {
                    Ok(()) => {
                        let hash = frame.sha256();
                        self.framebuffer = Some(frame);
                        self.accept_frame(timestamp);
                        Ok(hash)
                    },
                    Err(e) => {
                        self.require_full_scanout();
                        Err(UpdateFailure::Frame(e))
                    },
                }
            },
        }
    }

    /// The display output was disabled: the held frame is dropped.
    pub fn disable(&mut self)
        requires
            old(self).inv(),
        ensures
            final(self).inv(),
            final(self).view() == (DisplayView { frame: None, ..old(self).view() }),
    {
        self.framebuffer = None;
    }

    /// Nanoseconds until the display is stable at the given minimum size, if it can be.
    pub fn stable_frame_remaining(&self, now_ns: u64, quiet_ns: u64, minimum_width: u32, minimum_height: u32) -> (r: Option<u64>)
        requires
            self.inv(),
        ensures
            r == stable_frame_spec(self.view(), now_ns, quiet_ns, minimum_width, minimum_height),
    {
        if self.display_callbacks_in_flight > 0 {
            return None;
        }
        let frame = match &self.framebuffer {
            Some(frame) => frame,
            None => return None,
        };
        if frame.width() < minimum_width || frame.height() < minimum_height {
            return None;
        }
        match self.last_scanout_ns {
            Some(last) => Some(stable_scanout_remaining(last, now_ns, quiet_ns)),
            None => None,
        }
    }

    /// Whether a frame has been received.
    pub fn has_frame(&self) -> (r: bool)
        ensures
            r == self.view().frame is Some,
    {
        self.framebuffer.is_some()
    }

    /// Whether display activity was recorded after `after_ns`.
    pub fn displayed_after(&self, after_ns: u64) -> (r: bool)
        ensures
            r == (self.view().last_display_ns matches Some(t) && t > after_ns),
    {
        match self.last_display_ns {
            Some(t) => t > after_ns,
            None => false,
        }
    }

    /// The number of display updates strictly between two instants.
    pub fn display_updates_between(&self, start_ns: u64, end_ns: u64) -> (r: usize)
        ensures
            r == count_between(self.view().display_timestamps, start_ns, end_ns),
    {
        let n = self.display_timestamps.len();
        let mut count: usize = 0;
        for i in 0..n
            invariant
                n == self.display_timestamps@.len(),
                count == count_between(self.display_timestamps@.take(i as int), start_ns, end_ns),
                count <= i,
        {
            let t = self.display_timestamps[i];
            assert(self.display_timestamps@.take(i + 1).drop_last() =~= self.display_timestamps@.take(i as int));
            if start_ns < t && t < end_ns {
                count = count + 1;
            }
        }
        assert(self.display_timestamps@.take(n as int) =~= self.display_timestamps@);
        count
    }
}

/// Why an update was not applied.
#[derive(Debug, PartialEq, Eq)]
pub enum UpdateFailure {
    NoScanout,
    Frame(FrameError),
}

impl UpdateFailure {
    /// The human-readable description of the failure.
    pub open spec fn text(&self) -> Seq<char> {
        match *self {
            UpdateFailure::NoScanout => "update arrived before scanout"@,
            UpdateFailure::Frame(e) => e.text(),
        }
    }

    /// Renders the description of the failure.
    pub fn message(&self) -> (r: String)
        ensures
            r@ == self.text(),
    {
        match self {
            UpdateFailure::NoScanout => crate::policy::string_from_str("update arrived before scanout"),
            UpdateFailure::Frame(e) => e.message(),
        }
    }
}

} // verus!
