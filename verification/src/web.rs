//! The evidence inspector: where its process record lives, and the content type it
//! serves an artifact with.
use vstd::prelude::*;
use crate::paths::{join, path_join};

verus! {

broadcast use vstd::string::group_string_axioms;

/// Where a running inspector can be reached.
#[derive(Clone, Debug)]
pub struct InspectorEndpoint {
    pub url: String,
    pub address: String,
    pub pid: u32,
}

/// The file that records the inspector process of a state directory.
pub fn process_record_path(state_dir: &str) -> (r: String)
    ensures
        r@ == path_join(state_dir@, "webui.pid"@),
{
    join(state_dir, "webui.pid")
}

/// A UTF-8 continuation byte.
pub open spec fn cont(b: u8) -> bool {
    0x80 <= b <= 0xBF
}

/// Length of the well-formed UTF-8 sequence that starts at `i`, or 0 if none does
/// (the table of well-formed byte sequences of the Unicode Standard, section 3.9).
pub open spec fn utf8_seq_len(b: Seq<u8>, i: int) -> nat {
    let n = b.len();
    let c = b[i];
    if c <= 0x7F {
        1
    } else if 0xC2 <= c <= 0xDF {
        if i + 1 < n && cont(b[i + 1]) {
            2
        } else {
            0
        }
    } else if 0xE0 <= c <= 0xEF {
        let lo: u8 = if c == 0xE0 {
            0xA0
        } else {
            0x80
        };
        let hi: u8 = if c == 0xED {
            0x9F
        } else {
            0xBF
        };
        if n - i > 2 && lo <= b[i + 1] <= hi && cont(b[i + 2]) {
            3
        } else {
            0
        }
    } else if 0xF0 <= c <= 0xF4 {
        let lo: u8 = if c == 0xF0 {
            0x90
        } else {
            0x80
        };
        let hi: u8 = if c == 0xF4 {
            0x8F
        } else {
            0xBF
        };
        if n - i > 3 && lo <= b[i + 1] <= hi && cont(b[i + 2]) && cont(b[i + 3]) {
            4
        } else {
            0
        }
    } else {
        0
    }
}

/// Whether `b[i..]` is well-formed UTF-8.
pub open spec fn utf8_from(b: Seq<u8>, i: int) -> bool
    decreases b.len() - i,
{
    if i < 0 || i >= b.len() {
        true
    } else {
        let k = utf8_seq_len(b, i);
        k > 0 && utf8_from(b, i + k)
    }
}

/// Whether the bytes are well-formed UTF-8, as `std::str::from_utf8` requires.
pub open spec fn well_formed_utf8(b: Seq<u8>) -> bool {
    utf8_from(b, 0)
}

fn seq_len_at(b: &[u8], i: usize) -> (r: usize)
    requires
        i < b@.len(),
    ensures
        r == utf8_seq_len(b@, i as int),
{
    let n = b.len();
    let c = b[i];
    if c <= 0x7F {
        1
    } else if 0xC2 <= c && c <= 0xDF {
        if n - i > 1 && 0x80 <= b[i + 1] && b[i + 1] <= 0xBF {
            2
        } else {
            0
        }
    } else if 0xE0 <= c && c <= 0xEF {
        let lo: u8 = if c == 0xE0 {
            0xA0
        } else {
            0x80
        };
        let hi: u8 = if c == 0xED {
            0x9F
        } else {
            0xBF
        };
        if n - i > 2 && lo <= b[i + 1] && b[i + 1] <= hi && 0x80 <= b[i + 2] && b[i + 2] <= 0xBF {
            3
        } else {
            0
        }
    } else if 0xF0 <= c && c <= 0xF4 {
        let lo: u8 = if c == 0xF0 {
            0x90
        } else {
            0x80
        };
        let hi: u8 = if c == 0xF4 {
            0x8F
        } else {
            0xBF
        };
        if n - i > 3 && lo <= b[i + 1] && b[i + 1] <= hi && 0x80 <= b[i + 2] && b[i + 2] <= 0xBF
            && 0x80 <= b[i + 3] && b[i + 3] <= 0xBF {
            4
        } else {
            0
        }
    } else {
        0
    }
}

/// Whether the bytes are well-formed UTF-8.
pub fn is_utf8(b: &[u8]) -> (r: bool)
    ensures
        r == well_formed_utf8(b@),
{
    let n = b.len();
    let mut i: usize = 0;
    while i < n
        invariant
            n == b@.len(),
            i <= n,
            well_formed_utf8(b@) == utf8_from(b@, i as int),
        decreases n - i,
    {
        let k = seq_len_at(b, i);
        if k == 0 {
            return false;
        }
        i = i + k;
    }
    true
}

/// Whether `b` starts with `p`.
pub open spec fn bytes_start_with(b: Seq<u8>, p: Seq<u8>) -> bool {
    p.len() <= b.len() && b.take(p.len() as int) == p
}

fn starts_with_bytes(b: &[u8], p: &[u8]) -> (r: bool)
    ensures
        r == bytes_start_with(b@, p@),
{
    if p.len() > b.len() {
        return false;
    }
    let mut i: usize = 0;
    while i < p.len()
        invariant
            p@.len() <= b@.len(),
            i <= p@.len(),
            forall|k: int| 0 <= k < i ==> b@[k] == p@[k],
        decreases p@.len() - i,
    {
        if b[i] != p[i] {
            assert(b@.take(p@.len() as int)[i as int] != p@[i as int]);
            return false;
        }
        i = i + 1;
    }
    assert(b@.take(p@.len() as int) =~= p@);
    true
}

/// The content type an artifact is served with, judged from its first bytes only:
/// PNG, ZIP and WAV by their signatures, then text when the whole is UTF-8.
pub open spec fn sniff_mime_spec(b: Seq<u8>) -> Seq<char> {
    if bytes_start_with(b, seq![0x89u8, 0x50, 0x4E, 0x47, 0x0D, 0x0A, 0x1A, 0x0A]) {
        "image/png"@
    } else if bytes_start_with(b, seq![0x50u8, 0x4B, 0x03, 0x04]) {
        "application/zip"@
    } else if bytes_start_with(b, seq![0x52u8, 0x49, 0x46, 0x46]) && b.len() >= 12 && b.subrange(8, 12)
        == seq![0x57u8, 0x41, 0x56, 0x45] {
        "audio/wav"@
    } else if well_formed_utf8(b) {
        "text/plain; charset=utf-8"@
    } else {
        "application/octet-stream"@
    }
}

/// The content type an artifact is served with.
pub fn sniff_mime(bytes: &[u8]) -> (r: &'static str)
    ensures
        r@ == sniff_mime_spec(bytes@),
{
    let png: [u8; 8] = [0x89, 0x50, 0x4E, 0x47, 0x0D, 0x0A, 0x1A, 0x0A];
    let zip: [u8; 4] = [0x50, 0x4B, 0x03, 0x04];
    let riff: [u8; 4] = [0x52, 0x49, 0x46, 0x46];
    assert(png@ =~= seq![0x89u8, 0x50, 0x4E, 0x47, 0x0D, 0x0A, 0x1A, 0x0A]);
    assert(zip@ =~= seq![0x50u8, 0x4B, 0x03, 0x04]);
    assert(riff@ =~= seq![0x52u8, 0x49, 0x46, 0x46]);
    if starts_with_bytes(bytes, &png) {
        "image/png"
    } else if starts_with_bytes(bytes, &zip) {
        "application/zip"
    } else if starts_with_bytes(bytes, &riff) && bytes.len() >= 12 && bytes[8] == 0x57 && bytes[9]
        == 0x41 && bytes[10] == 0x56 && bytes[11] == 0x45 {
        assert(bytes@.subrange(8, 12) =~= seq![0x57u8, 0x41, 0x56, 0x45]);
        "audio/wav"
    } else {
        proof {
            if starts_with_bytes_spec_wave(bytes@) {
                assert(bytes@.subrange(8, 12)[0] == bytes@[8]);
                assert(bytes@.subrange(8, 12)[1] == bytes@[9]);
                assert(bytes@.subrange(8, 12)[2] == bytes@[10]);
                assert(bytes@.subrange(8, 12)[3] == bytes@[11]);
            }
        }
        if is_utf8(bytes) {
            "text/plain; charset=utf-8"
        } else {
            "application/octet-stream"
        }
    }
}

spec fn starts_with_bytes_spec_wave(b: Seq<u8>) -> bool {
    b.len() >= 12 && b.subrange(8, 12) == seq![0x57u8, 0x41, 0x56, 0x45]
}

} // verus!
