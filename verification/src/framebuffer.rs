//! Host-side reconstruction of the guest framebuffer from full scanouts and
//! rectangular updates.
use vstd::prelude::*;
use vstd::arithmetic::div_mod::{lemma_fundamental_div_mod, lemma_fundamental_div_mod_converse};

use crate::digest::{sha256_hex, sha256_hex_string};
use crate::text::{decimal, hex_fixed, push_decimal, push_hex_fixed, push_signed_decimal, push_str, signed_decimal};

verus! {

/// Pixel format code for 32-bit XRGB pixels.
pub const PIXMAN_X8R8G8B8: u32 = 0x2002_0888;

/// Pixel format code for 32-bit ARGB pixels.
pub const PIXMAN_A8R8G8B8: u32 = 0x2002_8888;

/// A rectangle announced by a display update.
#[derive(Clone, Copy, Debug, PartialEq, Eq)]
pub struct Rect {
    pub x: i32,
    pub y: i32,
    pub width: i32,
    pub height: i32,
}

/// Why a scanout, an update or a conversion was refused.
#[derive(Debug, PartialEq, Eq)]
pub enum FrameError {
    NonPositiveDimensions,
    StrideTooSmall,
    ScanoutLengthOverflow,
    ShortScanout { actual: usize, expected: usize },
    NegativeOrigin,
    EmptyUpdate,
    FormatChanged,
    OutsideScanout { rect: Rect, width: u32, height: u32 },
    RowLengthOverflow,
    UpdateStrideTooSmall,
    UpdateLengthOverflow,
    ShortUpdate { actual: usize, expected: usize },
    UnsupportedPngFormat { format: u32 },
    PngEncoding,
}

impl FrameError {
    /// The human-readable description of the error.
    pub open spec fn text(&self) -> Seq<char> {
        match *self {
            FrameError::NonPositiveDimensions => "scanout dimensions must be positive"@,
            FrameError::StrideTooSmall => "scanout stride is too small"@,
            FrameError::ScanoutLengthOverflow => "scanout byte length overflow"@,
            FrameError::ShortScanout { actual, expected } => "scanout has "@ + decimal(actual as nat)
                + " bytes, expected "@ + decimal(expected as nat),
            FrameError::NegativeOrigin => "negative update origin"@,
            FrameError::EmptyUpdate => "update dimensions must be positive"@,
            FrameError::FormatChanged => "pixel format changed without a new scanout"@,
            FrameError::OutsideScanout { rect, width, height } => "update rectangle ["@
                + signed_decimal(rect.x as int) + ","@ + signed_decimal(rect.y as int) + ","@
                + signed_decimal(rect.width as int) + ","@ + signed_decimal(rect.height as int)
                + "] outside scanout "@ + decimal(width as nat) + "x"@ + decimal(height as nat),
            FrameError::RowLengthOverflow => "row length overflow"@,
            FrameError::UpdateStrideTooSmall => "update stride is too small"@,
            FrameError::UpdateLengthOverflow => "update byte length overflow"@,
            FrameError::ShortUpdate { actual, expected } => "update has "@ + decimal(actual as nat)
                + " bytes, expected "@ + decimal(expected as nat),
            FrameError::UnsupportedPngFormat { format } => "PNG conversion does not support pixman format 0x"@
                + hex_fixed(format as nat, 8),
            FrameError::PngEncoding => "encode framebuffer PNG"@,
        }
    }

    /// Renders the description of the error.
    pub fn message(&self) -> (r: String)
        ensures
            r@ == self.text(),
    {
        let mut s = String::new();
        match *self {
            FrameError::NonPositiveDimensions => push_str(&mut s, "scanout dimensions must be positive"),
            FrameError::StrideTooSmall => push_str(&mut s, "scanout stride is too small"),
            FrameError::ScanoutLengthOverflow => push_str(&mut s, "scanout byte length overflow"),
            FrameError::ShortScanout { actual, expected } => {
                push_str(&mut s, "scanout has ");
                push_decimal(&mut s, actual as u64);
                push_str(&mut s, " bytes, expected ");
                push_decimal(&mut s, expected as u64);
            },
            FrameError::NegativeOrigin => push_str(&mut s, "negative update origin"),
            FrameError::EmptyUpdate => push_str(&mut s, "update dimensions must be positive"),
            FrameError::FormatChanged => push_str(&mut s, "pixel format changed without a new scanout"),
            FrameError::OutsideScanout { rect, width, height } => {
                push_str(&mut s, "update rectangle [");
                push_signed_decimal(&mut s, rect.x as i64);
                push_str(&mut s, ",");
                push_signed_decimal(&mut s, rect.y as i64);
                push_str(&mut s, ",");
                push_signed_decimal(&mut s, rect.width as i64);
                push_str(&mut s, ",");
                push_signed_decimal(&mut s, rect.height as i64);
                push_str(&mut s, "] outside scanout ");
                push_decimal(&mut s, width as u64);
                push_str(&mut s, "x");
                push_decimal(&mut s, height as u64);
            },
            FrameError::RowLengthOverflow => push_str(&mut s, "row length overflow"),
            FrameError::UpdateStrideTooSmall => push_str(&mut s, "update stride is too small"),
            FrameError::UpdateLengthOverflow => push_str(&mut s, "update byte length overflow"),
            FrameError::ShortUpdate { actual, expected } => {
                push_str(&mut s, "update has ");
                push_decimal(&mut s, actual as u64);
                push_str(&mut s, " bytes, expected ");
                push_decimal(&mut s, expected as u64);
            },
            FrameError::UnsupportedPngFormat { format } => {
                push_str(&mut s, "PNG conversion does not support pixman format 0x");
                push_hex_fixed(&mut s, format as u64, 8);
            },
            FrameError::PngEncoding => push_str(&mut s, "encode framebuffer PNG"),
        }
        assert(s@ =~= self.text());
        s
    }
}

/// An owned copy of the current guest framebuffer.
#[derive(Clone, Debug, PartialEq, Eq)]
pub struct Framebuffer {
    width: u32,
    height: u32,
    stride: u32,
    format: u32,
    data: Vec<u8>,
}

/// The abstract content of a framebuffer.
pub struct FrameView {
    pub width: nat,
    pub height: nat,
    pub stride: nat,
    pub format: u32,
    pub data: Seq<u8>,
}

/// Whether a scanout description holds enough bytes to be accepted.
/// Four bytes per pixel of a row of `width` pixels, saturating at the largest 32-bit
/// number, as `u32::saturating_mul` computes it.
pub open spec fn row_bytes_saturating(width: u32) -> int {
    if 4 * width > u32::MAX {
        u32::MAX as int
    } else {
        4 * width
    }
}

/// Whether every row of a frame lies within its stride, so that its pixels can be read
/// row by row.
pub open spec fn rows_fit(v: FrameView) -> bool {
    v.stride >= 4 * v.width
}

pub open spec fn scanout_accepted(width: u32, height: u32, stride: u32, len: nat) -> bool {
    &&& width > 0 && height > 0
    &&& stride >= row_bytes_saturating(width)
    &&& stride * height <= usize::MAX
    &&& len >= stride * height
}

/// Why a scanout description is refused, in the order of the checks.
pub open spec fn scanout_error(width: u32, height: u32, stride: u32, len: nat) -> FrameError {
    if !(width > 0 && height > 0) {
        FrameError::NonPositiveDimensions
    } else if stride < row_bytes_saturating(width) {
        FrameError::StrideTooSmall
    } else if stride * height > usize::MAX {
        FrameError::ScanoutLengthOverflow
    } else {
        FrameError::ShortScanout { actual: len as usize, expected: (stride * height) as usize }
    }
}

/// Whether `i` lies inside the rectangle of an update on a frame of the given stride.
pub open spec fn in_rect(rect: Rect, stride: int, i: int) -> bool {
    let row = i / stride;
    let col = i % stride;
    &&& rect.y <= row < rect.y + rect.height
    &&& 4 * rect.x <= col < 4 * (rect.x + rect.width)
}

/// Byte `i` of a frame after an update has copied its rectangle.
pub open spec fn updated_byte(
    old: Seq<u8>,
    stride: int,
    rect: Rect,
    update_stride: int,
    src: Seq<u8>,
    i: int,
) -> u8 {
    if in_rect(rect, stride, i) {
        src[(i / stride - rect.y) * update_stride + (i % stride - 4 * rect.x)]
    } else {
        old[i]
    }
}

/// The frame bytes after an update: the rectangle's rows come from the update, everything else is kept.
pub open spec fn updated_bytes(
    old: Seq<u8>,
    stride: int,
    rect: Rect,
    update_stride: int,
    src: Seq<u8>,
) -> Seq<u8> {
    Seq::new(old.len(), |i: int| updated_byte(old, stride, rect, update_stride, src, i))
}

/// The outcome of checking an update against the current frame, in the order of the checks.
pub open spec fn update_error(
    frame: FrameView,
    rect: Rect,
    update_stride: u32,
    format: u32,
    len: nat,
) -> Option<FrameError> {
    if rect.x < 0 || rect.y < 0 {
        Some(FrameError::NegativeOrigin)
    } else if rect.width <= 0 || rect.height <= 0 {
        Some(FrameError::EmptyUpdate)
    } else if format != frame.format {
        Some(FrameError::FormatChanged)
    } else if rect.x + rect.width > frame.width || rect.y + rect.height > frame.height {
        Some(FrameError::OutsideScanout { rect, width: frame.width as u32, height: frame.height as u32 })
    } else if 4 * rect.width > usize::MAX {
        Some(FrameError::RowLengthOverflow)
    } else if update_stride < 4 * rect.width {
        Some(FrameError::UpdateStrideTooSmall)
    } else if update_stride * rect.height > usize::MAX {
        Some(FrameError::UpdateLengthOverflow)
    } else if len < update_stride * rect.height {
        Some(FrameError::ShortUpdate { actual: len as usize, expected: (update_stride * rect.height) as usize })
    } else {
        None
    }
}

/// RGBA pixels (one opaque pixel per four output bytes) converted from little-endian XRGB rows.
pub open spec fn rgba_byte(frame: FrameView, i: int) -> u8 {
    let pixel = i / 4;
    let channel = i % 4;
    let y = pixel / (frame.width as int);
    let x = pixel % (frame.width as int);
    let base = y * frame.stride + 4 * x;
    if channel == 0 {
        frame.data[base + 2]
    } else if channel == 1 {
        frame.data[base + 1]
    } else if channel == 2 {
        frame.data[base]
    } else {
        255u8
    }
}

/// The RGBA image of a frame, row by row without stride padding.
pub open spec fn rgba_image(frame: FrameView) -> Seq<u8> {
    Seq::new(4 * frame.width * frame.height, |i: int| rgba_byte(frame, i))
}

/// The RGBA image holds each pixel at row `y`, column `x` as four bytes from position
/// `4 * (y * width + x)`: red, green and blue taken from bytes 2, 1 and 0 of the pixel's
/// little-endian XRGB word in its row, then an opaque alpha.
pub proof fn law_rgba_pixels(frame: FrameView, x: int, y: int)
    requires
        0 <= x < frame.width,
        0 <= y < frame.height,
    ensures
        ({
            let img = rgba_image(frame);
            let at = 4 * (y * frame.width + x);
            let word = y * frame.stride + 4 * x;
            &&& img.len() == 4 * frame.width * frame.height
            &&& img[at] == frame.data[word + 2]
            &&& img[at + 1] == frame.data[word + 1]
            &&& img[at + 2] == frame.data[word]
            &&& img[at + 3] == 255u8
        }),
{
    let w = frame.width as int;
    let h = frame.height as int;
    let p = y * w + x;
    assert(0 <= p < w * h) by (nonlinear_arith)
        requires
            0 <= x < w,
            0 <= y < h,
            p == y * w + x,
    ;
    assert(4 * p + 3 < 4 * w * h) by (nonlinear_arith)
        requires
            p < w * h,
    ;
    lemma_fundamental_div_mod_converse(4 * p, 4, p, 0);
    lemma_fundamental_div_mod_converse(4 * p + 1, 4, p, 1);
    lemma_fundamental_div_mod_converse(4 * p + 2, 4, p, 2);
    lemma_fundamental_div_mod_converse(4 * p + 3, 4, p, 3);
    lemma_fundamental_div_mod_converse(p, w, y, x);
    assert(p / w == y && p % w == x);
}

/// The PNG encoding of an RGBA image, as produced by the `image` crate.
pub uninterp spec fn png_encoding(width: u32, height: u32, rgba: Seq<u8>) -> Option<Seq<u8>>;

/// Calls `image::ImageBuffer::from_raw` and `DynamicImage::write_to` with the PNG format.
/// The contract claims only that the outcome is the named encoding of the arguments. The
/// encoder asserts that the buffer holds exactly four bytes for each pixel, so the buffer
/// must have that length.
#[verifier::external_body]
fn encode_png(width: u32, height: u32, rgba: Vec<u8>) -> (r: Option<Vec<u8>>)
    requires
        rgba@.len() == 4 * width * height,
    ensures
        match r {
            Some(bytes) => png_encoding(width, height, rgba@) == Some(bytes@),
            None => png_encoding(width, height, rgba@) is None,
        },
{
    let image: image::ImageBuffer<image::Rgba<u8>, Vec<u8>> = image::ImageBuffer::from_raw(width, height, rgba)?;
    let mut bytes = std::io::Cursor::new(Vec::new());
    image::DynamicImage::ImageRgba8(image).write_to(&mut bytes, image::ImageFormat::Png).ok()?;
    Some(bytes.into_inner())
}

impl Framebuffer {
    /// The abstract content of this framebuffer.
    pub closed spec fn view(&self) -> FrameView {
        FrameView {
            width: self.width as nat,
            height: self.height as nat,
            stride: self.stride as nat,
            format: self.format,
            data: self.data@,
        }
    }

    /// The internal invariant: positive dimensions, a stride at least the row length
    /// (saturating at the largest 32-bit number), and exactly `stride * height` bytes.
    pub closed spec fn inv(&self) -> bool {
        &&& self.width > 0
        &&& self.height > 0
        &&& self.stride >= row_bytes_saturating(self.width)
        &&& self.data@.len() == self.stride * self.height
    }

    /// The shape that every framebuffer keeps.
    pub open spec fn shape_ok(v: FrameView) -> bool {
        &&& v.width > 0
        &&& v.height > 0
        &&& v.stride >= row_bytes_saturating(v.width as u32)
        &&& v.data.len() == v.stride * v.height
    }

    /// Accepts a full scanout, keeping the first `stride * height` bytes.
    pub fn from_scanout(width: u32, height: u32, stride: u32, format: u32, data: &[u8]) -> (r: Result<Self, FrameError>)
        ensures
            match r {
                Ok(frame) => {
                    &&& frame.inv()
                    &&& scanout_accepted(width, height, stride, data@.len())
                    &&& frame.view() == (FrameView {
                        width: width as nat,
                        height: height as nat,
                        stride: stride as nat,
                        format,
                        data: data@.take(stride * height),
                    })
                },
                Err(e) => {
                    &&& !scanout_accepted(width, height, stride, data@.len())
                    &&& e == scanout_error(width, height, stride, data@.len())
                },
            },
    {
        if !(width > 0 && height > 0) {
            return Err(FrameError::NonPositiveDimensions);
        }
        let row_limit: u64 = if 4 * (width as u64) > 0xffff_ffff { 0xffff_ffff } else { 4 * (width as u64) };
        if (stride as u64) < row_limit {
            return Err(FrameError::StrideTooSmall);
        }
        let expected = match (stride as usize).checked_mul(height as usize) {
            Some(n) => n,
            None => return Err(FrameError::ScanoutLengthOverflow),
        };
        if data.len() < expected {
            return Err(FrameError::ShortScanout { actual: data.len(), expected });
        }
        let mut bytes: Vec<u8> = Vec::with_capacity(expected);
        for i in 0..expected
            invariant
                expected <= data@.len(),
                bytes@ == data@.take(i as int),
        {
            bytes.push(data[i]);
            assert(data@.take(i + 1) =~= data@.take(i as int).push(data@[i as int]));
        }
        Ok(Framebuffer { width, height, stride, format, data: bytes })
    }

    /// Copies the announced rectangle of an update into the frame. An accepted update must
    /// end within the stride: on a frame whose rows are longer than its stride (possible
    /// only from a width of 2^30 pixels on), a wider one would be written across row
    /// boundaries or past the end of the buffer.
    pub fn apply_update(&mut self, rect: Rect, update_stride: u32, format: u32, data: &[u8]) -> (r: Result<(), FrameError>)
        requires
            old(self).inv(),
            update_error(old(self).view(), rect, update_stride, format, data@.len()) is None
                ==> 4 * (rect.x + rect.width) <= old(self).view().stride,
        ensures
            final(self).inv(),
            r == match update_error(old(self).view(), rect, update_stride, format, data@.len()) {
                Some(e) => Err::<(), FrameError>(e),
                None => Ok(()),
            },
            r is Ok ==> final(self).view() == (FrameView {
                data: updated_bytes(old(self).view().data, old(self).view().stride as int, rect, update_stride as int, data@),
                ..old(self).view()
            }),
            r is Err ==> final(self).view() == old(self).view(),
    {
        if rect.x < 0 || rect.y < 0 {
            return Err(FrameError::NegativeOrigin);
        }
        if rect.width <= 0 || rect.height <= 0 {
            return Err(FrameError::EmptyUpdate);
        }
        if format != self.format {
            return Err(FrameError::FormatChanged);
        }
        let right: u64 = rect.x as u64 + rect.width as u64;
        let bottom: u64 = rect.y as u64 + rect.height as u64;
        if right > self.width as u64 || bottom > self.height as u64 {
            return Err(FrameError::OutsideScanout { rect, width: self.width, height: self.height });
        }
        let row_bytes = match (rect.width as usize).checked_mul(4) {
            Some(n) => n,
            None => return Err(FrameError::RowLengthOverflow),
        };
        if (update_stride as usize) < row_bytes {
            return Err(FrameError::UpdateStrideTooSmall);
        }
        let needed = match (update_stride as usize).checked_mul(rect.height as usize) {
            Some(n) => n,
            None => return Err(FrameError::UpdateLengthOverflow),
        };
        if data.len() < needed {
            return Err(FrameError::ShortUpdate { actual: data.len(), expected: needed });
        }
        let ghost old_bytes = self.data@;
        let stride = self.stride as usize;
        let ustride = update_stride as usize;
        let x0 = rect.x as usize;
        let y0 = rect.y as usize;
        let h = rect.height as usize;
        let ghost s = stride as int;
        let ghost len = old_bytes.len() as int;
        let ghost w = self.width as int;
        let ghost fh = self.height as int;
        let dlen = data.len();
        let flen = self.data.len();
        let mut row: usize = 0;
        while row < h
            invariant
                row <= h,
                h == rect.height,
                x0 == rect.x,
                y0 == rect.y,
                rect.x >= 0,
                rect.y >= 0,
                rect.width > 0,
                row_bytes == 4 * rect.width,
                stride == s,
                stride == self.stride,
                w == self.width,
                fh == self.height,
                format == self.format,
                ustride == update_stride,
                s >= 4 * (rect.x + rect.width),
                w > 0,
                fh > 0,
                rect.x + rect.width <= w,
                rect.y + rect.height <= fh,
                len == s * fh,
                len == old_bytes.len(),
                ustride >= row_bytes,
                ustride * h <= data@.len(),
                dlen == data@.len(),
                flen == len,
                self.data@.len() == len,
                forall|i: int| 0 <= i < len ==> self.data@[i] == #[trigger] rows_copied(old_bytes, s, rect, ustride as int, data@, row as int, i),
            decreases h - row,
        {
            assert(forall|i: int| 0 <= i < len ==> self.data@[i] == #[trigger] rows_copied(old_bytes, s, rect, ustride as int, data@, row as int, i));
            proof {
                assert((y0 + row) * s + s <= len) by (nonlinear_arith)
                    requires y0 + row < fh, len == s * fh, s >= 0;
                assert(row * ustride + ustride <= ustride * h) by (nonlinear_arith)
                    requires row < h, ustride >= 0;
            }
            let src_base = row * ustride;
            let dst_base = (y0 + row) * stride + x0 * 4;
            let ghost before = self.data@;
            copy_bytes(&mut self.data, dst_base, data, src_base, row_bytes);
            proof {
                assert forall|i: int| 0 <= i < len implies self.data@[i] == #[trigger] rows_copied(old_bytes, s, rect, ustride as int, data@, row + 1, i) by {
                    lemma_fundamental_div_mod(i, s);
                    assert(before[i] == rows_copied(old_bytes, s, rect, ustride as int, data@, row as int, i));
                    if dst_base <= i < dst_base + row_bytes {
                        lemma_fundamental_div_mod_converse(i, s, (y0 + row) as int, i - (y0 + row) * s);
                    } else if in_rect(rect, s, i) && i / s == y0 + row {
                        assert(i == s * (i / s) + i % s);
                        assert(s * (i / s) == (y0 + row) * s) by (nonlinear_arith)
                            requires i / s == y0 + row;
                    }
                }
            }
            row = row + 1;
        }
        proof {
            assert forall|i: int| 0 <= i < len implies self.data@[i] == #[trigger] updated_byte(old_bytes, s, rect, ustride as int, data@, i) by {
                assert(self.data@[i] == rows_copied(old_bytes, s, rect, ustride as int, data@, h as int, i));
            }
            assert(self.data@ =~= updated_bytes(old_bytes, s, rect, update_stride as int, data@));
        }
        Ok(())
    }

    pub fn width(&self) -> (r: u32)
        requires
            self.inv(),
        ensures
            r == self.view().width,
            Self::shape_ok(self.view()),
    {
        self.width
    }

    pub fn height(&self) -> (r: u32)
        requires
            self.inv(),
        ensures
            r == self.view().height,
            Self::shape_ok(self.view()),
    {
        self.height
    }

    pub fn stride(&self) -> (r: u32)
        requires
            self.inv(),
        ensures
            r == self.view().stride,
            Self::shape_ok(self.view()),
    {
        self.stride
    }

    pub fn format(&self) -> (r: u32)
        requires
            self.inv(),
        ensures
            r == self.view().format,
            Self::shape_ok(self.view()),
    {
        self.format
    }

    pub fn bytes(&self) -> (r: &[u8])
        requires
            self.inv(),
        ensures
            r@ == self.view().data,
            Self::shape_ok(self.view()),
    {
        self.data.as_slice()
    }

    /// An identical copy of the frame.
    pub fn duplicate(&self) -> (r: Self)
        requires
            self.inv(),
        ensures
            r.inv(),
            r.view() == self.view(),
    {
        let mut data: Vec<u8> = Vec::new();
        for i in 0..self.data.len()
            invariant
                data@ == self.data@.take(i as int),
        {
            data.push(self.data[i]);
            assert(self.data@.take(i + 1) =~= self.data@.take(i as int).push(self.data@[i as int]));
        }
        assert(self.data@.take(self.data@.len() as int) =~= self.data@);
        Framebuffer { width: self.width, height: self.height, stride: self.stride, format: self.format, data }
    }

    /// Lower-case hexadecimal SHA-256 of the frame bytes.
    pub fn sha256(&self) -> (r: String)
        requires
            self.inv(),
        ensures
            r@ == sha256_hex(self.view().data),
    {
        sha256_hex_string(self.data.as_slice())
    }

    /// The frame as RGBA bytes, dropping stride padding and making every pixel opaque.
    pub fn rgba_bytes(&self) -> (r: Vec<u8>)
        requires
            self.inv(),
            rows_fit(self.view()),
        ensures
            r@ == rgba_image(self.view()),
    {
        let w = self.width as usize;
        let hgt = self.height as usize;
        let stride = self.stride as usize;
        let ghost v = self.view();
        let ghost img = rgba_image(v);
        proof {
            assert(4 * w * hgt <= stride * hgt) by (nonlinear_arith)
                requires stride >= 4 * w;
        }
        let dlen = self.data.len();
        let mut out: Vec<u8> = Vec::new();
        assert(out@ =~= img.take(0));
        let mut y: usize = 0;
        while y < hgt
            invariant
                y <= hgt,
                w == v.width,
                hgt == v.height,
                stride == v.stride,
                w > 0,
                stride >= 4 * w,
                v.data.len() == stride * hgt,
                dlen == v.data.len(),
                self.view() == v,
                img == rgba_image(v),
                4 * w * hgt <= stride * hgt,
                out@ == img.take(4 * w * y),
            decreases hgt - y,
        {
            proof {
                assert(y * stride + stride <= stride * hgt) by (nonlinear_arith)
                    requires y < hgt, stride >= 0;
                assert(4 * w * y + 4 * w <= 4 * w * hgt) by (nonlinear_arith)
                    requires y < hgt, w >= 0;
            }
            let base = y * stride;
            let mut x: usize = 0;
            while x < w
                invariant
                    x <= w,
                    w == v.width,
                    hgt == v.height,
                    stride == v.stride,
                    w > 0,
                    y < hgt,
                    stride >= 4 * w,
                    v.data.len() == stride * hgt,
                    dlen == v.data.len(),
                    self.view() == v,
                    img == rgba_image(v),
                    base == y * stride,
                    y * stride + stride <= stride * hgt,
                    4 * w * y + 4 * w <= 4 * w * hgt,
                    out@ == img.take(4 * w * y + 4 * x),
                decreases w - x,
            {
                let p = base + 4 * x;
                let ghost at = 4 * w * y + 4 * x;
                proof {
                    assert(at == 4 * (w * y + x)) by (nonlinear_arith)
                        requires at == 4 * w * y + 4 * x;
                    lemma_fundamental_div_mod_converse(at, 4, (w * y + x) as int, 0);
                    lemma_fundamental_div_mod_converse(at + 1, 4, (w * y + x) as int, 1);
                    lemma_fundamental_div_mod_converse(at + 2, 4, (w * y + x) as int, 2);
                    lemma_fundamental_div_mod_converse(at + 3, 4, (w * y + x) as int, 3);
                    lemma_fundamental_div_mod_converse((w * y + x) as int, w as int, y as int, x as int);
                    assert(w * y + x + 1 <= w * hgt) by (nonlinear_arith)
                        requires x < w, y < hgt;
                    assert(at + 4 <= 4 * w * hgt) by (nonlinear_arith)
                        requires at == 4 * (w * y + x), w * y + x + 1 <= w * hgt;
                    assert(y * stride + 4 * x + 3 < stride * hgt) by (nonlinear_arith)
                        requires x < w, stride >= 4 * w, y * stride + stride <= stride * hgt;
                }
                out.push(self.data[p + 2]);
                out.push(self.data[p + 1]);
                out.push(self.data[p]);
                out.push(255u8);
                proof {
                    assert(out@ =~= img.take(at + 4));
                }
                x = x + 1;
            }
            assert(4 * w * (y + 1) == 4 * w * y + 4 * w) by (nonlinear_arith);
            y = y + 1;
        }
        proof {
            assert(img.len() == 4 * w * hgt);
            assert(img.take(4 * w * hgt) =~= img);
        }
        out
    }

    /// The frame encoded as a PNG image.
    pub fn png_bytes(&self) -> (r: Result<Vec<u8>, FrameError>)
        requires
            self.inv(),
            rows_fit(self.view()),
        ensures
            self.view().format != PIXMAN_X8R8G8B8 && self.view().format != PIXMAN_A8R8G8B8 ==> r == Err::<Vec<u8>, FrameError>(FrameError::UnsupportedPngFormat { format: self.view().format }),
            self.view().format == PIXMAN_X8R8G8B8 || self.view().format == PIXMAN_A8R8G8B8 ==> match r {
                Ok(bytes) => png_encoding(self.view().width as u32, self.view().height as u32, rgba_image(self.view())) == Some(bytes@),
                Err(e) => e == FrameError::PngEncoding && png_encoding(self.view().width as u32, self.view().height as u32, rgba_image(self.view())) is None,
            },
    {
        if self.format != PIXMAN_X8R8G8B8 && self.format != PIXMAN_A8R8G8B8 {
            return Err(FrameError::UnsupportedPngFormat { format: self.format });
        }
        let rgba = self.rgba_bytes();
        match encode_png(self.width, self.height, rgba) {
            Some(bytes) => Ok(bytes),
            None => Err(FrameError::PngEncoding),
        }
    }
}

/// Byte `i` after the first `row` rows of the rectangle were copied.
pub open spec fn rows_copied(
    old: Seq<u8>,
    stride: int,
    rect: Rect,
    update_stride: int,
    src: Seq<u8>,
    row: int,
    i: int,
) -> u8 {
    if in_rect(rect, stride, i) && i / stride - rect.y < row {
        src[(i / stride - rect.y) * update_stride + (i % stride - 4 * rect.x)]
    } else {
        old[i]
    }
}

/// Copies `n` bytes of `src` starting at `src_start` over `dst` starting at `dst_start`.
fn copy_bytes(dst: &mut Vec<u8>, dst_start: usize, src: &[u8], src_start: usize, n: usize)
    requires
        dst_start + n <= old(dst)@.len(),
        src_start + n <= src@.len(),
    ensures
        final(dst)@.len() == old(dst)@.len(),
        forall|i: int| 0 <= i < old(dst)@.len() ==> #[trigger] final(dst)@[i] == if dst_start <= i < dst_start + n {
            src@[src_start + i - dst_start]
        } else {
            old(dst)@[i]
        },
{
    let dl = dst.len();
    let sl = src.len();
    for k in 0..n
        invariant
            dl == old(dst)@.len(),
            sl == src@.len(),
            dst_start + n <= old(dst)@.len(),
            src_start + n <= src@.len(),
            dst@.len() == old(dst)@.len(),
            forall|i: int| 0 <= i < old(dst)@.len() ==> #[trigger] dst@[i] == if dst_start <= i < dst_start + k {
                src@[src_start + i - dst_start]
            } else {
                old(dst)@[i]
            },
    {
        dst.set(dst_start + k, src[src_start + k]);
    }
}

} // verus!
