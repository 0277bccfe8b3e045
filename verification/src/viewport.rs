//! Locating a browser viewport screenshot inside the host framebuffer: the viewport's
//! background colour is its most frequent one, up to 512 anchor pixels are drawn from the
//! pixels that differ from it, every placement of the viewport inside the host is scored
//! by those anchors, the sixteen best placements are compared on a coarse grid of all
//! pixels, and the winner is measured pixel by pixel.
use vstd::prelude::*;
use std::collections::HashMap;
use crate::browser::color_error;

verus! {

broadcast use vstd::std_specs::hash::group_hash_axioms;

/// An RGB image: `width * height` pixels in rows from the top, three bytes each.
pub struct RgbImage {
    pub width: u32,
    pub height: u32,
    pub bytes: Vec<u8>,
}

/// The image holds a byte triple for each of its pixels.
pub open spec fn rgb_ok(img: RgbImage) -> bool {
    img.bytes@.len() >= img.width * img.height * 3
}

/// The colour of the pixel at raster position `i`.
pub open spec fn color_at(b: Seq<u8>, i: int) -> (u8, u8, u8) {
    (b[3 * i], b[3 * i + 1], b[3 * i + 2])
}

/// A colour packed into one number.
pub open spec fn color_key(c: (u8, u8, u8)) -> u32 {
    ((c.0 as u32) << 16u32) | ((c.1 as u32) << 8u32) | (c.2 as u32)
}

proof fn lemma_color_key_injective(a: (u8, u8, u8), b: (u8, u8, u8))
    requires
        color_key(a) == color_key(b),
    ensures
        a == b,
{
    let (a0, a1, a2) = a;
    let (b0, b1, b2) = b;
    assert(a0 == b0 && a1 == b1 && a2 == b2) by (bit_vector)
        requires
            ((a0 as u32) << 16u32) | ((a1 as u32) << 8u32) | (a2 as u32) == ((b0 as u32) << 16u32) | ((b1 as u32) << 8u32) | (b2 as u32),
    ;
}

/// How many of the first `n` pixels have colour `c`.
pub open spec fn count_color(b: Seq<u8>, n: int, c: (u8, u8, u8)) -> nat
    decreases n,
{
    if n <= 0 {
        0
    } else {
        count_color(b, n - 1, c) + if color_at(b, n - 1) == c { 1nat } else { 0nat }
    }
}

proof fn lemma_count_color_bound(b: Seq<u8>, n: int, c: (u8, u8, u8))
    requires
        n >= 0,
    ensures
        count_color(b, n, c) <= n,
    decreases n,
{
    if n > 0 {
        lemma_count_color_bound(b, n - 1, c);
    }
}

/// Pixel `j` has a most frequent colour among the first `n`, and no earlier pixel does.
pub open spec fn first_most_frequent(b: Seq<u8>, n: int, j: int) -> bool {
    &&& 0 <= j < n
    &&& forall|i: int| 0 <= i < n ==> count_color(b, n, color_at(b, i)) <= count_color(b, n, color_at(b, j))
    &&& forall|i: int| 0 <= i < j ==> count_color(b, n, color_at(b, i)) < count_color(b, n, color_at(b, j))
}

fn color_of(b: &Vec<u8>, i: usize) -> (r: (u8, u8, u8))
    requires
        3 * i + 2 < b@.len(),
    ensures
        r == color_at(b@, i as int),
{
    let len = b.len();
    assert(3 * i + 2 < len);
    (b[3 * i], b[3 * i + 1], b[3 * i + 2])
}

fn key_of(c: (u8, u8, u8)) -> (r: u32)
    ensures
        r == color_key(c),
{
    ((c.0 as u32) << 16u32) | ((c.1 as u32) << 8u32) | (c.2 as u32)
}

/// The raster position of the background pixel: the first pixel of a most frequent colour.
/// Refused (`None`) for an image without pixels.
pub fn background_index(img: &RgbImage) -> (r: Option<usize>)
    requires
        rgb_ok(*img),
    ensures
        match r {
            Some(j) => first_most_frequent(img.bytes@, img.width * img.height, j as int),
            None => img.width * img.height == 0,
        },
{
    let w = img.width as usize;
    let h = img.height as usize;
    let len = img.bytes.len();
    proof {
        assert(w * h * 3 <= img.bytes@.len());
        assert(w * h <= w * h * 3) by (nonlinear_arith);
    }
    let n: usize = w * h;
    if n == 0 {
        return None;
    }
    let ghost b = img.bytes@;
    let mut counts: HashMap<u32, usize> = HashMap::new();
    let mut i: usize = 0;
    while i < n
        invariant
            n == img.width * img.height,
            b == img.bytes@,
            3 * n <= b.len(),
            i <= n,
            forall|k: int| 0 <= k < i ==> counts@.contains_key(#[trigger] color_key(color_at(b, k))),
            forall|c: (u8, u8, u8)| counts@.contains_key(#[trigger] color_key(c)) ==> counts@[color_key(c)] == count_color(b, i as int, c),
            forall|c: (u8, u8, u8)| !counts@.contains_key(#[trigger] color_key(c)) ==> count_color(b, i as int, c) == 0,
        decreases n - i,
    {
        let c = color_of(&img.bytes, i);
        let k = key_of(c);
        let previous: usize = match counts.get(&k) {
            Some(v) => *v,
            None => 0,
        };
        proof {
            lemma_count_color_bound(b, i as int, c);
        }
        counts.insert(k, previous + 1);
        proof {
            assert forall|d: (u8, u8, u8)| counts@.contains_key(#[trigger] color_key(d)) implies counts@[color_key(d)] == count_color(b, i + 1, d) by {
                if d != c {
                    if color_key(d) == color_key(c) {
                        lemma_color_key_injective(d, c);
                    }
                }
            }
            assert forall|d: (u8, u8, u8)| !counts@.contains_key(#[trigger] color_key(d)) implies count_color(b, i + 1, d) == 0 by {
                assert(d != c);
            }
        }
        i = i + 1;
    }
    let mut best_j: usize = 0;
    let k0 = key_of(color_of(&img.bytes, 0));
    let mut best: usize = match counts.get(&k0) {
        Some(v) => *v,
        None => 0,
    };
    let mut j: usize = 1;
    while j < n
        invariant
            n == img.width * img.height,
            b == img.bytes@,
            3 * n <= b.len(),
            1 <= j <= n,
            best_j < j,
            best == count_color(b, n as int, color_at(b, best_j as int)),
            forall|k: int| 0 <= k < n ==> counts@.contains_key(#[trigger] color_key(color_at(b, k))),
            forall|c: (u8, u8, u8)| counts@.contains_key(#[trigger] color_key(c)) ==> counts@[color_key(c)] == count_color(b, n as int, c),
            forall|k: int| 0 <= k < j ==> count_color(b, n as int, #[trigger] color_at(b, k)) <= best,
            forall|k: int| 0 <= k < best_j ==> count_color(b, n as int, #[trigger] color_at(b, k)) < best,
        decreases n - j,
    {
        let c = color_of(&img.bytes, j);
        let k = key_of(c);
        let here: usize = match counts.get(&k) {
            Some(v) => *v,
            None => 0,
        };
        assert(counts@.contains_key(color_key(color_at(b, j as int))));
        if here > best {
            best = here;
            best_j = j;
        }
        j = j + 1;
    }
    Some(best_j)
}

/// A pixel with its position: column, row and colour.
pub type Sample = (u32, u32, (u8, u8, u8));

/// The pixels among the first `k` in raster order whose colour is not `bg`, with their
/// positions in an image `w` pixels wide.
pub open spec fn differing(b: Seq<u8>, w: int, k: int, bg: (u8, u8, u8)) -> Seq<Sample>
    decreases k,
{
    if k <= 0 {
        Seq::empty()
    } else {
        let rest = differing(b, w, k - 1, bg);
        if color_at(b, k - 1) != bg {
            rest.push((((k - 1) % w) as u32, ((k - 1) / w) as u32, color_at(b, k - 1)))
        } else {
            rest
        }
    }
}

/// The pixels of row `y` at columns `x`, `x + sx`, ... below `w`.
pub open spec fn sample_row(b: Seq<u8>, w: int, sx: int, y: int, x: int) -> Seq<Sample>
    decreases (if x < w { w - x } else { 0 }),
{
    if x >= w || sx <= 0 {
        Seq::empty()
    } else {
        seq![(x as u32, y as u32, color_at(b, y * w + x))] + sample_row(b, w, sx, y, x + sx)
    }
}

/// The pixels of rows `y`, `y + sy`, ... below `h`, each row sampled every `sx` columns.
pub open spec fn sample_grid(b: Seq<u8>, w: int, h: int, sx: int, sy: int, y: int) -> Seq<Sample>
    decreases (if y < h { h - y } else { 0 }),
{
    if y >= h || sy <= 0 {
        Seq::empty()
    } else {
        sample_row(b, w, sx, y, 0) + sample_grid(b, w, h, sx, sy, y + sy)
    }
}

/// A grid step: an eighth of the extent, at least one.
pub open spec fn grid_step(extent: int) -> int {
    if extent / 8 >= 1 {
        extent / 8
    } else {
        1
    }
}

/// Every `stride`-th element of a list of `len`, so that at most 512 are kept.
pub open spec fn anchor_stride(len: int) -> int {
    if (len + 511) / 512 >= 1 {
        (len + 511) / 512
    } else {
        1
    }
}

/// The anchors drawn from a list: every `anchor_stride`-th element from the first, at most
/// 512 of them.
pub open spec fn anchors_of(list: Seq<Sample>) -> Seq<Sample> {
    let s = anchor_stride(list.len() as int);
    let count = (list.len() + s - 1) / s;
    let m = if count > 512 { 512 } else { count };
    Seq::new(m as nat, |k: int| list[k * s])
}

/// The anchor pixels of a viewport with background colour `bg`: the pixels of another
/// colour, followed, when they are fewer than 16, by a grid of about eight by eight pixels.
pub open spec fn anchor_pixels(b: Seq<u8>, w: int, h: int, bg: (u8, u8, u8)) -> Seq<Sample> {
    let d = differing(b, w, w * h, bg);
    let list = if d.len() < 16 {
        d + sample_grid(b, w, h, grid_step(w), grid_step(h), 0)
    } else {
        d
    };
    anchors_of(list)
}

proof fn lemma_index_in_image(x: int, y: int, w: int, h: int)
    requires
        0 <= x < w,
        0 <= y < h,
    ensures
        0 <= y * w + x < w * h,
        3 * (y * w + x) + 2 < 3 * (w * h),
{
    assert(y * w + x < w * h) by (nonlinear_arith)
        requires
            0 <= x < w,
            0 <= y < h,
    ;
    assert(0 <= y * w) by (nonlinear_arith)
        requires
            0 <= y,
            0 <= w,
    ;
}

fn differing_pixels(img: &RgbImage, bg: (u8, u8, u8)) -> (r: Vec<Sample>)
    requires
        rgb_ok(*img),
    ensures
        r@ == differing(img.bytes@, img.width as int, img.width * img.height, bg),
{
    let w = img.width as usize;
    let h = img.height as usize;
    let len = img.bytes.len();
    proof {
        assert(w * h <= w * h * 3) by (nonlinear_arith);
    }
    let n: usize = w * h;
    let mut out: Vec<Sample> = Vec::new();
    if n == 0 {
        return out;
    }
    let ghost b = img.bytes@;
    assert(w > 0) by (nonlinear_arith)
        requires
            n == w * h,
            n != 0,
    ;
    let mut i: usize = 0;
    let mut x: u32 = 0;
    let mut y: u32 = 0;
    while i < n
        invariant
            n == img.width * img.height,
            w == img.width,
            w > 0,
            b == img.bytes@,
            3 * n <= b.len(),
            i <= n,
            x < w,
            i == y * w + x,
            out@ == differing(b, w as int, i as int, bg),
        decreases n - i,
    {
        proof {
            vstd::arithmetic::div_mod::lemma_fundamental_div_mod_converse(i as int, w as int, y as int, x as int);
            assert(y < img.height) by (nonlinear_arith)
                requires
                    i == y * w + x,
                    i < n,
                    n == w * img.height,
                    x >= 0,
            ;
            assert(i + 1 == (y + 1) * w + 0 ==> x + 1 == w) by (nonlinear_arith)
                requires
                    i == y * w + x,
            ;
            assert(x + 1 == w ==> i + 1 == (y + 1) * w) by (nonlinear_arith)
                requires
                    i == y * w + x,
            ;
        }
        let c = color_of(&img.bytes, i);
        if !(c.0 == bg.0 && c.1 == bg.1 && c.2 == bg.2) {
            out.push((x, y, c));
        }
        i = i + 1;
        if x + 1 == img.width {
            x = 0;
            y = y + 1;
        } else {
            x = x + 1;
        }
    }
    out
}

fn push_sample_row(out: &mut Vec<Sample>, img: &RgbImage, sx: u32, y: u32)
    requires
        rgb_ok(*img),
        sx >= 1,
        y < img.height,
    ensures
        final(out)@ == old(out)@ + sample_row(img.bytes@, img.width as int, sx as int, y as int, 0),
{
    let ghost b = img.bytes@;
    let ghost start = old(out)@;
    let w = img.width;
    let len = img.bytes.len();
    let mut x: u32 = 0;
    while x < w
        invariant
            w == img.width,
            b == img.bytes@,
            3 * (img.width * img.height) <= b.len(),
            len == b.len(),
            y < img.height,
            sx >= 1,
            start == old(out)@,
            out@ + sample_row(b, w as int, sx as int, y as int, x as int) == start + sample_row(b, w as int, sx as int, y as int, 0),
        decreases w - x,
    {
        proof {
            lemma_index_in_image(x as int, y as int, w as int, img.height as int);
        }
        let i: usize = (y as usize) * (w as usize) + (x as usize);
        let c = color_of(&img.bytes, i);
        let ghost before = out@;
        out.push((x, y, c));
        proof {
            assert(sample_row(b, w as int, sx as int, y as int, x as int) == seq![(x, y, c)] + sample_row(b, w as int, sx as int, y as int, x + sx));
            assert(out@ + sample_row(b, w as int, sx as int, y as int, x + sx) =~= before + sample_row(b, w as int, sx as int, y as int, x as int));
        }
        if w - x <= sx {
            proof {
                assert(sample_row(b, w as int, sx as int, y as int, x + sx) == Seq::<Sample>::empty());
                assert(out@ =~= out@ + sample_row(b, w as int, sx as int, y as int, x + sx));
            }
            return;
        }
        x = x + sx;
    }
    assert(out@ =~= out@ + sample_row(b, w as int, sx as int, y as int, x as int));
}

fn grid_samples(img: &RgbImage) -> (r: Vec<Sample>)
    requires
        rgb_ok(*img),
    ensures
        r@ == sample_grid(img.bytes@, img.width as int, img.height as int, grid_step(img.width as int), grid_step(img.height as int), 0),
{
    let ghost b = img.bytes@;
    let sx: u32 = if img.width / 8 >= 1 { img.width / 8 } else { 1 };
    let sy: u32 = if img.height / 8 >= 1 { img.height / 8 } else { 1 };
    let h = img.height;
    let mut out: Vec<Sample> = Vec::new();
    let mut y: u32 = 0;
    while y < h
        invariant
            h == img.height,
            b == img.bytes@,
            rgb_ok(*img),
            sx == grid_step(img.width as int),
            sy == grid_step(img.height as int),
            sx >= 1,
            sy >= 1,
            out@ + sample_grid(b, img.width as int, h as int, sx as int, sy as int, y as int)
                == sample_grid(b, img.width as int, h as int, sx as int, sy as int, 0),
        decreases h - y,
    {
        let ghost before = out@;
        push_sample_row(&mut out, img, sx, y);
        proof {
            assert(out@ + sample_grid(b, img.width as int, h as int, sx as int, sy as int, y + sy)
                =~= before + sample_grid(b, img.width as int, h as int, sx as int, sy as int, y as int));
        }
        if h - y <= sy {
            proof {
                assert(sample_grid(b, img.width as int, h as int, sx as int, sy as int, y + sy) == Seq::<Sample>::empty());
                assert(out@ =~= out@ + sample_grid(b, img.width as int, h as int, sx as int, sy as int, y + sy));
            }
            return out;
        }
        y = y + sy;
    }
    assert(out@ =~= out@ + sample_grid(b, img.width as int, h as int, sx as int, sy as int, y as int));
    out
}

proof fn lemma_ceil_div(len: int, s: int, k: int)
    requires
        s >= 1,
        len >= 0,
        k >= 0,
    ensures
        (k * s < len) == (k < (len + s - 1) / s),
{
    let q = (len + s - 1) / s;
    let r = (len + s - 1) % s;
    vstd::arithmetic::div_mod::lemma_fundamental_div_mod(len + s - 1, s);
    vstd::arithmetic::div_mod::lemma_mod_pos_bound(len + s - 1, s);
    assert((k * s < len) == (k < q)) by (nonlinear_arith)
        requires
            len + s - 1 == s * q + r,
            0 <= r < s,
            s >= 1,
            k >= 0,
    ;
}

fn select_anchors(list: &Vec<Sample>) -> (r: Vec<Sample>)
    ensures
        r@ == anchors_of(list@),
{
    let len = list.len();
    let s: usize = if (len / 512) + (if len % 512 == 0 { 0 } else { 1 }) >= 1 {
        (len / 512) + (if len % 512 == 0 { 0 } else { 1 })
    } else {
        1
    };
    proof {
        assert((len + 511) / 512 == len / 512 + (if len % 512 == 0 { 0int } else { 1int })) by (nonlinear_arith)
            requires
                len >= 0,
        ;
        assert(s == anchor_stride(len as int));
    }
    let ghost count = (len + s - 1) / (s as int);
    let ghost m = if count > 512 { 512 } else { count };
    let mut out: Vec<Sample> = Vec::new();
    let mut k: usize = 0;
    let mut at: usize = 0;
    while at < len && k < 512
        invariant
            len == list@.len(),
            s == anchor_stride(len as int),
            s >= 1,
            count == (len + s - 1) / (s as int),
            m == (if count > 512 { 512 } else { count }),
            at == k * s || (at == len && len <= k * s),
            k <= 512,
            k <= count,
            out@ == anchors_of(list@).take(k as int),
        decreases 512 - k,
    {
        proof {
            lemma_ceil_div(len as int, s as int, k as int);
        }
        out.push(list[at]);
        assert(out@ =~= anchors_of(list@).take(k + 1));
        proof {
            assert((k + 1) * s == k * s + s) by (nonlinear_arith);
        }
        k = k + 1;
        if len - at <= s {
            at = len;
        } else {
            at = at + s;
        }
    }
    proof {
        lemma_ceil_div(len as int, s as int, k as int);
    }
    assert(out@ =~= anchors_of(list@));
    out
}

/// Whether a sample lies inside an image `w` by `h`.
pub open spec fn in_view(p: Sample, w: int, h: int) -> bool {
    p.0 < w && p.1 < h
}

proof fn lemma_differing_in_view(b: Seq<u8>, w: int, h: int, k: int, bg: (u8, u8, u8))
    requires
        w > 0,
        w <= u32::MAX,
        h <= u32::MAX,
        0 <= k <= w * h,
    ensures
        forall|j: int| 0 <= j < differing(b, w, k, bg).len() ==> in_view(#[trigger] differing(b, w, k, bg)[j], w, h),
    decreases k,
{
    if k > 0 {
        lemma_differing_in_view(b, w, h, k - 1, bg);
        let i = k - 1;
        vstd::arithmetic::div_mod::lemma_fundamental_div_mod(i, w);
        vstd::arithmetic::div_mod::lemma_mod_pos_bound(i, w);
        assert(i / w < h) by (nonlinear_arith)
            requires
                i == w * (i / w) + i % w,
                0 <= i % w < w,
                i < w * h,
                w > 0,
        ;
        assert(0 <= i / w) by (nonlinear_arith)
            requires
                i >= 0,
                w > 0,
        ;
        let rest = differing(b, w, k - 1, bg);
        let all = differing(b, w, k, bg);
        assert forall|j: int| 0 <= j < all.len() implies in_view(#[trigger] all[j], w, h) by {
            if j < rest.len() {
                assert(all[j] == rest[j]);
            }
        }
    }
}

proof fn lemma_row_in_view(b: Seq<u8>, w: int, h: int, sx: int, y: int, x: int)
    requires
        0 <= y < h,
        x >= 0,
        w <= u32::MAX,
    ensures
        forall|j: int| 0 <= j < sample_row(b, w, sx, y, x).len() ==> in_view(#[trigger] sample_row(b, w, sx, y, x)[j], w, h),
    decreases (if x < w { w - x } else { 0 }),
{
    if x < w && sx > 0 {
        lemma_row_in_view(b, w, h, sx, y, x + sx);
        let rest = sample_row(b, w, sx, y, x + sx);
        let all = sample_row(b, w, sx, y, x);
        assert forall|j: int| 0 <= j < all.len() implies in_view(#[trigger] all[j], w, h) by {
            if j > 0 {
                assert(all[j] == rest[j - 1]);
            }
        }
    }
}

proof fn lemma_grid_in_view(b: Seq<u8>, w: int, h: int, sx: int, sy: int, y: int)
    requires
        y >= 0,
        w <= u32::MAX,
        h <= u32::MAX,
    ensures
        forall|j: int| 0 <= j < sample_grid(b, w, h, sx, sy, y).len() ==> in_view(#[trigger] sample_grid(b, w, h, sx, sy, y)[j], w, h),
    decreases (if y < h { h - y } else { 0 }),
{
    if y < h && sy > 0 {
        lemma_grid_in_view(b, w, h, sx, sy, y + sy);
        lemma_row_in_view(b, w, h, sx, y, 0);
        let row = sample_row(b, w, sx, y, 0);
        let rest = sample_grid(b, w, h, sx, sy, y + sy);
        let all = sample_grid(b, w, h, sx, sy, y);
        assert forall|j: int| 0 <= j < all.len() implies in_view(#[trigger] all[j], w, h) by {
            if j < row.len() {
                assert(all[j] == row[j]);
            } else {
                assert(all[j] == rest[j - row.len()]);
            }
        }
    }
}

/// The anchors of a viewport, as `anchor_pixels` chooses them; each lies inside it, and
/// there are at most 512.
pub fn viewport_anchors(img: &RgbImage, bg: (u8, u8, u8)) -> (r: Vec<Sample>)
    requires
        rgb_ok(*img),
    ensures
        r@ == anchor_pixels(img.bytes@, img.width as int, img.height as int, bg),
        r@.len() <= 512,
        forall|j: int| 0 <= j < r@.len() ==> in_view(#[trigger] r@[j], img.width as int, img.height as int),
{
    let ghost b = img.bytes@;
    let ghost w = img.width as int;
    let ghost h = img.height as int;
    let mut list = differing_pixels(img, bg);
    let ghost d = list@;
    proof {
        if w > 0 {
            lemma_differing_in_view(b, w, h, w * h, bg);
        } else {
            assert(w * h == 0);
            assert(d.len() == 0);
        }
    }
    if list.len() < 16 {
        let mut grid = grid_samples(img);
        let ghost g = grid@;
        proof {
            lemma_grid_in_view(b, w, h, grid_step(w), grid_step(h), 0);
        }
        list.append(&mut grid);
        proof {
            assert forall|j: int| 0 <= j < list@.len() implies in_view(#[trigger] list@[j], w, h) by {
                if j < d.len() {
                    assert(list@[j] == d[j]);
                } else {
                    assert(list@[j] == g[j - d.len()]);
                }
            }
        }
    }
    let r = select_anchors(&list);
    proof {
        let s = anchor_stride(list@.len() as int);
        assert forall|j: int| 0 <= j < r@.len() implies in_view(#[trigger] r@[j], w, h) by {
            lemma_ceil_div(list@.len() as int, s, j);
            assert(j * s >= 0) by (nonlinear_arith)
                requires
                    j >= 0,
                    s >= 1,
            ;
            assert(r@[j] == list@[j * s]);
        }
    }
    r
}

/// The difference of two channel values.
pub open spec fn channel_diff(a: u8, e: u8) -> nat {
    if a >= e {
        (a - e) as nat
    } else {
        (e - a) as nat
    }
}

/// The difference of two colours: the sum of their channel differences.
pub open spec fn pixel_error(a: (u8, u8, u8), e: (u8, u8, u8)) -> nat {
    channel_diff(a.0, e.0) + channel_diff(a.1, e.1) + channel_diff(a.2, e.2)
}

/// The colour of the host pixel at column `x`, row `y`.
pub open spec fn host_color(hb: Seq<u8>, hw: int, x: int, y: int) -> (u8, u8, u8) {
    color_at(hb, y * hw + x)
}

fn pixel_error_at(host: &RgbImage, hx: u32, hy: u32, expected: (u8, u8, u8)) -> (r: u64)
    requires
        rgb_ok(*host),
        hx < host.width,
        hy < host.height,
    ensures
        r == pixel_error(host_color(host.bytes@, host.width as int, hx as int, hy as int), expected),
        r <= 765,
{
    proof {
        lemma_index_in_image(hx as int, hy as int, host.width as int, host.height as int);
    }
    let len = host.bytes.len();
    let i: usize = (hy as usize) * (host.width as usize) + (hx as usize);
    let c = color_of(&host.bytes, i);
    let actual = [c.0, c.1, c.2];
    let wanted = [expected.0, expected.1, expected.2];
    assert(actual[0] == c.0 && actual[1] == c.1 && actual[2] == c.2);
    assert(wanted[0] == expected.0 && wanted[1] == expected.1 && wanted[2] == expected.2);
    color_error(actual, wanted)
}

/// The error of placing the viewport's top-left corner at host column `dx`, row `dy`,
/// judged by the first `k` anchors.
pub open spec fn anchor_error(hb: Seq<u8>, hw: int, anchors: Seq<Sample>, dx: int, dy: int, k: int) -> nat
    decreases k,
{
    if k <= 0 {
        0
    } else {
        let a = anchors[k - 1];
        anchor_error(hb, hw, anchors, dx, dy, k - 1) + pixel_error(host_color(hb, hw, dx + a.0, dy + a.1), a.2)
    }
}

/// A placement of the viewport inside the host.
pub open spec fn placement_ok(host: RgbImage, vw: int, vh: int, dx: int, dy: int) -> bool {
    0 <= dx && dx + vw <= host.width && 0 <= dy && dy + vh <= host.height
}

fn placement_error(host: &RgbImage, anchors: &Vec<Sample>, vw: u32, vh: u32, dx: u32, dy: u32) -> (r: u64)
    requires
        rgb_ok(*host),
        anchors@.len() <= 512,
        forall|j: int| 0 <= j < anchors@.len() ==> in_view(#[trigger] anchors@[j], vw as int, vh as int),
        placement_ok(*host, vw as int, vh as int, dx as int, dy as int),
    ensures
        r == anchor_error(host.bytes@, host.width as int, anchors@, dx as int, dy as int, anchors@.len() as int),
{
    let mut total: u64 = 0;
    let mut k: usize = 0;
    while k < anchors.len()
        invariant
            rgb_ok(*host),
            anchors@.len() <= 512,
            forall|j: int| 0 <= j < anchors@.len() ==> in_view(#[trigger] anchors@[j], vw as int, vh as int),
            placement_ok(*host, vw as int, vh as int, dx as int, dy as int),
            k <= anchors@.len(),
            total == anchor_error(host.bytes@, host.width as int, anchors@, dx as int, dy as int, k as int),
            total <= 765 * k,
        decreases anchors@.len() - k,
    {
        let a = anchors[k];
        assert(in_view(anchors@[k as int], vw as int, vh as int));
        let e = pixel_error_at(host, dx + a.0, dy + a.1, a.2);
        total = total + e;
        k = k + 1;
    }
    total
}

/// A scored placement: its anchor error, then its column and row.
pub type Candidate = (u64, u32, u32);

/// The order placements are ranked in: by error, then column, then row.
pub open spec fn cand_lt(a: Candidate, b: Candidate) -> bool {
    a.0 < b.0 || (a.0 == b.0 && (a.1 < b.1 || (a.1 == b.1 && a.2 < b.2)))
}

/// Whether placement (dx, dy) comes before (cx, cy) in a scan of rows top to bottom, each
/// left to right.
pub open spec fn scanned_before(dx: int, dy: int, cx: int, cy: int) -> bool {
    dy < cy || (dy == cy && dx < cx)
}

/// Whether `top` holds, increasing, the sixteen least candidates (all of them, when there
/// are fewer) among the placements with column at most `mx` and row at most `my` that a
/// scan reaches before (cx, cy).
pub open spec fn best_of(top: Seq<Candidate>, hb: Seq<u8>, hw: int, anchors: Seq<Sample>, mx: int, my: int, cx: int, cy: int) -> bool {
    &&& top.len() <= 16
    &&& forall|i: int, j: int| 0 <= i < j < top.len() ==> cand_lt(#[trigger] top[i], #[trigger] top[j])
    &&& forall|i: int| 0 <= i < top.len() ==> {
        let t = #[trigger] top[i];
        &&& t.1 <= mx
        &&& t.2 <= my
        &&& scanned_before(t.1 as int, t.2 as int, cx, cy)
        &&& t.0 == anchor_error(hb, hw, anchors, t.1 as int, t.2 as int, anchors.len() as int)
    }
    &&& forall|dx: int, dy: int|
        0 <= dx <= mx && 0 <= dy <= my && scanned_before(dx, dy, cx, cy) ==> #[trigger] covered(top, hb, hw, anchors, dx, dy)
}

/// Placement (dx, dy) is among `top`, or `top` is full and ranks below it.
pub open spec fn covered(top: Seq<Candidate>, hb: Seq<u8>, hw: int, anchors: Seq<Sample>, dx: int, dy: int) -> bool {
    ||| exists|i: int| 0 <= i < top.len() && top[i].1 == dx && top[i].2 == dy
    ||| top.len() == 16 && cand_lt(top.last(), (anchor_error(hb, hw, anchors, dx, dy, anchors.len() as int) as u64, dx as u32, dy as u32))
}

fn cand_less(a: Candidate, b: Candidate) -> (r: bool)
    ensures
        r == cand_lt(a, b),
{
    a.0 < b.0 || (a.0 == b.0 && (a.1 < b.1 || (a.1 == b.1 && a.2 < b.2)))
}

/// Offers the candidate of placement (cx, cy) to the sixteen best so far.
fn offer(top: &mut Vec<Candidate>, c: Candidate, Ghost(hb): Ghost<Seq<u8>>, Ghost(hw): Ghost<int>, Ghost(anchors): Ghost<Seq<Sample>>, Ghost(mx): Ghost<int>, Ghost(my): Ghost<int>)
    requires
        best_of(old(top)@, hb, hw, anchors, mx, my, c.1 as int, c.2 as int),
        c.1 <= mx,
        c.2 <= my,
        c.0 == anchor_error(hb, hw, anchors, c.1 as int, c.2 as int, anchors.len() as int),
    ensures
        best_of(final(top)@, hb, hw, anchors, mx, my,
            if c.1 < mx { c.1 + 1 } else { 0 },
            if c.1 < mx { c.2 as int } else { c.2 + 1 }),
{
    let ghost old_top = top@;
    let ghost cx = c.1 as int;
    let ghost cy = c.2 as int;
    let ghost nx = if c.1 < mx { c.1 + 1 } else { 0 };
    let ghost ny = if c.1 < mx { c.2 as int } else { c.2 + 1 };
    let ghost err = |dx: int, dy: int| anchor_error(hb, hw, anchors, dx, dy, anchors.len() as int);
    let n = top.len();
    let mut p: usize = 0;
    while p < n && !cand_less(c, top[p])
        invariant
            n == top@.len(),
            top@ == old_top,
            p <= n,
            forall|i: int| 0 <= i < p ==> !cand_lt(c, #[trigger] top@[i]),
        decreases n - p,
    {
        p = p + 1;
    }
    // Every element of the list lies before (cx, cy) in the scan, so none is `c` itself.
    assert forall|i: int| 0 <= i < n implies (#[trigger] old_top[i]).1 != c.1 || old_top[i].2 != c.2 by {
        assert(scanned_before(old_top[i].1 as int, old_top[i].2 as int, cx, cy));
    }
    assert forall|i: int| 0 <= i < p implies cand_lt(#[trigger] old_top[i], c) by {
        assert(!cand_lt(c, old_top[i]));
        assert(old_top[i].1 != c.1 || old_top[i].2 != c.2);
    }
    assert forall|i: int| p <= i < n implies cand_lt(c, #[trigger] old_top[i]) by {
        assert(cand_lt(c, old_top[p as int]));
        if i > p {
            assert(cand_lt(old_top[p as int], old_top[i]));
        }
    }
    if n == 16 && p == 16 {
        proof {
            assert forall|dx: int, dy: int|
                0 <= dx <= mx && 0 <= dy <= my && scanned_before(dx, dy, nx, ny) implies #[trigger] covered(top@, hb, hw, anchors, dx, dy) by {
                if dx == cx && dy == cy {
                    assert(cand_lt(old_top[15], c));
                } else {
                    assert(scanned_before(dx, dy, cx, cy));
                    assert(covered(old_top, hb, hw, anchors, dx, dy));
                }
            }
            assert forall|i: int| 0 <= i < top@.len() implies scanned_before((#[trigger] top@[i]).1 as int, top@[i].2 as int, nx, ny) by {
                assert(scanned_before(top@[i].1 as int, top@[i].2 as int, cx, cy));
            }
        }
        return;
    }
    top.insert(p, c);
    let ghost inserted = top@;
    assert(inserted =~= old_top.take(p as int).push(c) + old_top.skip(p as int));
    assert forall|i: int| 0 <= i < inserted.len() implies #[trigger] inserted[i] == (if i < p { old_top[i] } else if i == p { c } else { old_top[i - 1] }) by {}
    if top.len() > 16 {
        top.pop();
    }
    let ghost fin = top@;
    proof {
        assert(fin.len() <= 16);
        assert(inserted.len() == n + 1);
        assert(n == 16 ==> fin.len() == 16);
        assert(forall|i: int| 0 <= i < fin.len() ==> fin[i] == inserted[i]);
        assert forall|i: int, j: int| 0 <= i < j < fin.len() implies cand_lt(#[trigger] fin[i], #[trigger] fin[j]) by {
            assert(fin[i] == inserted[i] && fin[j] == inserted[j]);
            if i < p && j < p {
            } else if i < p && j == p {
            } else if i < p {
                assert(cand_lt(old_top[i], old_top[j - 1]));
            } else if i == p {
            } else {
                assert(cand_lt(old_top[i - 1], old_top[j - 1]));
            }
        }
        assert forall|i: int| 0 <= i < fin.len() implies {
            let t = #[trigger] fin[i];
            &&& t.1 <= mx
            &&& t.2 <= my
            &&& scanned_before(t.1 as int, t.2 as int, nx, ny)
            &&& t.0 == anchor_error(hb, hw, anchors, t.1 as int, t.2 as int, anchors.len() as int)
        } by {
            assert(fin[i] == inserted[i]);
            if i < p {
                assert(scanned_before(old_top[i].1 as int, old_top[i].2 as int, cx, cy));
            } else if i > p {
                assert(scanned_before(old_top[i - 1].1 as int, old_top[i - 1].2 as int, cx, cy));
            }
        }
        assert forall|dx: int, dy: int|
            0 <= dx <= mx && 0 <= dy <= my && scanned_before(dx, dy, nx, ny) implies #[trigger] covered(fin, hb, hw, anchors, dx, dy) by {
            let cd: Candidate = (anchor_error(hb, hw, anchors, dx, dy, anchors.len() as int) as u64, dx as u32, dy as u32);
            if dx == cx && dy == cy {
                assert(fin[p as int] == c);
            } else {
                assert(scanned_before(dx, dy, cx, cy));
                assert(covered(old_top, hb, hw, anchors, dx, dy));
                if exists|i: int| 0 <= i < n && old_top[i].1 == dx && old_top[i].2 == dy {
                    let i = choose|i: int| 0 <= i < n && old_top[i].1 == dx && old_top[i].2 == dy;
                    if i < p {
                        assert(fin[i] == old_top[i]);
                    } else if i + 1 < fin.len() {
                        assert(fin[i + 1] == old_top[i]);
                    } else {
                        // The displaced last element: everything kept ranks below it.
                        assert(i == 15 && n == 16);
                        assert(old_top[i].0 == anchor_error(hb, hw, anchors, dx, dy, anchors.len() as int));
                        assert(fin.last() == inserted[15]);
                        if p == 15 {
                            assert(cand_lt(c, old_top[15]));
                        } else {
                            assert(cand_lt(old_top[14], old_top[15]));
                        }
                    }
                } else {
                    assert(n == 16 && cand_lt(old_top.last(), cd));
                    assert(fin.last() == inserted[15]);
                    if p == 15 {
                        assert(cand_lt(c, old_top[15]));
                    } else {
                        assert(cand_lt(old_top[14], old_top[15]));
                    }
                }
            }
        }
        assert(best_of(fin, hb, hw, anchors, mx, my, nx, ny));
    }
}

fn best_placements(host: &RgbImage, anchors: &Vec<Sample>, vw: u32, vh: u32) -> (top: Vec<Candidate>)
    requires
        rgb_ok(*host),
        anchors@.len() <= 512,
        forall|j: int| 0 <= j < anchors@.len() ==> in_view(#[trigger] anchors@[j], vw as int, vh as int),
        1 <= vw <= host.width,
        1 <= vh <= host.height,
    ensures
        best_of(top@, host.bytes@, host.width as int, anchors@, host.width - vw, host.height - vh, 0, host.height - vh + 1),
{
    let mx: u32 = host.width - vw;
    let my: u32 = host.height - vh;
    let ghost hb = host.bytes@;
    let ghost hw = host.width as int;
    let mut top: Vec<Candidate> = Vec::new();
    let mut cx: u32 = 0;
    let mut cy: u32 = 0;
    while cy <= my
        invariant
            rgb_ok(*host),
            hb == host.bytes@,
            hw == host.width,
            anchors@.len() <= 512,
            forall|j: int| 0 <= j < anchors@.len() ==> in_view(#[trigger] anchors@[j], vw as int, vh as int),
            1 <= vw <= host.width,
            1 <= vh <= host.height,
            mx == host.width - vw,
            my == host.height - vh,
            cx <= mx,
            cy <= my + 1,
            cy == my + 1 ==> cx == 0,
            best_of(top@, hb, hw, anchors@, mx as int, my as int, cx as int, cy as int),
        decreases my + 1 - cy, mx - cx,
    {
        let e = placement_error(host, anchors, vw, vh, cx, cy);
        offer(&mut top, (e, cx, cy), Ghost(hb), Ghost(hw), Ghost(anchors@), Ghost(mx as int), Ghost(my as int));
        if cx < mx {
            cx = cx + 1;
        } else {
            cx = 0;
            cy = cy + 1;
        }
    }
    top
}

/// The error of the viewport placed at (dx, dy) over row `y`, at columns `x`, `x + step`, ...
pub open spec fn row_error(hb: Seq<u8>, hw: int, vb: Seq<u8>, vw: int, dx: int, dy: int, y: int, x: int, step: int) -> nat
    decreases (if x < vw { vw - x } else { 0 }),
{
    if x >= vw || step <= 0 {
        0
    } else {
        pixel_error(host_color(hb, hw, dx + x, dy + y), color_at(vb, y * vw + x)) + row_error(hb, hw, vb, vw, dx, dy, y, x + step, step)
    }
}

/// The error of the viewport placed at (dx, dy) over rows `y`, `y + step`, ..., each taken
/// every `step` columns.
pub open spec fn grid_error(hb: Seq<u8>, hw: int, vb: Seq<u8>, vw: int, vh: int, dx: int, dy: int, y: int, step: int) -> nat
    decreases (if y < vh { vh - y } else { 0 }),
{
    if y >= vh || step <= 0 {
        0
    } else {
        row_error(hb, hw, vb, vw, dx, dy, y, 0, step) + grid_error(hb, hw, vb, vw, vh, dx, dy, y + step, step)
    }
}

/// How many pixels of row `y` from column `x` on agree with the host at (dx, dy).
pub open spec fn row_exact(hb: Seq<u8>, hw: int, vb: Seq<u8>, vw: int, dx: int, dy: int, y: int, x: int) -> nat
    decreases (if x < vw { vw - x } else { 0 }),
{
    if x >= vw {
        0
    } else {
        (if host_color(hb, hw, dx + x, dy + y) == color_at(vb, y * vw + x) { 1nat } else { 0nat })
            + row_exact(hb, hw, vb, vw, dx, dy, y, x + 1)
    }
}

/// How many pixels of rows `y` on agree with the host at (dx, dy).
pub open spec fn grid_exact(hb: Seq<u8>, hw: int, vb: Seq<u8>, vw: int, vh: int, dx: int, dy: int, y: int) -> nat
    decreases (if y < vh { vh - y } else { 0 }),
{
    if y >= vh {
        0
    } else {
        row_exact(hb, hw, vb, vw, dx, dy, y, 0) + grid_exact(hb, hw, vb, vw, vh, dx, dy, y + 1)
    }
}

fn row_stats(host: &RgbImage, view: &RgbImage, dx: u32, dy: u32, y: u32, step: u32) -> (r: (u64, u64))
    requires
        rgb_ok(*host),
        rgb_ok(*view),
        placement_ok(*host, view.width as int, view.height as int, dx as int, dy as int),
        y < view.height,
        step >= 1,
    ensures
        r.0 == row_error(host.bytes@, host.width as int, view.bytes@, view.width as int, dx as int, dy as int, y as int, 0, step as int),
        step == 1 ==> r.1 == row_exact(host.bytes@, host.width as int, view.bytes@, view.width as int, dx as int, dy as int, y as int, 0),
        r.0 <= 765 * 0x1_0000_0000u64,
        r.1 <= 0x1_0000_0000u64,
{
    let ghost hb = host.bytes@;
    let ghost hw = host.width as int;
    let ghost vb = view.bytes@;
    let ghost vwi = view.width as int;
    let vw = view.width;
    let vlen = view.bytes.len();
    let mut error: u64 = 0;
    let mut exact: u64 = 0;
    let mut x: u32 = 0;
    while x < vw
        invariant
            rgb_ok(*host),
            rgb_ok(*view),
            hb == host.bytes@,
            hw == host.width,
            vb == view.bytes@,
            vlen == vb.len(),
            vw == view.width,
            vwi == vw,
            placement_ok(*host, view.width as int, view.height as int, dx as int, dy as int),
            y < view.height,
            step >= 1,
            error <= 765 * x,
            exact <= x,
            error + row_error(hb, hw, vb, vwi, dx as int, dy as int, y as int, x as int, step as int)
                == row_error(hb, hw, vb, vwi, dx as int, dy as int, y as int, 0, step as int),
            step == 1 ==> exact + row_exact(hb, hw, vb, vwi, dx as int, dy as int, y as int, x as int)
                == row_exact(hb, hw, vb, vwi, dx as int, dy as int, y as int, 0),
        decreases vw - x,
    {
        proof {
            lemma_index_in_image(x as int, y as int, vw as int, view.height as int);
        }
        let i: usize = (y as usize) * (vw as usize) + (x as usize);
        let expected = color_of(&view.bytes, i);
        let e = pixel_error_at(host, dx + x, dy + y, expected);
        error = error + e;
        if step == 1 {
            proof {
                lemma_index_in_image((dx + x) as int, (dy + y) as int, host.width as int, host.height as int);
            }
            let hlen = host.bytes.len();
            let hi: usize = ((dy + y) as usize) * (host.width as usize) + ((dx + x) as usize);
            let actual = color_of(&host.bytes, hi);
            if actual.0 == expected.0 && actual.1 == expected.1 && actual.2 == expected.2 {
                exact = exact + 1;
            }
        }
        if vw - x <= step {
            proof {
                assert(row_error(hb, hw, vb, vwi, dx as int, dy as int, y as int, x + step, step as int) == 0);
                if step == 1 {
                    assert(row_exact(hb, hw, vb, vwi, dx as int, dy as int, y as int, x + 1) == 0);
                }
            }
            return (error, exact);
        }
        x = x + step;
    }
    (error, exact)
}

/// The error over the grid of every `step`-th row and column, and, for a step of one, the
/// number of pixels that agree exactly.
fn grid_stats(host: &RgbImage, view: &RgbImage, dx: u32, dy: u32, step: u32) -> (r: (u128, u128))
    requires
        rgb_ok(*host),
        rgb_ok(*view),
        placement_ok(*host, view.width as int, view.height as int, dx as int, dy as int),
        step >= 1,
    ensures
        r.0 == grid_error(host.bytes@, host.width as int, view.bytes@, view.width as int, view.height as int, dx as int, dy as int, 0, step as int),
        step == 1 ==> r.1 == grid_exact(host.bytes@, host.width as int, view.bytes@, view.width as int, view.height as int, dx as int, dy as int, 0),
{
    let ghost hb = host.bytes@;
    let ghost hw = host.width as int;
    let ghost vb = view.bytes@;
    let ghost vw = view.width as int;
    let ghost vh = view.height as int;
    let h = view.height;
    let mut error: u128 = 0;
    let mut exact: u128 = 0;
    let mut y: u32 = 0;
    while y < h
        invariant
            rgb_ok(*host),
            rgb_ok(*view),
            hb == host.bytes@,
            hw == host.width,
            vb == view.bytes@,
            vw == view.width,
            vh == view.height,
            h == view.height,
            placement_ok(*host, view.width as int, view.height as int, dx as int, dy as int),
            step >= 1,
            error <= 765 * 0x1_0000_0000u128 * y,
            exact <= 0x1_0000_0000u128 * y,
            error + grid_error(hb, hw, vb, vw, vh, dx as int, dy as int, y as int, step as int)
                == grid_error(hb, hw, vb, vw, vh, dx as int, dy as int, 0, step as int),
            step == 1 ==> exact + grid_exact(hb, hw, vb, vw, vh, dx as int, dy as int, y as int)
                == grid_exact(hb, hw, vb, vw, vh, dx as int, dy as int, 0),
        decreases h - y,
    {
        let (e, x) = row_stats(host, view, dx, dy, y, step);
        error = error + e as u128;
        exact = exact + x as u128;
        if h - y <= step {
            proof {
                assert(grid_error(hb, hw, vb, vw, vh, dx as int, dy as int, y + step, step as int) == 0);
                if step == 1 {
                    assert(grid_exact(hb, hw, vb, vw, vh, dx as int, dy as int, y + 1) == 0);
                }
            }
            return (error, exact);
        }
        y = y + step;
    }
    (error, exact)
}

/// The sampled error of a candidate placement: every third row and column.
pub open spec fn sampled_error(hb: Seq<u8>, hw: int, vb: Seq<u8>, vw: int, vh: int, c: Candidate) -> nat {
    grid_error(hb, hw, vb, vw, vh, c.1 as int, c.2 as int, 0, 3)
}

/// Position `k` of `top` holds the first candidate of least sampled error.
pub open spec fn first_least_sampled(top: Seq<Candidate>, k: int, hb: Seq<u8>, hw: int, vb: Seq<u8>, vw: int, vh: int) -> bool {
    &&& 0 <= k < top.len()
    &&& forall|i: int| 0 <= i < top.len() ==> sampled_error(hb, hw, vb, vw, vh, top[k]) <= sampled_error(hb, hw, vb, vw, vh, #[trigger] top[i])
    &&& forall|i: int| 0 <= i < k ==> sampled_error(hb, hw, vb, vw, vh, top[k]) < sampled_error(hb, hw, vb, vw, vh, #[trigger] top[i])
}

fn least_sampled(host: &RgbImage, view: &RgbImage, top: &Vec<Candidate>) -> (k: usize)
    requires
        rgb_ok(*host),
        rgb_ok(*view),
        top@.len() >= 1,
        forall|i: int| 0 <= i < top@.len() ==> placement_ok(*host, view.width as int, view.height as int, (#[trigger] top@[i]).1 as int, top@[i].2 as int),
    ensures
        first_least_sampled(top@, k as int, host.bytes@, host.width as int, view.bytes@, view.width as int, view.height as int),
{
    let ghost hb = host.bytes@;
    let ghost hw = host.width as int;
    let ghost vb = view.bytes@;
    let ghost vw = view.width as int;
    let ghost vh = view.height as int;
    let (mut best, _) = grid_stats(host, view, top[0].1, top[0].2, 3);
    let mut k: usize = 0;
    let mut i: usize = 1;
    while i < top.len()
        invariant
            rgb_ok(*host),
            rgb_ok(*view),
            hb == host.bytes@,
            hw == host.width,
            vb == view.bytes@,
            vw == view.width,
            vh == view.height,
            forall|j: int| 0 <= j < top@.len() ==> placement_ok(*host, view.width as int, view.height as int, (#[trigger] top@[j]).1 as int, top@[j].2 as int),
            1 <= i <= top@.len(),
            k < i,
            best == sampled_error(hb, hw, vb, vw, vh, top@[k as int]),
            forall|j: int| 0 <= j < i ==> best <= sampled_error(hb, hw, vb, vw, vh, #[trigger] top@[j]),
            forall|j: int| 0 <= j < k ==> best < sampled_error(hb, hw, vb, vw, vh, #[trigger] top@[j]),
        decreases top@.len() - i,
    {
        let (e, _) = grid_stats(host, view, top[i].1, top[i].2, 3);
        if e < best {
            best = e;
            k = i;
        }
        i = i + 1;
    }
    k
}

/// Why a viewport cannot be located in the host framebuffer.
#[derive(Clone, Copy, Debug, PartialEq, Eq, Structural)]
pub enum CorrelationError {
    HostDecode,
    ViewportDecode,
    ViewportTooLarge,
    EmptyViewport,
}

impl CorrelationError {
    /// The human-readable description of the error.
    pub open spec fn text(&self) -> Seq<char> {
        match self {
            CorrelationError::HostDecode => "decode host framebuffer PNG"@,
            CorrelationError::ViewportDecode => "decode browser viewport PNG"@,
            CorrelationError::ViewportTooLarge => "browser viewport is larger than host framebuffer"@,
            CorrelationError::EmptyViewport => "browser viewport is empty"@,
        }
    }

    /// Renders the description of the error.
    pub fn message(&self) -> (r: String)
        ensures
            r@ == self.text(),
    {
        let mut s = String::new();
        match self {
            CorrelationError::HostDecode => crate::text::push_str(&mut s, "decode host framebuffer PNG"),
            CorrelationError::ViewportDecode => crate::text::push_str(&mut s, "decode browser viewport PNG"),
            CorrelationError::ViewportTooLarge => crate::text::push_str(&mut s, "browser viewport is larger than host framebuffer"),
            CorrelationError::EmptyViewport => crate::text::push_str(&mut s, "browser viewport is empty"),
        }
        s
    }
}

/// Where the viewport was found, and how well it matches there: the number of pixels that
/// agree exactly and the sum of all channel differences.
#[derive(Clone, Copy, Debug, PartialEq, Eq, Structural)]
pub struct Correlation {
    pub display_x: u32,
    pub display_y: u32,
    pub viewport_width: u32,
    pub viewport_height: u32,
    pub host_width: u32,
    pub host_height: u32,
    pub anchor_count: usize,
    pub exact_pixels: u128,
    pub absolute_error: u128,
}

/// The outcome of locating a viewport image (`vw` by `vh`, bytes `vb`) inside a host
/// image (`hw` by `hh`, bytes `hb`).
pub open spec fn correlation_outcome(hw: u32, hh: u32, hb: Seq<u8>, vw: u32, vh: u32, vb: Seq<u8>, r: Result<Correlation, CorrelationError>) -> bool {
    if !(vw <= hw && vh <= hh) {
        r == Err::<Correlation, CorrelationError>(CorrelationError::ViewportTooLarge)
    } else if vw * vh == 0 {
        r == Err::<Correlation, CorrelationError>(CorrelationError::EmptyViewport)
    } else {
        exists|j: int, top: Seq<Candidate>, k: int| #[trigger] correlated_at(hw, hh, hb, vw, vh, vb, j, top, k, r)
    }
}

/// The viewport's background is the colour of pixel `j`, `top` holds the best placements by
/// the anchors drawn against it, position `k` of `top` wins on the sampled grid, and `r`
/// reports that placement with its exact measurements.
pub open spec fn correlated_at(hw: u32, hh: u32, hb: Seq<u8>, vw: u32, vh: u32, vb: Seq<u8>, j: int, top: Seq<Candidate>, k: int, r: Result<Correlation, CorrelationError>) -> bool {
    let anchors = anchor_pixels(vb, vw as int, vh as int, color_at(vb, j));
    &&& first_most_frequent(vb, vw * vh, j)
    &&& best_of(top, hb, hw as int, anchors, hw - vw, hh - vh, 0, hh - vh + 1)
    &&& first_least_sampled(top, k, hb, hw as int, vb, vw as int, vh as int)
    &&& r == Ok::<Correlation, CorrelationError>(Correlation {
        display_x: top[k].1,
        display_y: top[k].2,
        viewport_width: vw,
        viewport_height: vh,
        host_width: hw,
        host_height: hh,
        anchor_count: anchors.len() as usize,
        exact_pixels: grid_exact(hb, hw as int, vb, vw as int, vh as int, top[k].1 as int, top[k].2 as int, 0) as u128,
        absolute_error: grid_error(hb, hw as int, vb, vw as int, vh as int, top[k].1 as int, top[k].2 as int, 0, 1) as u128,
    })
}

proof fn lemma_anchors_nonempty(vb: Seq<u8>, w: int, h: int, bg: (u8, u8, u8))
    requires
        w >= 1,
        h >= 1,
    ensures
        anchor_pixels(vb, w, h, bg).len() >= 1,
{
    let d = differing(vb, w, w * h, bg);
    let g = sample_grid(vb, w, h, grid_step(w), grid_step(h), 0);
    assert(sample_row(vb, w, grid_step(w), 0, 0).len() >= 1);
    assert(g.len() >= 1);
    let list = if d.len() < 16 { d + g } else { d };
    assert(list.len() >= 1);
    let s = anchor_stride(list.len() as int);
    lemma_ceil_div(list.len() as int, s, 0);
}

/// Locates the viewport inside the host framebuffer.
pub fn correlate(host: &RgbImage, viewport: &RgbImage) -> (r: Result<Correlation, CorrelationError>)
    requires
        rgb_ok(*host),
        rgb_ok(*viewport),
    ensures
        correlation_outcome(host.width, host.height, host.bytes@, viewport.width, viewport.height, viewport.bytes@, r),
{
    if !(viewport.width <= host.width && viewport.height <= host.height) {
        return Err(CorrelationError::ViewportTooLarge);
    }
    let j = match background_index(viewport) {
        Some(j) => j,
        None => return Err(CorrelationError::EmptyViewport),
    };
    proof {
        assert(viewport.width >= 1 && viewport.height >= 1) by (nonlinear_arith)
            requires
                viewport.width * viewport.height != 0,
        ;
    }
    let vlen = viewport.bytes.len();
    proof {
        assert(j < viewport.width * viewport.height);
    }
    let bg = color_of(&viewport.bytes, j);
    let anchors = viewport_anchors(viewport, bg);
    proof {
        lemma_anchors_nonempty(viewport.bytes@, viewport.width as int, viewport.height as int, bg);
    }
    let top = best_placements(host, &anchors, viewport.width, viewport.height);
    let ghost mx = host.width - viewport.width;
    let ghost my = host.height - viewport.height;
    proof {
        assert(covered(top@, host.bytes@, host.width as int, anchors@, 0, 0));
        assert forall|i: int| 0 <= i < top@.len() implies placement_ok(*host, viewport.width as int, viewport.height as int, (#[trigger] top@[i]).1 as int, top@[i].2 as int) by {
            let t = top@[i];
            assert(t.1 <= mx && t.2 <= my);
        }
    }
    let k = least_sampled(host, viewport, &top);
    let (absolute_error, exact_pixels) = grid_stats(host, viewport, top[k].1, top[k].2, 1);
    let r = Correlation {
        display_x: top[k].1,
        display_y: top[k].2,
        viewport_width: viewport.width,
        viewport_height: viewport.height,
        host_width: host.width,
        host_height: host.height,
        anchor_count: anchors.len(),
        exact_pixels,
        absolute_error,
    };
    proof {
        assert(correlated_at(host.width, host.height, host.bytes@, viewport.width, viewport.height, viewport.bytes@, j as int, top@, k as int, Ok(r)));
    }
    Ok(r)
}

/// What the `image` crate decodes from encoded image bytes, as RGB.
pub uninterp spec fn decoded_rgb(encoded: Seq<u8>) -> Option<(u32, u32, Seq<u8>)>;

/// Calls `image::load_from_memory`, then `DynamicImage::to_rgb8`, and hands out the
/// dimensions and raw bytes of the RGB buffer. The contract claims that the outcome is the
/// named decoding of the bytes, and that the buffer holds three bytes for every pixel, which
/// every `ImageBuffer` guarantees of its container.
#[verifier::external_body]
fn decode_rgb(encoded: &[u8]) -> (r: Option<RgbImage>)
    ensures
        match r {
            Some(img) => decoded_rgb(encoded@) == Some((img.width, img.height, img.bytes@)) && rgb_ok(img),
            None => decoded_rgb(encoded@) is None,
        },
{
    let image = image::load_from_memory(encoded).ok()?.to_rgb8();
    let (width, height) = image.dimensions();
    Some(RgbImage { width, height, bytes: image.into_raw() })
}

/// Decodes a host framebuffer PNG and a browser viewport PNG and locates the viewport
/// inside the framebuffer.
pub fn correlate_viewport_png(host_png: &[u8], viewport_png: &[u8]) -> (r: Result<Correlation, CorrelationError>)
    ensures
        match decoded_rgb(host_png@) {
            None => r == Err::<Correlation, CorrelationError>(CorrelationError::HostDecode),
            Some((hw, hh, hb)) => match decoded_rgb(viewport_png@) {
                None => r == Err::<Correlation, CorrelationError>(CorrelationError::ViewportDecode),
                Some((vw, vh, vb)) => correlation_outcome(hw, hh, hb, vw, vh, vb, r),
            },
        },
{
    let host = match decode_rgb(host_png) {
        Some(h) => h,
        None => return Err(CorrelationError::HostDecode),
    };
    let viewport = match decode_rgb(viewport_png) {
        Some(v) => v,
        None => return Err(CorrelationError::ViewportDecode),
    };
    correlate(&host, &viewport)
}

} // verus!
