//! Regions of a pixel mask: bounding boxes, and the 4-connected components of the set
//! pixels, each found by a breadth-first search from its first pixel in row-major order.
use vstd::prelude::*;
use vstd::arithmetic::div_mod::{lemma_fundamental_div_mod, lemma_fundamental_div_mod_converse};

verus! {

/// A rectangle of pixels.
#[derive(Clone, Copy, Debug, PartialEq, Eq, Structural)]
pub struct PixelBounds {
    pub x: u32,
    pub y: u32,
    pub width: u32,
    pub height: u32,
}

/// The smallest rectangle holding every pixel of `ps`: each pixel lies in it, and each
/// of its four edges touches a pixel.
pub open spec fn is_bbox(ps: Seq<(u32, u32)>, b: PixelBounds) -> bool {
    &&& ps.len() > 0
    &&& forall|k: int| 0 <= k < ps.len() ==> {
        &&& b.x <= (#[trigger] ps[k]).0 < b.x + b.width
        &&& b.y <= ps[k].1 < b.y + b.height
    }
    &&& exists|k: int| 0 <= k < ps.len() && (#[trigger] ps[k]).0 == b.x
    &&& exists|k: int| 0 <= k < ps.len() && (#[trigger] ps[k]).0 == b.x + b.width - 1
    &&& exists|k: int| 0 <= k < ps.len() && (#[trigger] ps[k]).1 == b.y
    &&& exists|k: int| 0 <= k < ps.len() && (#[trigger] ps[k]).1 == b.y + b.height - 1
}

/// The bounding box of a non-empty list of pixels.
pub fn bounding_box(ps: &Vec<(u32, u32)>) -> (b: PixelBounds)
    requires
        ps@.len() > 0,
        forall|k: int| 0 <= k < ps@.len() ==> (#[trigger] ps@[k]).0 < u32::MAX && ps@[k].1 < u32::MAX,
    ensures
        is_bbox(ps@, b),
{
    let mut min_x = ps[0].0;
    let mut max_x = ps[0].0;
    let mut min_y = ps[0].1;
    let mut max_y = ps[0].1;
    let ghost mut kx0: int = 0;
    let ghost mut kx1: int = 0;
    let ghost mut ky0: int = 0;
    let ghost mut ky1: int = 0;
    let mut k: usize = 1;
    while k < ps.len()
        invariant
            1 <= k <= ps@.len(),
            min_x <= max_x,
            min_y <= max_y,
            forall|j: int| 0 <= j < k ==> min_x <= (#[trigger] ps@[j]).0 <= max_x && min_y <= ps@[j].1 <= max_y,
            forall|j: int| 0 <= j < ps@.len() ==> (#[trigger] ps@[j]).0 < u32::MAX && ps@[j].1 < u32::MAX,
            0 <= kx0 < k && ps@[kx0].0 == min_x,
            0 <= kx1 < k && ps@[kx1].0 == max_x,
            0 <= ky0 < k && ps@[ky0].1 == min_y,
            0 <= ky1 < k && ps@[ky1].1 == max_y,
        decreases ps@.len() - k,
    {
        let (x, y) = ps[k];
        if x < min_x {
            min_x = x;
            proof { kx0 = k as int; }
        }
        if x > max_x {
            max_x = x;
            proof { kx1 = k as int; }
        }
        if y < min_y {
            min_y = y;
            proof { ky0 = k as int; }
        }
        if y > max_y {
            max_y = y;
            proof { ky1 = k as int; }
        }
        k = k + 1;
    }
    let b = PixelBounds { x: min_x, y: min_y, width: max_x - min_x + 1, height: max_y - min_y + 1 };
    assert(ps@[kx0].0 == b.x);
    assert(ps@[kx1].0 == b.x + b.width - 1);
    assert(ps@[ky0].1 == b.y);
    assert(ps@[ky1].1 == b.y + b.height - 1);
    b
}

/// Whether positions `i` and `j` of a row-major grid `w` wide and `n` long are
/// horizontal or vertical neighbours.
pub open spec fn adjacent(w: int, n: int, i: int, j: int) -> bool {
    &&& 0 <= i < n
    &&& 0 <= j < n
    &&& {
        ||| j == i + 1 && j % w != 0
        ||| i == j + 1 && i % w != 0
        ||| j == i + w
        ||| i == j + w
    }
}

/// A set of positions that holds every set neighbour of each of its members.
pub open spec fn closed(mask: Seq<bool>, w: int, s: Set<int>) -> bool {
    forall|i: int, j: int| #[trigger] s.contains(i) && #[trigger] adjacent(w, mask.len() as int, i, j) && mask[j] ==> s.contains(j)
}

/// A connected set of pixels of a mask.
#[derive(Clone, Debug)]
pub struct Component {
    pub bounds: PixelBounds,
    pub pixels: Vec<(u32, u32)>,
}

/// The row-major position of a pixel in a grid `w` wide.
pub open spec fn pixel_index(w: int, p: (u32, u32)) -> int {
    p.1 * w + p.0
}

/// The positions of a component's pixels, in its order.
pub open spec fn positions_of(w: int, c: Component) -> Seq<int> {
    c.pixels@.map_values(|p: (u32, u32)| pixel_index(w, p))
}

/// The pixel at a row-major position.
pub open spec fn pixel_at(w: int, i: int) -> (u32, u32) {
    ((i % w) as u32, (i / w) as u32)
}

/// One component of a mask `w` wide and `h` high: a non-empty list of distinct set
/// pixels with its bounding box, closed under neighbourhood, contained in every closed
/// set that holds its first pixel (so it is one connected component), and starting at its
/// smallest position.
pub open spec fn component_ok(mask: Seq<bool>, w: int, h: int, c: Component) -> bool {
    let ps = positions_of(w, c);
    &&& c.pixels@.len() > 0
    &&& ps.no_duplicates()
    &&& forall|m: int| 0 <= m < c.pixels@.len() ==> {
        &&& (#[trigger] c.pixels@[m]).0 < w
        &&& c.pixels@[m].1 < h
        &&& mask[pixel_index(w, c.pixels@[m])]
    }
    &&& is_bbox(c.pixels@, c.bounds)
    &&& closed(mask, w, ps.to_set())
    &&& forall|s: Set<int>| closed(mask, w, s) && #[trigger] s.contains(ps[0]) ==> ps.to_set().subset_of(s)
    &&& forall|m: int| 0 <= m < ps.len() ==> ps[0] <= #[trigger] ps[m]
}

/// Components in increasing order of their first pixel, pairwise disjoint.
pub open spec fn components_ordered(mask: Seq<bool>, w: int, h: int, cs: Seq<Component>) -> bool {
    &&& forall|k: int| 0 <= k < cs.len() ==> component_ok(mask, w, h, #[trigger] cs[k])
    &&& forall|k1: int, k2: int| 0 <= k1 < k2 < cs.len() ==> {
        &&& positions_of(w, #[trigger] cs[k1])[0] < positions_of(w, #[trigger] cs[k2])[0]
        &&& positions_of(w, cs[k1]).to_set().disjoint(positions_of(w, cs[k2]).to_set())
    }
}

/// The components of a mask: ordered, disjoint, and together holding every set pixel.
pub open spec fn components_of(mask: Seq<bool>, w: int, h: int, cs: Seq<Component>) -> bool {
    &&& components_ordered(mask, w, h, cs)
    &&& forall|i: int| 0 <= i < mask.len() && mask[i] ==> exists|k: int| 0 <= k < cs.len() && (#[trigger] positions_of(w, cs[k])).contains(i)
}

proof fn lemma_pixel_round_trip(w: int, h: int, i: int)
    requires
        0 < w <= u32::MAX,
        0 <= h <= u32::MAX,
        0 <= i < w * h,
    ensures
        pixel_index(w, pixel_at(w, i)) == i,
        (i % w) < w,
        (i / w) < h,
{
    lemma_fundamental_div_mod(i, w);
    assert(0 <= i % w < w) by {
        vstd::arithmetic::div_mod::lemma_mod_bound(i, w);
    }
    assert(0 <= i / w) by {
        vstd::arithmetic::div_mod::lemma_div_pos_is_pos(i, w);
    }
    assert(i / w < h) by (nonlinear_arith)
        requires
            i == w * (i / w) + (i % w),
            0 <= i % w,
            i < w * h,
            0 < w,
    ;
    assert((i / w) * w == w * (i / w)) by (nonlinear_arith);
}

/// The queue `q` and marks `v` after visiting neighbours of `index`, from the queue `q0`
/// and marks `v0`: the queue was extended by distinct set neighbours that were not
/// marked, and exactly those were marked.
pub open spec fn grown(mask: Seq<bool>, w: int, index: int, q0: Seq<usize>, v0: Seq<bool>, q: Seq<usize>, v: Seq<bool>) -> bool {
    &&& v.len() == mask.len()
    &&& q0.len() <= q.len()
    &&& q.take(q0.len() as int) == q0
    &&& forall|j: int| q0.len() <= j < q.len() ==> {
        &&& adjacent(w, mask.len() as int, index, #[trigger] q[j] as int)
        &&& mask[q[j] as int]
        &&& !v0[q[j] as int]
    }
    &&& forall|j1: int, j2: int| q0.len() <= j1 < j2 < q.len() ==> #[trigger] q[j1] != #[trigger] q[j2]
    &&& forall|i: int| 0 <= i < mask.len() ==> (#[trigger] v[i] <==> (v0[i] || q.subrange(q0.len() as int, q.len() as int).contains(i as usize)))
}

/// Marks `next`, a neighbour of `index`, and queues it when it is set and not yet marked.
fn visit(
    mask: &[bool],
    visited: &mut Vec<bool>,
    queue: &mut Vec<usize>,
    next: usize,
    Ghost(w): Ghost<int>,
    Ghost(index): Ghost<int>,
    Ghost(q0): Ghost<Seq<usize>>,
    Ghost(v0): Ghost<Seq<bool>>,
)
    requires
        next < mask@.len(),
        adjacent(w, mask@.len() as int, index, next as int),
        grown(mask@, w, index, q0, v0, old(queue)@, old(visited)@),
    ensures
        grown(mask@, w, index, q0, v0, final(queue)@, final(visited)@),
        mask@[next as int] ==> final(visited)@[next as int],
        forall|i: int| 0 <= i < mask@.len() && old(visited)@[i] ==> final(visited)@[i],
{
    if mask[next] && !visited[next] {
        let ghost q = queue@;
        let ghost v = visited@;
        visited.set(next, true);
        queue.push(next);
        proof {
            assert(queue@.take(q0.len() as int) =~= q0);
            assert(queue@.subrange(q0.len() as int, queue@.len() as int) =~= q.subrange(q0.len() as int, q.len() as int).push(next));
            assert(!q.subrange(q0.len() as int, q.len() as int).contains(next));
            assert forall|j1: int, j2: int| q0.len() <= j1 < j2 < queue@.len() implies #[trigger] queue@[j1] != #[trigger] queue@[j2] by {
                if j2 == q.len() {
                    if queue@[j1] == next {
                        assert(q.subrange(q0.len() as int, q.len() as int)[j1 - q0.len()] == next);
                    }
                } else {
                    assert(queue@[j1] == q[j1] && queue@[j2] == q[j2]);
                }
            }
            assert forall|j: int| q0.len() <= j < queue@.len() implies {
                &&& adjacent(w, mask@.len() as int, index, #[trigger] queue@[j] as int)
                &&& mask@[queue@[j] as int]
                &&& !v0[queue@[j] as int]
            } by {
                if j < q.len() {
                    assert(queue@[j] == q[j]);
                } else {
                    assert(queue@[j] == next);
                    assert(!v[next as int]);
                }
            }
            let ghost sub = q.subrange(q0.len() as int, q.len() as int);
            assert forall|i: int| 0 <= i < mask@.len() implies (#[trigger] visited@[i] <==> (v0[i] || queue@.subrange(q0.len() as int, queue@.len() as int).contains(i as usize))) by {
                let sub2 = queue@.subrange(q0.len() as int, queue@.len() as int);
                assert(sub2 == sub.push(next));
                if i == next as int {
                    assert(sub2[sub2.len() - 1] == next);
                } else {
                    assert(visited@[i] == v[i]);
                    if sub2.contains(i as usize) {
                        let k = choose|k: int| 0 <= k < sub2.len() && sub2[k] == i as usize;
                        assert(sub[k] == i as usize);
                    }
                    if sub.contains(i as usize) {
                        let k = choose|k: int| 0 <= k < sub.len() && sub[k] == i as usize;
                        assert(sub2[k] == i as usize);
                    }
                }
            }
        }
    }
}

/// Visits the left, right, upper and lower neighbours of `index`, in that order.
fn visit_neighbours(mask: &[bool], visited: &mut Vec<bool>, queue: &mut Vec<usize>, index: usize, width: usize, height: usize)
    requires
        mask@.len() == width * height,
        0 < width,
        index < mask@.len(),
        old(visited)@.len() == mask@.len(),
    ensures
        grown(mask@, width as int, index as int, old(queue)@, old(visited)@, final(queue)@, final(visited)@),
        forall|q: int| adjacent(width as int, mask@.len() as int, index as int, q) && mask@[q] ==> final(visited)@[q],
{
    let n = mask.len();
    let ghost w = width as int;
    let ghost q0 = queue@;
    let ghost v0 = visited@;
    proof {
        assert(queue@.take(q0.len() as int) =~= q0);
        assert(queue@.subrange(q0.len() as int, queue@.len() as int) =~= Seq::<usize>::empty());
        assert(n >= width) by (nonlinear_arith)
            requires
                n == width * height,
                index < n,
                0 < width,
        ;
    }
    proof {
        if index == 0 {
            vstd::arithmetic::div_mod::lemma_small_mod(0, width as nat);
        }
    }
    if index % width != 0 {
        visit(mask, visited, queue, index - 1, Ghost(w), Ghost(index as int), Ghost(q0), Ghost(v0));
    }
    let ghost v1 = visited@;
    if index + 1 < n && (index + 1) % width != 0 {
        visit(mask, visited, queue, index + 1, Ghost(w), Ghost(index as int), Ghost(q0), Ghost(v0));
    }
    let ghost v2 = visited@;
    if index >= width {
        visit(mask, visited, queue, index - width, Ghost(w), Ghost(index as int), Ghost(q0), Ghost(v0));
    }
    let ghost v3 = visited@;
    if index < n - width {
        visit(mask, visited, queue, index + width, Ghost(w), Ghost(index as int), Ghost(q0), Ghost(v0));
    }
    proof {
        assert forall|q: int| adjacent(w, n as int, index as int, q) && mask@[q] implies visited@[q] by {
            if q == index + 1 && q % w != 0 {
                assert(v2[q]);
            } else if index == q + 1 && (index as int) % w != 0 {
                assert(v1[q]);
                assert(v2[q]);
            } else if q == index + w {
                assert(visited@[q]);
            } else {
                assert(v3[q]);
            }
        }
    }
}

/// The set of positions of a queue.
pub open spec fn queued(q: Seq<usize>) -> Set<int> {
    queue_positions(q).to_set()
}

/// The state of a breadth-first search from `start` with the queue `q`, marks `v` and
/// `head` positions processed, beside the positions `d0` of earlier components: the
/// marks are `d0` and the queue; the queue holds distinct set positions outside `d0`,
/// from `start` on; every set neighbour of a processed position is queued; and every
/// closed set that holds `start` holds the whole queue.
pub open spec fn bfs_state(ms: Seq<bool>, w: int, start: int, d0: Set<int>, q: Seq<usize>, v: Seq<bool>, head: int) -> bool {
    let n = ms.len() as int;
    &&& v.len() == n
    &&& forall|i: int| 0 <= i < n ==> (#[trigger] v[i] <==> (d0.contains(i) || q.contains(i as usize)))
    &&& q.len() >= 1
    &&& q[0] == start
    &&& 0 <= head <= q.len()
    &&& q.no_duplicates()
    &&& forall|j: int| 0 <= j < q.len() ==> {
        &&& (#[trigger] q[j]) < n
        &&& ms[q[j] as int]
        &&& !d0.contains(q[j] as int)
        &&& start <= q[j]
    }
    &&& forall|j: int, p: int| 0 <= j < head && #[trigger] adjacent(w, n, q[j] as int, p) && ms[p] ==> q.contains(p as usize)
    &&& forall|s: Set<int>, j: int| closed(ms, w, s) && #[trigger] s.contains(start) && 0 <= j < q.len() ==> s.contains(#[trigger] q[j] as int)
}

/// The positions that a search beside `d0` may rely on: `d0` is closed and holds only
/// set positions, among them every set position before `start`.
pub open spec fn bfs_context(ms: Seq<bool>, w: int, start: int, d0: Set<int>) -> bool {
    &&& 0 <= start < ms.len()
    &&& ms[start]
    &&& !d0.contains(start)
    &&& closed(ms, w, d0)
    &&& forall|i: int| #[trigger] d0.contains(i) ==> 0 <= i < ms.len() && ms[i]
    &&& forall|i: int| 0 <= i < start && ms[i] ==> #[trigger] d0.contains(i)
}

proof fn lemma_bfs_step(
    ms: Seq<bool>,
    w: int,
    start: int,
    d0: Set<int>,
    q: Seq<usize>,
    v: Seq<bool>,
    q2: Seq<usize>,
    v2: Seq<bool>,
    hd: int,
)
    requires
        bfs_context(ms, w, start, d0),
        bfs_state(ms, w, start, d0, q, v, hd),
        hd < q.len(),
        grown(ms, w, q[hd] as int, q, v, q2, v2),
        forall|p: int| adjacent(w, ms.len() as int, q[hd] as int, p) && ms[p] ==> v2[p],
    ensures
        bfs_state(ms, w, start, d0, q2, v2, hd + 1),
{
    let n = ms.len() as int;
    let index = q[hd] as int;
    let added = q2.subrange(q.len() as int, q2.len() as int);
    assert(q2 =~= q + added);
    assert forall|i: int| 0 <= i < n implies (#[trigger] v2[i] <==> (d0.contains(i) || q2.contains(i as usize))) by {
        if q2.contains(i as usize) {
            let j = choose|j: int| 0 <= j < q2.len() && q2[j] == i as usize;
            if j < q.len() {
                assert(q[j] == i as usize);
            } else {
                assert(added[j - q.len()] == i as usize);
            }
        }
        if q.contains(i as usize) {
            let j = choose|j: int| 0 <= j < q.len() && q[j] == i as usize;
            assert(q2[j] == i as usize);
        }
        if added.contains(i as usize) {
            let j = choose|j: int| 0 <= j < added.len() && added[j] == i as usize;
            assert(q2[j + q.len()] == i as usize);
        }
    }
    assert forall|j: int| 0 <= j < q2.len() implies {
        &&& (#[trigger] q2[j]) < n
        &&& ms[q2[j] as int]
        &&& !d0.contains(q2[j] as int)
        &&& start <= q2[j]
    } by {
        if j >= q.len() {
            let e = q2[j] as int;
            assert(adjacent(w, n, index, e));
            assert(!v[e]);
            if e < start {
                assert(d0.contains(e));
            }
        } else {
            assert(q2[j] == q[j]);
        }
    }
    assert forall|j1: int, j2: int| 0 <= j1 < q2.len() && 0 <= j2 < q2.len() && j1 != j2 implies q2[j1] != q2[j2] by {
        if j1 < q.len() && j2 < q.len() {
            assert(q2[j1] == q[j1] && q2[j2] == q[j2]);
        } else if j1 >= q.len() && j2 >= q.len() {
            if j1 < j2 {
                assert(q2[j1] != q2[j2]);
            } else {
                assert(q2[j2] != q2[j1]);
            }
        } else if j1 < q.len() {
            assert(q2[j1] == q[j1]);
            assert(v[q[j1] as int]);
            assert(!v[q2[j2] as int]);
        } else {
            assert(q2[j2] == q[j2]);
            assert(v[q[j2] as int]);
            assert(!v[q2[j1] as int]);
        }
    }
    assert forall|j: int, p: int| 0 <= j < hd + 1 && #[trigger] adjacent(w, n, q2[j] as int, p) && ms[p] implies q2.contains(p as usize) by {
        assert(q2[j] == q[j]);
        if j < hd {
            assert(q.contains(p as usize));
            let k = choose|k: int| 0 <= k < q.len() && q[k] == p as usize;
            assert(q2[k] == p as usize);
        } else {
            assert(v2[p]);
            if d0.contains(p) {
                assert(adjacent(w, n, p, index));
                assert(d0.contains(index));
            }
        }
    }
    assert forall|s: Set<int>, j: int| closed(ms, w, s) && #[trigger] s.contains(start) && 0 <= j < q2.len() implies s.contains(#[trigger] q2[j] as int) by {
        if j < q.len() {
            assert(q2[j] == q[j]);
        } else {
            assert(s.contains(q[hd] as int));
            assert(adjacent(w, n, index, q2[j] as int));
        }
    }
}

proof fn lemma_component_found(ms: Seq<bool>, w: int, h: int, start: int, d0: Set<int>, q: Seq<usize>, v: Seq<bool>, c: Component)
    requires
        0 < w <= u32::MAX,
        0 <= h <= u32::MAX,
        ms.len() == w * h,
        ms.len() <= usize::MAX,
        bfs_context(ms, w, start, d0),
        bfs_state(ms, w, start, d0, q, v, q.len() as int),
        c.pixels@.len() == q.len(),
        forall|j: int| 0 <= j < q.len() ==> #[trigger] c.pixels@[j] == pixel_at(w, q[j] as int),
        is_bbox(c.pixels@, c.bounds),
    ensures
        component_ok(ms, w, h, c),
        positions_of(w, c) == queue_positions(q),
{
    let ps = positions_of(w, c);
    assert forall|j: int| 0 <= j < q.len() implies #[trigger] ps[j] == q[j] as int by {
        lemma_pixel_round_trip(w, h, q[j] as int);
    }
    assert(ps =~= queue_positions(q));
    assert forall|m: int| 0 <= m < c.pixels@.len() implies {
        &&& (#[trigger] c.pixels@[m]).0 < w
        &&& c.pixels@[m].1 < h
        &&& ms[pixel_index(w, c.pixels@[m])]
    } by {
        lemma_pixel_round_trip(w, h, q[m] as int);
    }
    assert forall|i: int, j: int| #[trigger] ps.to_set().contains(i) && #[trigger] adjacent(w, ms.len() as int, i, j) && ms[j] implies ps.to_set().contains(j) by {
        let k = choose|k: int| 0 <= k < ps.len() && ps[k] == i;
        assert(q.contains(j as usize));
        let m = choose|m: int| 0 <= m < q.len() && q[m] == j as usize;
        assert(ps[m] == j);
    }
    assert forall|s: Set<int>| closed(ms, w, s) && #[trigger] s.contains(ps[0]) implies ps.to_set().subset_of(s) by {
        assert forall|i: int| ps.to_set().contains(i) implies s.contains(i) by {
            let k = choose|k: int| 0 <= k < ps.len() && ps[k] == i;
            assert(s.contains(q[k] as int));
        }
    }
    assert forall|j1: int, j2: int| 0 <= j1 < ps.len() && 0 <= j2 < ps.len() && j1 != j2 implies ps[j1] != ps[j2] by {
        assert(q[j1] != q[j2]);
    }
}

/// The positions of a queue, in order.
pub open spec fn queue_positions(q: Seq<usize>) -> Seq<int> {
    q.map_values(|i: usize| i as int)
}

proof fn lemma_components_extended(
    ms: Seq<bool>,
    w: int,
    h: int,
    start: int,
    d0: Set<int>,
    q: Seq<usize>,
    old_cs: Seq<Component>,
    c: Component,
)
    requires
        bfs_context(ms, w, start, d0),
        q.len() >= 1,
        q[0] == start,
        forall|j: int| 0 <= j < q.len() ==> !d0.contains(#[trigger] q[j] as int) && q[j] < ms.len() && ms[q[j] as int],
        component_ok(ms, w, h, c),
        positions_of(w, c) == queue_positions(q),
        components_ordered(ms, w, h, old_cs),
        forall|k: int| 0 <= k < old_cs.len() ==> positions_of(w, #[trigger] old_cs[k])[0] < start,
        forall|i: int| #[trigger] d0.contains(i) <==> exists|k: int| 0 <= k < old_cs.len() && (#[trigger] positions_of(w, old_cs[k])).contains(i),
    ensures
        components_ordered(ms, w, h, old_cs.push(c)),
        forall|k: int| 0 <= k < old_cs.len() + 1 ==> positions_of(w, #[trigger] old_cs.push(c)[k])[0] < start + 1,
        forall|i: int| #[trigger] d0.union(queued(q)).contains(i) <==> exists|k: int| 0 <= k < old_cs.len() + 1 && (#[trigger] positions_of(w, old_cs.push(c)[k])).contains(i),
        closed(ms, w, d0.union(queued(q))),
        forall|i: int| #[trigger] d0.union(queued(q)).contains(i) ==> 0 <= i < ms.len() && ms[i],
        forall|i: int| 0 <= i < start + 1 && ms[i] ==> #[trigger] d0.union(queued(q)).contains(i),
{
    let cs = old_cs.push(c);
    let qs = queued(q);
    let ps = positions_of(w, c);
    assert(qs =~= ps.to_set());
    assert(ps[0] == start);
    assert forall|k: int| 0 <= k < old_cs.len() implies positions_of(w, #[trigger] old_cs[k]).to_set().disjoint(ps.to_set()) by {
        assert forall|i: int| positions_of(w, old_cs[k]).to_set().contains(i) implies !ps.to_set().contains(i) by {
            assert(positions_of(w, old_cs[k]).contains(i));
            assert(d0.contains(i));
            if ps.to_set().contains(i) {
                let j = choose|j: int| 0 <= j < ps.len() && ps[j] == i;
                assert(q[j] as int == i);
            }
        }
    }
    assert forall|k1: int, k2: int| 0 <= k1 < k2 < cs.len() implies {
        &&& positions_of(w, #[trigger] cs[k1])[0] < positions_of(w, #[trigger] cs[k2])[0]
        &&& positions_of(w, cs[k1]).to_set().disjoint(positions_of(w, cs[k2]).to_set())
    } by {
        if k2 == old_cs.len() {
            assert(cs[k1] == old_cs[k1]);
            assert(cs[k2] == c);
        } else {
            assert(cs[k1] == old_cs[k1] && cs[k2] == old_cs[k2]);
        }
    }
    assert forall|k: int| 0 <= k < cs.len() implies component_ok(ms, w, h, #[trigger] cs[k]) by {
        if k < old_cs.len() {
            assert(cs[k] == old_cs[k]);
        }
    }
    assert forall|k: int| 0 <= k < old_cs.len() + 1 implies positions_of(w, #[trigger] cs[k])[0] < start + 1 by {
        if k < old_cs.len() {
            assert(cs[k] == old_cs[k]);
        }
    }
    assert forall|i: int| #[trigger] d0.union(qs).contains(i) <==> exists|k: int| 0 <= k < old_cs.len() + 1 && (#[trigger] positions_of(w, cs[k])).contains(i) by {
        if d0.contains(i) {
            let k = choose|k: int| 0 <= k < old_cs.len() && (#[trigger] positions_of(w, old_cs[k])).contains(i);
            assert(cs[k] == old_cs[k]);
        }
        if qs.contains(i) {
            assert(ps.contains(i));
            assert(cs[old_cs.len() as int] == c);
        }
        if exists|k: int| 0 <= k < old_cs.len() + 1 && (#[trigger] positions_of(w, cs[k])).contains(i) {
            let k = choose|k: int| 0 <= k < old_cs.len() + 1 && (#[trigger] positions_of(w, cs[k])).contains(i);
            if k < old_cs.len() {
                assert(cs[k] == old_cs[k]);
            } else {
                assert(cs[k] == c);
                assert(ps.to_set().contains(i));
            }
        }
    }
    assert forall|i: int, j: int| #[trigger] d0.union(qs).contains(i) && #[trigger] adjacent(w, ms.len() as int, i, j) && ms[j] implies d0.union(qs).contains(j) by {
        if d0.contains(i) {
            assert(d0.contains(j));
        } else {
            assert(ps.to_set().contains(i));
            assert(ps.to_set().contains(j));
        }
    }
    assert forall|i: int| #[trigger] d0.union(qs).contains(i) implies 0 <= i < ms.len() && ms[i] by {
        if qs.contains(i) {
            assert(ps.to_set().contains(i));
            let m = choose|m: int| 0 <= m < ps.len() && ps[m] == i;
            assert(ps[m] == q[m] as int);
        }
    }
    assert forall|i: int| 0 <= i < start + 1 && ms[i] implies #[trigger] d0.union(qs).contains(i) by {
        if i == start {
            assert(ps.to_set().contains(ps[0]));
        }
    }
}

proof fn lemma_queue_bounded(q: Seq<usize>, n: int)
    requires
        q.no_duplicates(),
        0 <= n,
        forall|j: int| 0 <= j < q.len() ==> (#[trigger] q[j]) < n,
    ensures
        q.len() <= n,
{
    let ps = queue_positions(q);
    assert forall|j1: int, j2: int| 0 <= j1 < ps.len() && 0 <= j2 < ps.len() && j1 != j2 implies ps[j1] != ps[j2] by {
        assert(q[j1] != q[j2]);
    }
    ps.unique_seq_to_set();
    vstd::set_lib::lemma_int_range(0, n);
    assert(ps.to_set().subset_of(vstd::set_lib::set_int_range(0, n)));
    vstd::set_lib::lemma_len_subset(ps.to_set(), vstd::set_lib::set_int_range(0, n));
}

/// The 4-connected components of the set pixels of a row-major mask `width` wide and
/// `height` high, in increasing order of their first pixel; each holds its pixels in
/// the order a breadth-first search from that pixel reaches them (left, right, up, down).
pub fn connected_components(mask: &[bool], width: usize, height: usize) -> (r: Vec<Component>)
    requires
        mask@.len() == width * height,
        0 < width <= u32::MAX,
        height <= u32::MAX,
    ensures
        components_of(mask@, width as int, height as int, r@),
{
    let n = mask.len();
    let ghost w = width as int;
    let ghost h = height as int;
    let ghost ms = mask@;
    let mut visited: Vec<bool> = Vec::new();
    for i in 0..n
        invariant
            visited@.len() == i,
            forall|j: int| 0 <= j < i ==> !visited@[j],
    {
        visited.push(false);
    }
    let mut comps: Vec<Component> = Vec::new();
    let ghost mut done: Set<int> = Set::empty();
    let mut start: usize = 0;
    while start < n
        invariant
            n == ms.len(),
            ms == mask@,
            w == width as int,
            h == height as int,
            n == width * height,
            0 < width <= u32::MAX,
            height <= u32::MAX,
            start <= n,
            visited@.len() == n,
            forall|i: int| 0 <= i < n ==> (#[trigger] visited@[i] <==> done.contains(i)),
            forall|i: int| #[trigger] done.contains(i) ==> 0 <= i < n && ms[i],
            closed(ms, w, done),
            forall|i: int| 0 <= i < start && ms[i] ==> #[trigger] done.contains(i),
            forall|i: int| #[trigger] done.contains(i) <==> exists|k: int| 0 <= k < comps@.len() && (#[trigger] positions_of(w, comps@[k])).contains(i),
            forall|k: int| 0 <= k < comps@.len() ==> positions_of(w, #[trigger] comps@[k])[0] < start,
            components_ordered(ms, w, h, comps@),
        decreases n - start,
    {
        if !mask[start] || visited[start] {
            start = start + 1;
            continue;
        }
        let ghost d0 = done;
        let mut queue: Vec<usize> = Vec::new();
        queue.push(start);
        visited.set(start, true);
        let mut head: usize = 0;
        proof {
            assert(queue@[0] == start);
            assert(queue@.contains(start));
            assert forall|s: Set<int>, j: int| closed(ms, w, s) && #[trigger] s.contains(start as int) && 0 <= j < queue@.len()
                implies s.contains(#[trigger] queue@[j] as int) by {}
            assert(bfs_context(ms, w, start as int, d0));
            assert(bfs_state(ms, w, start as int, d0, queue@, visited@, 0));
        }
        while head < queue.len()
            invariant
                n == ms.len(),
                ms == mask@,
                w == width as int,
                n == width * height,
                0 < width <= u32::MAX,
                bfs_context(ms, w, start as int, d0),
                bfs_state(ms, w, start as int, d0, queue@, visited@, head as int),
                queue@.len() <= n,
            decreases n - head,
        {
            let index = queue[head];
            let ghost q_before = queue@;
            let ghost v_before = visited@;
            let ghost hd = head as int;
            head = head + 1;
            visit_neighbours(mask, &mut visited, &mut queue, index, width, height);
            proof {
                lemma_bfs_step(ms, w, start as int, d0, q_before, v_before, queue@, visited@, hd);
                lemma_queue_bounded(queue@, n as int);
            }
        }
        let mut pixels: Vec<(u32, u32)> = Vec::new();
        let mut k: usize = 0;
        while k < queue.len()
            invariant
                0 < width <= u32::MAX,
                height <= u32::MAX,
                n == width * height,
                w == width as int,
                h == height as int,
                k <= queue@.len(),
                forall|j: int| 0 <= j < queue@.len() ==> (#[trigger] queue@[j]) < n,
                pixels@.len() == k,
                forall|j: int| 0 <= j < k ==> #[trigger] pixels@[j] == pixel_at(w, queue@[j] as int),
                forall|j: int| 0 <= j < k ==> (#[trigger] pixels@[j]).0 < u32::MAX && pixels@[j].1 < u32::MAX,
            decreases queue@.len() - k,
        {
            let i = queue[k];
            proof {
                lemma_pixel_round_trip(w, h, i as int);
            }
            pixels.push(((i % width) as u32, (i / width) as u32));
            k = k + 1;
        }
        let bounds = bounding_box(&pixels);
        let comp = Component { bounds, pixels };
        proof {
            lemma_component_found(ms, w, h, start as int, d0, queue@, visited@, comp);
        }
        let ghost old_comps = comps@;
        let ghost cg = comp;
        comps.push(comp);
        proof {
            let added = queued(queue@);
            done = d0.union(added);
            lemma_components_extended(ms, w, h, start as int, d0, queue@, old_comps, cg);
            assert(comps@ == old_comps.push(cg));
            assert forall|i: int| 0 <= i < n implies (#[trigger] visited@[i] <==> done.contains(i)) by {
                let qp = queue_positions(queue@);
                if queue@.contains(i as usize) {
                    let j = choose|j: int| 0 <= j < queue@.len() && queue@[j] == i as usize;
                    assert(qp[j] == i);
                }
                if added.contains(i) {
                    let j = choose|j: int| 0 <= j < qp.len() && #[trigger] qp[j] == i;
                    assert(queue@[j] == i as usize);
                }
            }
        }
        start = start + 1;
    }
    proof {
        assert forall|i: int| 0 <= i < ms.len() && ms[i] implies exists|k: int| 0 <= k < comps@.len() && (#[trigger] positions_of(w, comps@[k])).contains(i) by {
            assert(done.contains(i));
        }
    }
    comps
}

} // verus!
