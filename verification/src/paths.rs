//! Unix paths held as strings: joining as `Path::join` does, and comparing by components
//! as `Path`'s `==`, `starts_with` and `Ord` do.
use vstd::prelude::*;
use crate::strset::{chars_lt, lemma_lt_asymmetric, lemma_lt_irreflexive, lemma_lt_total, lemma_lt_transitive, str_lt};
use crate::text::{chars_equal, chars_of, push_char, push_str};

verus! {

broadcast use vstd::string::group_string_axioms;

/// A path that starts at the root directory.
pub open spec fn is_absolute(p: Seq<char>) -> bool {
    p.len() > 0 && p[0] == '/'
}

/// `Path::join` on Unix: an absolute `rel` replaces `base`; otherwise a separator is
/// added between a non-empty `base` that does not end in `/` and `rel`.
pub open spec fn path_join(base: Seq<char>, rel: Seq<char>) -> Seq<char> {
    if is_absolute(rel) {
        rel
    } else if base.len() == 0 || base.last() == '/' {
        base + rel
    } else {
        base + seq!['/'] + rel
    }
}

/// Joins `rel` onto `base`, as `Path::join` does.
pub fn join(base: &str, rel: &str) -> (r: String)
    ensures
        r@ == path_join(base@, rel@),
{
    let b = chars_of(base);
    let r = chars_of(rel);
    let mut out = String::new();
    if r.len() > 0 && r[0] == '/' {
        push_str(&mut out, rel);
        return out;
    }
    push_str(&mut out, base);
    if b.len() > 0 && b[b.len() - 1] != '/' {
        push_char(&mut out, '/');
    }
    push_str(&mut out, rel);
    out
}

/// Whether a path is absolute.
pub fn absolute(p: &str) -> (r: bool)
    ensures
        r == is_absolute(p@),
{
    let c = chars_of(p);
    c.len() > 0 && c[0] == '/'
}

/// A component of a Unix path, as `Path::components` yields it.
pub enum PathComponent {
    RootDir,
    CurDir,
    ParentDir,
    Normal(Seq<char>),
}

/// Length of the text before the first `/` of `s` (or all of it).
pub open spec fn segment_len(s: Seq<char>) -> nat
    decreases s.len(),
{
    if s.len() == 0 || s[0] == '/' {
        0
    } else {
        1 + segment_len(s.drop_first())
    }
}

pub proof fn lemma_segment_len_bound(s: Seq<char>)
    ensures
        segment_len(s) <= s.len(),
        segment_len(s) < s.len() ==> s[segment_len(s) as int] == '/',
    decreases s.len(),
{
    if s.len() > 0 && s[0] != '/' {
        lemma_segment_len_bound(s.drop_first());
    }
}

/// The pieces of `s` between slashes; there is always at least one.
pub open spec fn segments(s: Seq<char>) -> Seq<Seq<char>>
    decreases s.len(),
{
    proof {
        lemma_segment_len_bound(s);
    }
    let k = segment_len(s);
    if k >= s.len() {
        seq![s]
    } else {
        seq![s.take(k as int)] + segments(s.skip(k + 1 as int))
    }
}

/// What one piece between slashes contributes: nothing for an empty piece or `.`,
/// `ParentDir` for `..`, otherwise a normal component.
pub open spec fn part_of(seg: Seq<char>) -> Seq<PathComponent> {
    if seg.len() == 0 || seg == seq!['.'] {
        seq![]
    } else if seg == seq!['.', '.'] {
        seq![PathComponent::ParentDir]
    } else {
        seq![PathComponent::Normal(seg)]
    }
}

/// The components contributed by a list of pieces.
pub open spec fn parts_of(segs: Seq<Seq<char>>) -> Seq<PathComponent>
    decreases segs.len(),
{
    if segs.len() == 0 {
        seq![]
    } else {
        part_of(segs[0]) + parts_of(segs.drop_first())
    }
}

/// A relative path that starts with the current directory (`.` then `/` or the end).
pub open spec fn starts_at_cur_dir(p: Seq<char>) -> bool {
    !is_absolute(p) && p.len() > 0 && p[0] == '.' && (p.len() == 1 || p[1] == '/')
}

/// `Path::components` on Unix: a root, or a leading `.`, then the pieces between
/// slashes, where empty pieces and interior `.` vanish.
pub open spec fn components(p: Seq<char>) -> Seq<PathComponent> {
    if is_absolute(p) {
        seq![PathComponent::RootDir] + parts_of(segments(p.skip(1)))
    } else if starts_at_cur_dir(p) {
        seq![PathComponent::CurDir] + parts_of(segments(p.skip(1)))
    } else {
        parts_of(segments(p))
    }
}

/// A component as held at run time.
pub enum Part {
    RootDir,
    CurDir,
    ParentDir,
    Normal(Vec<char>),
}

impl View for Part {
    type V = PathComponent;

    open spec fn view(&self) -> PathComponent {
        match self {
            Part::RootDir => PathComponent::RootDir,
            Part::CurDir => PathComponent::CurDir,
            Part::ParentDir => PathComponent::ParentDir,
            Part::Normal(v) => PathComponent::Normal(v@),
        }
    }
}

/// The components held by a vector of parts.
pub open spec fn parts_view(v: Seq<Part>) -> Seq<PathComponent> {
    v.map_values(|p: Part| p@)
}

fn segment_parts(seg: Vec<char>) -> (r: Vec<Part>)
    ensures
        parts_view(r@) == part_of(seg@),
{
    let n = seg.len();
    if n == 0 || (n == 1 && seg[0] == '.') {
        let r: Vec<Part> = Vec::new();
        assert(n == 1 ==> seg@ =~= seq!['.']);
        assert(parts_view(r@) =~= part_of(seg@));
        r
    } else if n == 2 && seg[0] == '.' && seg[1] == '.' {
        assert(seg@ =~= seq!['.', '.']);
        let r = vec![Part::ParentDir];
        assert(parts_view(r@) =~= part_of(seg@));
        r
    } else {
        assert(seg@ != seq!['.']) by {
            if n == 1 {
                assert(seg@[0] != '.');
            }
        }
        assert(seg@ != seq!['.', '.']) by {
            if n == 2 {
                assert(seg@[0] != '.' || seg@[1] != '.');
            }
        }
        let ghost v = seg@;
        let r = vec![Part::Normal(seg)];
        assert(parts_view(r@) =~= part_of(v));
        r
    }
}

/// Appends the components of the text `s[start..]`.
fn push_pieces(out: &mut Vec<Part>, s: &[char], start: usize)
    requires
        start <= s@.len(),
    ensures
        parts_view(final(out)@) == parts_view(old(out)@) + parts_of(segments(s@.skip(start as int))),
{
    let n = s.len();
    let mut pos: usize = start;
    let ghost base = parts_view(out@);
    loop
        invariant
            n == s@.len(),
            start <= pos <= n,
            base == parts_view(old(out)@),
            parts_view(out@) + parts_of(segments(s@.skip(pos as int))) == base + parts_of(
                segments(s@.skip(start as int)),
            ),
        decreases n - pos,
    {
        let ghost rest = s@.skip(pos as int);
        let mut j: usize = pos;
        let mut seg: Vec<char> = Vec::new();
        while j < n && s[j] != '/'
            invariant
                n == s@.len(),
                pos <= j <= n,
                rest == s@.skip(pos as int),
                seg@ == s@.subrange(pos as int, j as int),
                segment_len(rest) == (j - pos) + segment_len(s@.skip(j as int)),
            decreases n - j,
        {
            assert(s@.skip(j as int).drop_first() =~= s@.skip(j + 1));
            seg.push(s[j]);
            assert(seg@ =~= s@.subrange(pos as int, j + 1));
            j = j + 1;
        }
        assert(segment_len(s@.skip(j as int)) == 0);
        proof {
            lemma_segment_len_bound(rest);
        }
        assert(rest.take(segment_len(rest) as int) =~= seg@);
        let ghost sv = seg@;
        let ghost before = parts_view(out@);
        let parts = segment_parts(seg);
        let mut k: usize = 0;
        while k < parts.len()
            invariant
                k <= parts@.len(),
                parts_view(parts@) == part_of(sv),
                parts_view(out@) == before + parts_view(parts@).take(k as int),
            decreases parts@.len() - k,
        {
            let p = match &parts[k] {
                Part::RootDir => Part::RootDir,
                Part::CurDir => Part::CurDir,
                Part::ParentDir => Part::ParentDir,
                Part::Normal(v) => Part::Normal(v.clone()),
            };
            assert(p@ == parts@[k as int]@) by {
                if let Part::Normal(v) = &parts@[k as int] {
                    assert(v@ == v@);
                }
            }
            out.push(p);
            assert(parts_view(out@) =~= before + parts_view(parts@).take(k + 1));
            k = k + 1;
        }
        assert(parts_view(parts@).take(k as int) =~= part_of(sv));
        if j == n {
            assert(rest =~= sv);
            assert(segments(rest) == seq![rest]);
            assert(parts_of(seq![rest]) =~= part_of(rest) + parts_of(Seq::<Seq<char>>::empty())) by {
                assert(seq![rest].drop_first() =~= Seq::<Seq<char>>::empty());
            }
            assert(parts_of(Seq::<Seq<char>>::empty()) =~= Seq::<PathComponent>::empty());
            return;
        }
        assert(rest.skip(segment_len(rest) + 1 as int) =~= s@.skip(j + 1));
        assert(segments(rest).drop_first() =~= segments(s@.skip(j + 1)));
        assert(parts_of(segments(rest)) =~= part_of(sv) + parts_of(segments(s@.skip(j + 1))));
        pos = j + 1;
    }
}

/// The components of a path, as `Path::components` yields them.
pub fn path_components(p: &[char]) -> (r: Vec<Part>)
    ensures
        parts_view(r@) == components(p@),
{
    let mut out: Vec<Part> = Vec::new();
    let n = p.len();
    if n > 0 && p[0] == '/' {
        out.push(Part::RootDir);
        push_pieces(&mut out, p, 1);
        assert(parts_view(out@) =~= components(p@));
    } else if n > 0 && p[0] == '.' && (n == 1 || p[1] == '/') {
        out.push(Part::CurDir);
        push_pieces(&mut out, p, 1);
        assert(parts_view(out@) =~= components(p@));
    } else {
        push_pieces(&mut out, p, 0);
        assert(p@.skip(0) =~= p@);
        assert(parts_view(out@) =~= components(p@));
    }
    out
}

/// The order `Component` derives: root, current, parent, then normal names by their
/// bytes (UTF-8 byte order is character order).
pub open spec fn component_rank(c: PathComponent) -> int {
    match c {
        PathComponent::RootDir => 1,
        PathComponent::CurDir => 2,
        PathComponent::ParentDir => 3,
        PathComponent::Normal(_) => 4,
    }
}

pub open spec fn component_lt(a: PathComponent, b: PathComponent) -> bool {
    if component_rank(a) != component_rank(b) {
        component_rank(a) < component_rank(b)
    } else {
        match (a, b) {
            (PathComponent::Normal(x), PathComponent::Normal(y)) => str_lt(x, y),
            _ => false,
        }
    }
}

/// `Path`'s order: lexicographic over components.
pub open spec fn components_lt(a: Seq<PathComponent>, b: Seq<PathComponent>) -> bool
    decreases a.len(),
{
    if a.len() == 0 {
        b.len() > 0
    } else if b.len() == 0 {
        false
    } else if a[0] != b[0] {
        component_lt(a[0], b[0])
    } else {
        components_lt(a.drop_first(), b.drop_first())
    }
}

/// `Path::starts_with`: the components of `base` begin the components of `p`.
pub open spec fn components_prefix(base: Seq<PathComponent>, p: Seq<PathComponent>) -> bool {
    base.len() <= p.len() && p.take(base.len() as int) == base
}

pub proof fn lemma_component_lt_strict(a: PathComponent, b: PathComponent, c: PathComponent)
    ensures
        !component_lt(a, a),
        component_lt(a, b) ==> !component_lt(b, a),
        component_lt(a, b) && component_lt(b, c) ==> component_lt(a, c),
        a == b || component_lt(a, b) || component_lt(b, a),
{
    match (a, b) {
        (PathComponent::Normal(x), PathComponent::Normal(y)) => {
            lemma_lt_total(x, y);
            if str_lt(x, y) {
                lemma_lt_asymmetric(x, y);
            }
        },
        _ => {},
    }
    if let PathComponent::Normal(x) = a {
        lemma_lt_irreflexive(x);
    }
    match (a, b, c) {
        (PathComponent::Normal(x), PathComponent::Normal(y), PathComponent::Normal(z)) => {
            if str_lt(x, y) && str_lt(y, z) {
                lemma_lt_transitive(x, y, z);
            }
        },
        _ => {},
    }
}

pub proof fn lemma_components_lt_irreflexive(a: Seq<PathComponent>)
    ensures
        !components_lt(a, a),
    decreases a.len(),
{
    if a.len() > 0 {
        lemma_components_lt_irreflexive(a.drop_first());
    }
}

pub proof fn lemma_components_lt_asymmetric(a: Seq<PathComponent>, b: Seq<PathComponent>)
    requires
        components_lt(a, b),
    ensures
        !components_lt(b, a),
    decreases a.len(),
{
    if a.len() > 0 && b.len() > 0 {
        if a[0] == b[0] {
            lemma_components_lt_asymmetric(a.drop_first(), b.drop_first());
        } else {
            lemma_component_lt_strict(a[0], b[0], b[0]);
        }
    }
}

pub proof fn lemma_components_lt_transitive(
    a: Seq<PathComponent>,
    b: Seq<PathComponent>,
    c: Seq<PathComponent>,
)
    requires
        components_lt(a, b),
        components_lt(b, c),
    ensures
        components_lt(a, c),
    decreases a.len(),
{
    if a.len() > 0 && b.len() > 0 && c.len() > 0 {
        lemma_component_lt_strict(a[0], b[0], c[0]);
        lemma_component_lt_strict(b[0], a[0], c[0]);
        lemma_component_lt_strict(a[0], c[0], b[0]);
        if a[0] == b[0] && b[0] == c[0] {
            lemma_components_lt_transitive(a.drop_first(), b.drop_first(), c.drop_first());
        }
    }
}

pub proof fn lemma_components_lt_total(a: Seq<PathComponent>, b: Seq<PathComponent>)
    ensures
        a == b || components_lt(a, b) || components_lt(b, a),
    decreases a.len(),
{
    if a.len() > 0 && b.len() > 0 {
        lemma_component_lt_strict(a[0], b[0], b[0]);
        if a[0] == b[0] {
            lemma_components_lt_total(a.drop_first(), b.drop_first());
            if a.drop_first() == b.drop_first() {
                assert(a =~= seq![a[0]] + a.drop_first());
                assert(b =~= seq![b[0]] + b.drop_first());
            }
        }
    } else if a.len() == 0 && b.len() == 0 {
        assert(a =~= b);
    }
}

fn part_equal(a: &Part, b: &Part) -> (r: bool)
    ensures
        r == (a@ == b@),
{
    match (a, b) {
        (Part::RootDir, Part::RootDir) => true,
        (Part::CurDir, Part::CurDir) => true,
        (Part::ParentDir, Part::ParentDir) => true,
        (Part::Normal(x), Part::Normal(y)) => chars_equal(x.as_slice(), y.as_slice()),
        _ => false,
    }
}

fn part_rank(a: &Part) -> (r: u8)
    ensures
        r == component_rank(a@),
{
    match a {
        Part::RootDir => 1,
        Part::CurDir => 2,
        Part::ParentDir => 3,
        Part::Normal(_) => 4,
    }
}

fn part_lt(a: &Part, b: &Part) -> (r: bool)
    ensures
        r == component_lt(a@, b@),
{
    let ra = part_rank(a);
    let rb = part_rank(b);
    if ra != rb {
        return ra < rb;
    }
    match (a, b) {
        (Part::Normal(x), Part::Normal(y)) => chars_lt(x.as_slice(), y.as_slice()),
        _ => false,
    }
}

/// Whether the components `a` precede the components `b`.
pub fn parts_lt(a: &[Part], b: &[Part]) -> (r: bool)
    ensures
        r == components_lt(parts_view(a@), parts_view(b@)),
{
    let n = a.len();
    let m = b.len();
    let ghost va = parts_view(a@);
    let ghost vb = parts_view(b@);
    let mut i: usize = 0;
    assert(va.skip(0) =~= va);
    assert(vb.skip(0) =~= vb);
    while i < n && i < m && part_equal(&a[i], &b[i])
        invariant
            i <= n,
            i <= m,
            n == a@.len(),
            m == b@.len(),
            va == parts_view(a@),
            vb == parts_view(b@),
            components_lt(va, vb) == components_lt(va.skip(i as int), vb.skip(i as int)),
        decreases n - i,
    {
        assert(va.skip(i as int).drop_first() =~= va.skip(i + 1));
        assert(vb.skip(i as int).drop_first() =~= vb.skip(i + 1));
        i = i + 1;
    }
    let ghost sa = va.skip(i as int);
    let ghost sb = vb.skip(i as int);
    if i == n {
        i < m
    } else if i == m {
        false
    } else {
        assert(sa[0] == a@[i as int]@);
        assert(sb[0] == b@[i as int]@);
        part_lt(&a[i], &b[i])
    }
}

/// Whether the components `a` and `b` are the same.
pub fn parts_equal(a: &[Part], b: &[Part]) -> (r: bool)
    ensures
        r == (parts_view(a@) == parts_view(b@)),
{
    if a.len() != b.len() {
        proof {
            if parts_view(a@) == parts_view(b@) {
                assert(parts_view(a@).len() == parts_view(b@).len());
            }
        }
        return false;
    }
    let mut i: usize = 0;
    while i < a.len()
        invariant
            a@.len() == b@.len(),
            i <= a@.len(),
            forall|k: int| 0 <= k < i ==> a@[k]@ == b@[k]@,
        decreases a@.len() - i,
    {
        if !part_equal(&a[i], &b[i]) {
            assert(parts_view(a@)[i as int] != parts_view(b@)[i as int]);
            return false;
        }
        i = i + 1;
    }
    assert(parts_view(a@) =~= parts_view(b@));
    true
}

/// Whether the components `base` begin the components `p`.
pub fn parts_prefix(base: &[Part], p: &[Part]) -> (r: bool)
    ensures
        r == components_prefix(parts_view(base@), parts_view(p@)),
{
    if base.len() > p.len() {
        return false;
    }
    let mut i: usize = 0;
    while i < base.len()
        invariant
            base@.len() <= p@.len(),
            i <= base@.len(),
            forall|k: int| 0 <= k < i ==> base@[k]@ == p@[k]@,
        decreases base@.len() - i,
    {
        if !part_equal(&base[i], &p[i]) {
            assert(parts_view(p@).take(base@.len() as int)[i as int] != parts_view(base@)[i as int]);
            return false;
        }
        i = i + 1;
    }
    assert(parts_view(p@).take(base@.len() as int) =~= parts_view(base@));
    true
}

/// Whether two paths are equal as `Path`s are: component by component.
pub fn same_path(a: &str, b: &str) -> (r: bool)
    ensures
        r == (components(a@) == components(b@)),
{
    let x = chars_of(a);
    let y = chars_of(b);
    let px = path_components(x.as_slice());
    let py = path_components(y.as_slice());
    parts_equal(px.as_slice(), py.as_slice())
}

/// Whether `path` begins with the components of `base`, as `Path::starts_with` tells.
pub fn path_starts_with(path: &str, base: &str) -> (r: bool)
    ensures
        r == components_prefix(components(base@), components(path@)),
{
    let x = chars_of(path);
    let y = chars_of(base);
    let px = path_components(x.as_slice());
    let py = path_components(y.as_slice());
    parts_prefix(py.as_slice(), px.as_slice())
}

/// The final component of a path when it is a name, as `Path::file_name` gives it.
pub open spec fn file_name_of(p: Seq<char>) -> Option<Seq<char>> {
    let c = components(p);
    if c.len() == 0 {
        None
    } else {
        match c.last() {
            PathComponent::Normal(n) => Some(n),
            _ => None,
        }
    }
}

/// The final name of a path.
pub fn file_name(p: &str) -> (r: Option<String>)
    ensures
        match file_name_of(p@) {
            Some(n) => r matches Some(s) && s@ == n,
            None => r is None,
        },
{
    let x = chars_of(p);
    let parts = path_components(x.as_slice());
    let n = parts.len();
    if n == 0 {
        return None;
    }
    assert(parts_view(parts@).last() == parts@[n - 1]@);
    match &parts[n - 1] {
        Part::Normal(v) => Some(crate::text::string_from_chars(v.as_slice())),
        _ => None,
    }
}

} // verus!
