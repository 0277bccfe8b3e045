//! Guest state paths: relative, normal, sorted by `Path`'s order, without repeats, and
//! with no path inside another.
use vstd::prelude::*;
use crate::paths::{
    components, components_lt, components_prefix, lemma_components_lt_asymmetric,
    lemma_components_lt_irreflexive, lemma_components_lt_total, lemma_components_lt_transitive,
    parts_equal, parts_lt, parts_prefix, parts_view, path_components, Part, PathComponent,
};
use crate::strset::lemma_to_set_push;
use crate::text::{views, chars_of, push_str};

verus! {

broadcast use vstd::string::group_string_axioms;

/// The paths of `s` that are the first of their kind: a path equal (as `Path`s are) to an
/// earlier one is dropped.
pub open spec fn first_of_each(s: Seq<Seq<char>>) -> Seq<Seq<char>>
    decreases s.len(),
{
    if s.len() == 0 {
        seq![]
    } else {
        let r = first_of_each(s.drop_last());
        if exists|j: int| 0 <= j < s.len() - 1 && components(#[trigger] s[j]) == components(s.last()) {
            r
        } else {
            r.push(s.last())
        }
    }
}

/// Strictly increasing in `Path`'s order.
pub open spec fn path_increasing(s: Seq<Seq<char>>) -> bool {
    forall|i: int, j: int|
        0 <= i < j < s.len() ==> components_lt(components(#[trigger] s[i]), components(#[trigger] s[j]))
}

/// The members of a set of paths in `Path`'s order.
pub open spec fn path_order(s: Set<Seq<char>>) -> Seq<Seq<char>> {
    choose|q: Seq<Seq<char>>| path_increasing(q) && q.to_set() == s
}

/// A guest state path: not empty, and every component a plain name (no root, `.` or `..`).
pub open spec fn normal_relative(p: Seq<char>) -> bool {
    p.len() > 0 && forall|i: int| 0 <= i < components(p).len() ==> (#[trigger] components(p)[i]) is Normal
}

/// Index of the first path of `t[k..]` that is not a guest state path.
pub open spec fn first_abnormal(t: Seq<Seq<char>>, k: int) -> Option<int>
    decreases t.len() - k,
{
    if k < 0 || k >= t.len() {
        None
    } else if !normal_relative(t[k]) {
        Some(k)
    } else {
        first_abnormal(t, k + 1)
    }
}

/// Index of the first `i >= k` where `t[i + 1]` lies inside `t[i]`.
pub open spec fn first_overlap(t: Seq<Seq<char>>, k: int) -> Option<int>
    decreases t.len() - k,
{
    if k < 0 || k + 1 >= t.len() {
        None
    } else if components_prefix(components(t[k]), components(t[k + 1])) {
        Some(k)
    } else {
        first_overlap(t, k + 1)
    }
}

/// Why a list of guest state paths was refused.
#[derive(Clone, Debug, PartialEq, Eq)]
pub enum GuestPathError {
    /// A path is empty, absolute, or has a `.` or `..` component.
    NotNormalRelative { path: String },
    /// The second path lies inside the first.
    Overlap { outer: String, inner: String },
}

/// The outcome `validate_guest_state_paths` owes for `input`.
pub open spec fn guest_paths_outcome(input: Seq<Seq<char>>, r: Result<Vec<String>, GuestPathError>) -> bool {
    let t = path_order(first_of_each(input).to_set());
    match first_abnormal(t, 0) {
        Some(i) => r matches Err(GuestPathError::NotNormalRelative { path }) && path@ == t[i],
        None => match first_overlap(t, 0) {
            Some(i) => r matches Err(GuestPathError::Overlap { outer, inner }) && outer@ == t[i]
                && inner@ == t[i + 1],
            None => r matches Ok(v) && views(v@) == t,
        },
    }
}

/// Two increasing sequences of paths with the same members are equal.
pub proof fn lemma_path_order_determined(va: Seq<Seq<char>>, vb: Seq<Seq<char>>)
    requires
        path_increasing(va),
        path_increasing(vb),
        va.to_set() == vb.to_set(),
    ensures
        va == vb,
    decreases va.len(),
{
    if va.len() == 0 {
        if vb.len() > 0 {
            assert(vb.to_set().contains(vb[0]));
        }
        assert(va =~= vb);
    } else if vb.len() == 0 {
        assert(va.to_set().contains(va[0]));
    } else {
        assert(vb.to_set().contains(va[0]));
        assert(va.to_set().contains(vb[0]));
        let i = choose|i: int| 0 <= i < vb.len() && vb[i] == va[0];
        let j = choose|j: int| 0 <= j < va.len() && va[j] == vb[0];
        if i > 0 {
            assert(components_lt(components(vb[0]), components(vb[i])));
            if j > 0 {
                assert(components_lt(components(va[0]), components(va[j])));
                lemma_components_lt_asymmetric(components(vb[0]), components(va[0]));
            } else {
                lemma_components_lt_irreflexive(components(va[0]));
            }
        }
        assert(va[0] == vb[0]);
        let ra = va.drop_first();
        let rb = vb.drop_first();
        assert forall|x: Seq<char>| ra.to_set().contains(x) <==> rb.to_set().contains(x) by {
            if ra.contains(x) {
                let k = choose|k: int| 0 <= k < ra.len() && ra[k] == x;
                assert(va[k + 1] == x);
                assert(vb.to_set().contains(x));
                let m = choose|m: int| 0 <= m < vb.len() && vb[m] == x;
                assert(components_lt(components(va[0]), components(va[k + 1])));
                if m == 0 {
                    lemma_components_lt_irreflexive(components(x));
                }
                assert(rb[m - 1] == x);
            }
            if rb.contains(x) {
                let k = choose|k: int| 0 <= k < rb.len() && rb[k] == x;
                assert(vb[k + 1] == x);
                assert(va.to_set().contains(x));
                let m = choose|m: int| 0 <= m < va.len() && va[m] == x;
                assert(components_lt(components(vb[0]), components(vb[k + 1])));
                if m == 0 {
                    lemma_components_lt_irreflexive(components(x));
                }
                assert(ra[m - 1] == x);
            }
        }
        assert(ra.to_set() =~= rb.to_set());
        assert(path_increasing(ra)) by {
            assert forall|a: int, b: int| 0 <= a < b < ra.len() implies components_lt(
                components(#[trigger] ra[a]),
                components(#[trigger] ra[b]),
            ) by {
                assert(ra[a] == va[a + 1]);
                assert(ra[b] == va[b + 1]);
            }
        }
        assert(path_increasing(rb)) by {
            assert forall|a: int, b: int| 0 <= a < b < rb.len() implies components_lt(
                components(#[trigger] rb[a]),
                components(#[trigger] rb[b]),
            ) by {
                assert(rb[a] == vb[a + 1]);
                assert(rb[b] == vb[b + 1]);
            }
        }
        lemma_path_order_determined(ra, rb);
        assert forall|k: int| 0 <= k < va.len() implies va[k] == vb[k] by {
            if k > 0 {
                assert(ra[k - 1] == va[k]);
                assert(rb[k - 1] == vb[k]);
            }
        }
        assert(va =~= vb);
    }
}

/// An increasing sequence is the ordering of its members.
pub proof fn lemma_path_order_of(q: Seq<Seq<char>>)
    requires
        path_increasing(q),
    ensures
        path_order(q.to_set()) == q,
{
    let o = path_order(q.to_set());
    assert(path_increasing(o) && o.to_set() == q.to_set());
    lemma_path_order_determined(o, q);
}

fn owned(s: &str) -> (r: String)
    ensures
        r@ == s@,
{
    let mut o = String::new();
    push_str(&mut o, s);
    o
}

fn is_normal_relative(text: &[char], parts: &[Part]) -> (r: bool)
    requires
        parts_view(parts@) == components(text@),
    ensures
        r == normal_relative(text@),
{
    if text.len() == 0 {
        return false;
    }
    let mut i: usize = 0;
    while i < parts.len()
        invariant
            parts_view(parts@) == components(text@),
            i <= parts@.len(),
            forall|k: int| 0 <= k < i ==> (#[trigger] components(text@)[k]) is Normal,
        decreases parts@.len() - i,
    {
        match &parts[i] {
            Part::Normal(_) => {},
            _ => {
                assert(components(text@)[i as int] == parts@[i as int]@);
                return false;
            },
        }
        assert(components(text@)[i as int] == parts@[i as int]@);
        i = i + 1;
    }
    true
}

/// A path with its components.
struct Parsed {
    text: String,
    chars: Vec<char>,
    parts: Vec<Part>,
}

spec fn parsed_ok(p: Parsed) -> bool {
    p.chars@ == p.text@ && parts_view(p.parts@) == components(p.text@)
}

spec fn texts(v: Seq<Parsed>) -> Seq<Seq<char>> {
    v.map_values(|p: Parsed| p.text@)
}

/// A path equal (as `Path`s are) to `x` occurs in `s` exactly when one occurs among the
/// first paths of each kind.
pub proof fn lemma_first_of_each_covers(s: Seq<Seq<char>>, x: Seq<char>)
    ensures
        (exists|j: int| 0 <= j < s.len() && components(#[trigger] s[j]) == components(x)) <==> (
        exists|k: int| 0 <= k < first_of_each(s).len() && components(#[trigger] first_of_each(s)[k])
            == components(x)),
    decreases s.len(),
{
    if s.len() > 0 {
        let t = s.drop_last();
        let r = first_of_each(t);
        lemma_first_of_each_covers(t, x);
        lemma_first_of_each_covers(t, s.last());
        let f = first_of_each(s);
        if exists|j: int| 0 <= j < s.len() && components(#[trigger] s[j]) == components(x) {
            let j = choose|j: int| 0 <= j < s.len() && components(#[trigger] s[j]) == components(x);
            if j < t.len() {
                assert(components(t[j]) == components(x));
                let k = choose|k: int| 0 <= k < r.len() && components(#[trigger] r[k]) == components(x);
                assert(f[k] == r[k]);
            } else if exists|m: int| 0 <= m < s.len() - 1 && components(#[trigger] s[m]) == components(s.last()) {
                let m = choose|m: int| 0 <= m < s.len() - 1 && components(#[trigger] s[m]) == components(s.last());
                assert(components(t[m]) == components(s.last()));
                let k = choose|k: int| 0 <= k < r.len() && components(#[trigger] r[k]) == components(s.last());
                assert(f[k] == r[k]);
            } else {
                assert(f[r.len() as int] == s.last());
            }
        }
        if exists|k: int| 0 <= k < f.len() && components(#[trigger] f[k]) == components(x) {
            let k = choose|k: int| 0 <= k < f.len() && components(#[trigger] f[k]) == components(x);
            if k < r.len() {
                assert(f[k] == r[k]);
                let j = choose|j: int| 0 <= j < t.len() && components(#[trigger] t[j]) == components(x);
                assert(s[j] == t[j]);
            } else {
                assert(f[k] == s.last());
                assert(components(s[s.len() - 1]) == components(x));
            }
        }
    }
}

/// The first path of each kind, in input order, with its components.
fn first_paths(paths: &Vec<String>) -> (kept: Vec<Parsed>)
    ensures
        forall|k: int| 0 <= k < kept@.len() ==> parsed_ok(#[trigger] kept@[k]),
        texts(kept@) == first_of_each(views(paths@)),
{
    let ghost input = views(paths@);
    let mut kept: Vec<Parsed> = Vec::new();
    let mut i: usize = 0;
    while i < paths.len()
        invariant
            input == views(paths@),
            i <= paths@.len(),
            forall|k: int| 0 <= k < kept@.len() ==> parsed_ok(#[trigger] kept@[k]),
            texts(kept@) == first_of_each(input.take(i as int)),
        decreases paths@.len() - i,
    {
        let text = owned(paths[i].as_str());
        let chars = chars_of(text.as_str());
        let parts = path_components(chars.as_slice());
        let mut seen = false;
        let mut k: usize = 0;
        while k < kept.len()
            invariant
                k <= kept@.len(),
                forall|m: int| 0 <= m < kept@.len() ==> parsed_ok(#[trigger] kept@[m]),
                parts_view(parts@) == components(text@),
                seen == exists|m: int| 0 <= m < k && components(#[trigger] texts(kept@)[m]) == components(text@),
            decreases kept@.len() - k,
        {
            assert(texts(kept@)[k as int] == kept@[k as int].text@);
            if parts_equal(kept[k].parts.as_slice(), parts.as_slice()) {
                seen = true;
            }
            k = k + 1;
        }
        let ghost prev = input.take(i as int);
        proof {
            assert(input.take(i + 1).drop_last() =~= prev);
            assert(input.take(i + 1).last() == text@);
            lemma_first_of_each_covers(prev, text@);
            assert((exists|j: int| 0 <= j < input.take(i + 1).len() - 1 && components(#[trigger] input.take(i + 1)[j]) == components(input.take(i + 1).last()))
                == (exists|j: int| 0 <= j < prev.len() && components(#[trigger] prev[j]) == components(text@))) by {
                if exists|j: int| 0 <= j < prev.len() && components(#[trigger] prev[j]) == components(text@) {
                    let j = choose|j: int| 0 <= j < prev.len() && components(#[trigger] prev[j]) == components(text@);
                    assert(input.take(i + 1)[j] == prev[j]);
                }
                if exists|j: int| 0 <= j < input.take(i + 1).len() - 1 && components(#[trigger] input.take(i + 1)[j]) == components(input.take(i + 1).last()) {
                    let j = choose|j: int| 0 <= j < input.take(i + 1).len() - 1 && components(#[trigger] input.take(i + 1)[j]) == components(input.take(i + 1).last());
                    assert(input.take(i + 1)[j] == prev[j]);
                }
            }
        }
        let ghost old_kept = kept@;
        if !seen {
            kept.push(Parsed { text, chars, parts });
            assert(texts(kept@) =~= texts(old_kept).push(input[i as int]));
        }
        i = i + 1;
    }
    assert(input.take(i as int) =~= input);
    kept
}

/// The paths in `Path`'s order; they differ pairwise as paths.
fn sort_paths(kept: Vec<Parsed>, Ghost(unique): Ghost<Seq<Seq<char>>>) -> (sorted: Vec<Parsed>)
    requires
        forall|k: int| 0 <= k < kept@.len() ==> parsed_ok(#[trigger] kept@[k]),
        texts(kept@) == unique,
        forall|a: int, b: int| 0 <= a < b < kept@.len() ==> components(kept@[a].text@) != components(kept@[b].text@),
    ensures
        forall|k: int| 0 <= k < sorted@.len() ==> parsed_ok(#[trigger] sorted@[k]),
        path_increasing(texts(sorted@)),
        texts(sorted@).to_set() == unique.to_set(),
{
    let mut kept = kept;
    // Sort the kept paths by `Path`'s order; their components are pairwise distinct.
    let mut sorted: Vec<Parsed> = Vec::new();
    while kept.len() > 0
        invariant
            forall|k: int| 0 <= k < kept@.len() ==> parsed_ok(#[trigger] kept@[k]),
            forall|k: int| 0 <= k < sorted@.len() ==> parsed_ok(#[trigger] sorted@[k]),
            path_increasing(texts(sorted@)),
            forall|a: int, b: int| 0 <= a < b < kept@.len() ==> components(kept@[a].text@) != components(kept@[b].text@),
            forall|a: int, b: int| 0 <= a < kept@.len() && 0 <= b < sorted@.len() ==> components(kept@[a].text@) != components(sorted@[b].text@),
            texts(kept@).to_set() + texts(sorted@).to_set() == unique.to_set(),
        decreases kept@.len(),
    {
        let ghost kept_before = kept@;
        let item = kept.pop().unwrap();
        let ghost iv = item.text@;
        proof {
            assert(kept_before =~= kept@.push(item));
            assert(texts(kept_before) =~= texts(kept@).push(iv));
            lemma_to_set_push(texts(kept@), iv);
            assert forall|a: int| 0 <= a < kept@.len() implies components(kept@[a].text@) != components(iv) by {
                assert(kept@[a] == kept_before[a]);
                assert(kept_before[kept_before.len() - 1] == item);
            }
            assert forall|b: int| 0 <= b < sorted@.len() implies components(iv) != components(sorted@[b].text@) by {
                assert(kept_before[kept_before.len() - 1] == item);
            }
        }
        let mut j: usize = 0;
        while j < sorted.len() && parts_lt(sorted[j].parts.as_slice(), item.parts.as_slice())
            invariant
                j <= sorted@.len(),
                parsed_ok(item),
                forall|k: int| 0 <= k < sorted@.len() ==> parsed_ok(#[trigger] sorted@[k]),
                forall|k: int| 0 <= k < j ==> components_lt(components(#[trigger] sorted@[k].text@), components(item.text@)),
            decreases sorted@.len() - j,
        {
            j = j + 1;
        }
        proof {
            if j < sorted@.len() {
                assert(components(sorted@[j as int].text@) != components(iv));
                lemma_components_lt_total(components(sorted@[j as int].text@), components(iv));
            }
        }
        let ghost before = sorted@;
        sorted.insert(j, item);
        proof {
            assert(texts(sorted@) =~= texts(before).insert(j as int, iv));
            assert forall|a: int, b: int| 0 <= a < b < texts(sorted@).len() implies components_lt(
                components(#[trigger] texts(sorted@)[a]),
                components(#[trigger] texts(sorted@)[b]),
            ) by {
                if b < j {
                    assert(texts(sorted@)[a] == texts(before)[a]);
                    assert(texts(sorted@)[b] == texts(before)[b]);
                } else if a > j {
                    assert(texts(sorted@)[a] == texts(before)[a - 1]);
                    assert(texts(sorted@)[b] == texts(before)[b - 1]);
                } else if a == j {
                    assert(texts(sorted@)[b] == texts(before)[b - 1]);
                    if b - 1 > j {
                        assert(components_lt(components(texts(before)[j as int]), components(texts(before)[b - 1])));
                        lemma_components_lt_transitive(components(iv), components(texts(before)[j as int]), components(texts(before)[b - 1]));
                    }
                } else {
                    assert(texts(sorted@)[a] == texts(before)[a]);
                    assert(texts(before)[a] == before[a].text@);
                    if b > j {
                        assert(texts(sorted@)[b] == texts(before)[b - 1]);
                    }
                }
            }
            assert forall|a: int, b: int| 0 <= a < kept@.len() && 0 <= b < sorted@.len() implies components(kept@[a].text@) != components(sorted@[b].text@) by {
                assert(kept@[a] == kept_before[a]);
                if b < j {
                    assert(sorted@[b] == before[b]);
                } else if b > j {
                    assert(sorted@[b] == before[b - 1]);
                } else {
                    assert(sorted@[b] == item);
                }
            }
            assert forall|a: int, b: int| 0 <= a < b < kept@.len() implies components(kept@[a].text@) != components(kept@[b].text@) by {
                assert(kept@[a] == kept_before[a]);
                assert(kept@[b] == kept_before[b]);
            }
            assert forall|k: int| 0 <= k < kept@.len() implies parsed_ok(#[trigger] kept@[k]) by {
                assert(kept@[k] == kept_before[k]);
            }
            assert forall|k: int| 0 <= k < sorted@.len() implies parsed_ok(#[trigger] sorted@[k]) by {
                if k < j {
                    assert(sorted@[k] == before[k]);
                } else if k > j {
                    assert(sorted@[k] == before[k - 1]);
                }
            }
            assert(texts(kept@).to_set() + texts(sorted@).to_set() =~= unique.to_set()) by {
                assert forall|x: Seq<char>| texts(sorted@).contains(x) <==> (texts(before).contains(x) || x == iv) by {
                    if texts(sorted@).contains(x) {
                        let m = choose|m: int| 0 <= m < texts(sorted@).len() && texts(sorted@)[m] == x;
                        if m < j {
                            assert(texts(before)[m] == x);
                        } else if m > j {
                            assert(texts(before)[m - 1] == x);
                        }
                    }
                    if texts(before).contains(x) {
                        let m = choose|m: int| 0 <= m < texts(before).len() && texts(before)[m] == x;
                        if m < j {
                            assert(texts(sorted@)[m] == x);
                        } else {
                            assert(texts(sorted@)[m + 1] == x);
                        }
                    }
                    if x == iv {
                        assert(texts(sorted@)[j as int] == x);
                    }
                }
                assert forall|x: Seq<char>| #[trigger] (texts(kept@).to_set() + texts(sorted@).to_set()).contains(x) == unique.to_set().contains(x) by {
                    assert(texts(kept_before).to_set().contains(x) == (texts(kept@).to_set().contains(x) || x == iv));
                    assert(texts(sorted@).to_set().contains(x) == texts(sorted@).contains(x));
                    assert(texts(before).to_set().contains(x) == texts(before).contains(x));
                }
            }
        }
    }
    proof {
        assert(texts(kept@).to_set() =~= Set::<Seq<char>>::empty());
        assert(texts(sorted@).to_set() =~= unique.to_set());
    }
    sorted
}

/// Sorts by `Path`'s order and drops repeats, then accepts the list only when every
/// path is a non-empty relative path of plain names and no path lies inside another.
pub fn validate_guest_state_paths(paths: Vec<String>) -> (r: Result<Vec<String>, GuestPathError>)
    ensures
        guest_paths_outcome(views(paths@), r),
        r matches Ok(v) ==> forall|i: int, j: int|
            0 <= i < j < v@.len() ==> components_lt(components(v@[i]@), components(v@[j]@))
                && !components_prefix(components(#[trigger] v@[i]@), components(#[trigger] v@[j]@)),
{
    let ghost input = views(paths@);
    let kept = first_paths(&paths);
    let ghost unique = first_of_each(input);
    proof {
        assert forall|a: int, b: int| 0 <= a < b < kept@.len() implies components(kept@[a].text@) != components(kept@[b].text@) by {
            lemma_first_of_each_distinct(input, a, b);
            assert(texts(kept@)[a] == kept@[a].text@);
            assert(texts(kept@)[b] == kept@[b].text@);
        }
    }
    let sorted = sort_paths(kept, Ghost(unique));
    proof {
        lemma_path_order_of(texts(sorted@));
    }
    let ghost t = texts(sorted@);
    // Check every path, then every neighbouring pair.
    let mut a: usize = 0;
    while a < sorted.len()
        invariant
            t == texts(sorted@),
            t == path_order(first_of_each(views(paths@)).to_set()),
            forall|k: int| 0 <= k < sorted@.len() ==> parsed_ok(#[trigger] sorted@[k]),
            a <= sorted@.len(),
            first_abnormal(t, 0) == first_abnormal(t, a as int),
        decreases sorted@.len() - a,
    {
        if !is_normal_relative(sorted[a].chars.as_slice(), sorted[a].parts.as_slice()) {
            assert(t[a as int] == sorted@[a as int].text@);
            return Err(GuestPathError::NotNormalRelative { path: owned(sorted[a].text.as_str()) });
        }
        assert(t[a as int] == sorted@[a as int].text@);
        a = a + 1;
    }
    let mut b: usize = 0;
    while sorted.len() > 0 && b < sorted.len() - 1
        invariant
            t == texts(sorted@),
            t == path_order(first_of_each(views(paths@)).to_set()),
            forall|k: int| 0 <= k < sorted@.len() ==> parsed_ok(#[trigger] sorted@[k]),
            first_abnormal(t, 0) is None,
            first_overlap(t, 0) == first_overlap(t, b as int),
        decreases sorted@.len() - b,
    {
        assert(t[b as int] == sorted@[b as int].text@);
        assert(t[b + 1] == sorted@[b + 1].text@);
        if parts_prefix(sorted[b].parts.as_slice(), sorted[b + 1].parts.as_slice()) {
            return Err(
                GuestPathError::Overlap {
                    outer: owned(sorted[b].text.as_str()),
                    inner: owned(sorted[b + 1].text.as_str()),
                },
            );
        }
        b = b + 1;
    }
    let mut out: Vec<String> = Vec::new();
    let mut c: usize = 0;
    while c < sorted.len()
        invariant
            t == texts(sorted@),
            c <= sorted@.len(),
            out@.len() == c,
            forall|k: int| 0 <= k < c ==> #[trigger] out@[k]@ == t[k],
        decreases sorted@.len() - c,
    {
        assert(t[c as int] == sorted@[c as int].text@);
        out.push(owned(sorted[c].text.as_str()));
        c = c + 1;
    }
    assert(views(out@) =~= t);
    proof {
        assert forall|i: int, j: int| 0 <= i < j < out@.len() implies components_lt(components(out@[i]@), components(out@[j]@))
            && !components_prefix(components(#[trigger] out@[i]@), components(#[trigger] out@[j]@)) by {
            lemma_increasing_nested_only_adjacent(t, i, j);
        }
    }
    Ok(out)
}

/// Distinct entries of `first_of_each` differ as paths.
pub proof fn lemma_first_of_each_distinct(s: Seq<Seq<char>>, a: int, b: int)
    requires
        0 <= a < b < first_of_each(s).len(),
    ensures
        components(first_of_each(s)[a]) != components(first_of_each(s)[b]),
    decreases s.len(),
{
    let r = first_of_each(s.drop_last());
    if exists|j: int| 0 <= j < s.len() - 1 && components(#[trigger] s[j]) == components(s.last()) {
        lemma_first_of_each_distinct(s.drop_last(), a, b);
    } else if b < r.len() {
        lemma_first_of_each_distinct(s.drop_last(), a, b);
    } else {
        lemma_first_of_each_members(s.drop_last(), a);
        let j = choose|j: int| 0 <= j < s.drop_last().len() && s.drop_last()[j] == r[a];
        assert(s[j] == r[a]);
    }
}

/// Every entry of `first_of_each(s)` is an entry of `s`.
pub proof fn lemma_first_of_each_members(s: Seq<Seq<char>>, a: int)
    requires
        0 <= a < first_of_each(s).len(),
    ensures
        exists|j: int| 0 <= j < s.len() && s[j] == first_of_each(s)[a],
    decreases s.len(),
{
    let r = first_of_each(s.drop_last());
    if a < r.len() {
        lemma_first_of_each_members(s.drop_last(), a);
        let j = choose|j: int| 0 <= j < s.drop_last().len() && s.drop_last()[j] == r[a];
        assert(s[j] == s.drop_last()[j]);
    } else {
        assert(s[s.len() - 1] == first_of_each(s)[a]);
    }
}

/// Between a path and a path inside it, every path (in `Path`'s order) is inside the first.
pub proof fn lemma_between_shares_prefix(p: Seq<PathComponent>, x: Seq<PathComponent>, c: Seq<PathComponent>)
    requires
        components_prefix(p, c),
        components_lt(p, x),
        components_lt(x, c) || x == c,
    ensures
        components_prefix(p, x),
    decreases p.len(),
{
    if p.len() > 0 {
        assert(c[0] == p[0]) by {
            assert(c.take(p.len() as int)[0] == c[0]);
        }
        crate::paths::lemma_component_lt_strict(p[0], x[0], x[0]);
        if x[0] != p[0] {
            if x != c {
                crate::paths::lemma_component_lt_strict(x[0], c[0], c[0]);
            }
        }
        assert(x[0] == p[0]);
        assert(components_prefix(p.drop_first(), c.drop_first())) by {
            assert(c.drop_first().take(p.drop_first().len() as int) =~= c.take(p.len() as int).drop_first());
        }
        if x != c {
            assert(components_lt(x.drop_first(), c.drop_first()));
        } else {
            assert(x.drop_first() == c.drop_first());
        }
        lemma_between_shares_prefix(p.drop_first(), x.drop_first(), c.drop_first());
        assert(x.take(p.len() as int) =~= seq![x[0]] + x.drop_first().take(p.drop_first().len() as int));
        assert(p =~= seq![p[0]] + p.drop_first());
        assert(x.take(p.len() as int) =~= p);
    } else {
        assert(x.take(0) =~= p);
    }
}

/// In an increasing list with no path directly inside its predecessor, no path lies
/// inside any earlier one.
pub proof fn lemma_increasing_nested_only_adjacent(t: Seq<Seq<char>>, i: int, j: int)
    requires
        path_increasing(t),
        first_overlap(t, 0) is None,
        0 <= i < j < t.len(),
    ensures
        !components_prefix(components(t[i]), components(t[j])),
    decreases j - i,
{
    lemma_no_adjacent_overlap(t, 0, i);
    if components_prefix(components(t[i]), components(t[j])) {
        if j == i + 1 {
        } else {
            assert(components_lt(components(t[i]), components(t[i + 1])));
            assert(components_lt(components(t[i + 1]), components(t[j])));
            lemma_between_shares_prefix(components(t[i]), components(t[i + 1]), components(t[j]));
        }
    }
}

/// `first_overlap` finds nothing from `k` on: no neighbours from `k` on nest.
pub proof fn lemma_no_adjacent_overlap(t: Seq<Seq<char>>, k: int, i: int)
    requires
        0 <= k <= i,
        i + 1 < t.len(),
        first_overlap(t, k) is None,
    ensures
        !components_prefix(components(t[i]), components(t[i + 1])),
    decreases i - k,
{
    if k < i {
        lemma_no_adjacent_overlap(t, k + 1, i);
    }
}

} // verus!
