//! Ordered sets of strings held as strictly increasing vectors, in the order of
//! `String`'s `Ord` (lexicographic by character).
use vstd::prelude::*;

use crate::text::{chars_of, views};

verus! {

/// Strict lexicographic order on character sequences.
pub open spec fn str_lt(a: Seq<char>, b: Seq<char>) -> bool
    decreases a.len(),
{
    if a.len() == 0 {
        b.len() > 0
    } else if b.len() == 0 {
        false
    } else if a[0] != b[0] {
        (a[0] as int) < (b[0] as int)
    } else {
        str_lt(a.drop_first(), b.drop_first())
    }
}

/// Strictly increasing, hence free of duplicates.
pub open spec fn strictly_sorted(s: Seq<Seq<char>>) -> bool {
    forall|i: int, j: int| 0 <= i < j < s.len() ==> str_lt(#[trigger] s[i], #[trigger] s[j])
}

/// The abstract set held by a vector of strings.
pub open spec fn set_of(v: Seq<String>) -> Set<Seq<char>> {
    views(v).to_set()
}

/// A vector of strings that represents an ordered set.
pub open spec fn is_set(v: Seq<String>) -> bool {
    strictly_sorted(views(v))
}

pub proof fn lemma_lt_irreflexive(a: Seq<char>)
    ensures
        !str_lt(a, a),
    decreases a.len(),
{
    if a.len() > 0 {
        lemma_lt_irreflexive(a.drop_first());
    }
}

pub proof fn lemma_lt_asymmetric(a: Seq<char>, b: Seq<char>)
    requires
        str_lt(a, b),
    ensures
        !str_lt(b, a),
    decreases a.len(),
{
    if a.len() > 0 && b.len() > 0 && a[0] == b[0] {
        lemma_lt_asymmetric(a.drop_first(), b.drop_first());
    }
}

pub proof fn lemma_lt_transitive(a: Seq<char>, b: Seq<char>, c: Seq<char>)
    requires
        str_lt(a, b),
        str_lt(b, c),
    ensures
        str_lt(a, c),
    decreases a.len(),
{
    if a.len() > 0 && b.len() > 0 && c.len() > 0 && a[0] == b[0] && b[0] == c[0] {
        lemma_lt_transitive(a.drop_first(), b.drop_first(), c.drop_first());
    }
}

pub proof fn lemma_lt_total(a: Seq<char>, b: Seq<char>)
    ensures
        a == b || str_lt(a, b) || str_lt(b, a),
    decreases a.len(),
{
    if a.len() > 0 && b.len() > 0 && a[0] == b[0] {
        lemma_lt_total(a.drop_first(), b.drop_first());
        if a.drop_first() == b.drop_first() {
            assert(a =~= seq![a[0]] + a.drop_first());
            assert(b =~= seq![b[0]] + b.drop_first());
        }
    } else if a.len() == 0 && b.len() == 0 {
        assert(a =~= b);
    } else if a.len() > 0 && b.len() > 0 {
        assert(a[0] != b[0]);
        if (a[0] as int) < (b[0] as int) {
            assert(str_lt(a, b));
        } else {
            assert(str_lt(b, a));
        }
    }
}

/// The set of a sequence grown by one element.
pub proof fn lemma_to_set_push<A>(s: Seq<A>, x: A)
    ensures
        s.push(x).to_set() == s.to_set().insert(x),
{
    assert forall|y: A| s.push(x).contains(y) <==> s.contains(y) || y == x by {
        if s.push(x).contains(y) {
            let k = choose|k: int| 0 <= k < s.push(x).len() && s.push(x)[k] == y;
            if k < s.len() {
                assert(s[k] == y);
            }
        }
        if s.contains(y) {
            let k = choose|k: int| 0 <= k < s.len() && s[k] == y;
            assert(s.push(x)[k] == y);
        }
        if y == x {
            assert(s.push(x)[s.len() as int] == y);
        }
    }
    assert forall|y: A| #[trigger] s.push(x).to_set().contains(y) == s.to_set().insert(x).contains(y) by {
        assert(s.push(x).to_set().contains(y) == s.push(x).contains(y));
        assert(s.to_set().contains(y) == s.contains(y));
    }
    assert(s.push(x).to_set() =~= s.to_set().insert(x));
}

/// Whether `a` precedes `b`.
pub fn chars_lt(a: &[char], b: &[char]) -> (r: bool)
    ensures
        r == str_lt(a@, b@),
{
    let n = a.len();
    let m = b.len();
    let mut i: usize = 0;
    assert(a@.skip(0) =~= a@);
    assert(b@.skip(0) =~= b@);
    while i < n && i < m && a[i] == b[i]
        invariant
            i <= n,
            i <= m,
            n == a@.len(),
            m == b@.len(),
            str_lt(a@, b@) == str_lt(a@.skip(i as int), b@.skip(i as int)),
        decreases n - i,
    {
        assert(a@.skip(i as int).drop_first() =~= a@.skip(i + 1));
        assert(b@.skip(i as int).drop_first() =~= b@.skip(i + 1));
        i = i + 1;
    }
    let ghost sa = a@.skip(i as int);
    let ghost sb = b@.skip(i as int);
    assert(sa.len() == n - i);
    assert(sb.len() == m - i);
    if i == n {
        i < m
    } else if i == m {
        false
    } else {
        assert(sa[0] == a@[i as int]);
        assert(sb[0] == b@[i as int]);
        a[i] < b[i]
    }
}

/// Whether string `a` precedes string `b`.
pub fn string_lt(a: &str, b: &str) -> (r: bool)
    ensures
        r == str_lt(a@, b@),
{
    let x = chars_of(a);
    let y = chars_of(b);
    chars_lt(x.as_slice(), y.as_slice())
}

/// Whether two strings are equal.
pub fn string_eq(a: &str, b: &str) -> (r: bool)
    ensures
        r == (a@ == b@),
{
    crate::text::str_equal(a, b)
}

/// Whether the set contains `s`.
pub fn set_contains(v: &Vec<String>, s: &str) -> (r: bool)
    ensures
        r == set_of(v@).contains(s@),
{
    let n = v.len();
    for i in 0..n
        invariant
            n == v@.len(),
            forall|k: int| 0 <= k < i ==> v@[k]@ != s@,
    {
        if string_eq(v[i].as_str(), s) {
            assert(views(v@)[i as int] == s@);
            return true;
        }
    }
    assert forall|x: Seq<char>| views(v@).contains(x) implies x != s@ by {
        let k = choose|k: int| 0 <= k < views(v@).len() && views(v@)[k] == x;
        assert(v@[k]@ == x);
    }
    false
}

/// Inserts `s` into an ordered set.
pub fn set_insert(v: &mut Vec<String>, s: String)
    requires
        is_set(old(v)@),
    ensures
        is_set(final(v)@),
        set_of(final(v)@) == set_of(old(v)@).insert(s@),
{
    let n = v.len();
    let mut i: usize = 0;
    while i < n && string_lt(v[i].as_str(), s.as_str())
        invariant
            i <= n,
            n == v@.len(),
            is_set(v@),
            forall|k: int| 0 <= k < i ==> str_lt(#[trigger] views(v@)[k], s@),
        decreases n - i,
    {
        i = i + 1;
    }
    if i < n && string_eq(v[i].as_str(), s.as_str()) {
        assert(views(v@)[i as int] == s@);
        assert(set_of(v@) =~= set_of(v@).insert(s@));
        return;
    }
    let ghost old_v = v@;
    proof {
        if i < n {
            lemma_lt_total(views(v@)[i as int], s@);
        }
    }
    v.insert(i, s);
    proof {
        let ov = views(old_v);
        let nv = views(v@);
        assert(nv =~= ov.take(i as int).push(s@) + ov.skip(i as int));
        assert forall|a: int, b: int| 0 <= a < b < nv.len() implies str_lt(#[trigger] nv[a], #[trigger] nv[b]) by {
            if b < i {
            } else if b == i {
            } else if a < i {
                assert(nv[b] == ov[b - 1]);
                if b - 1 > i {
                    assert(str_lt(ov[i as int], ov[b - 1]));
                    lemma_lt_transitive(s@, ov[i as int], ov[b - 1]);
                }
                lemma_lt_transitive(nv[a], s@, nv[b]);
            } else if a == i {
                assert(nv[b] == ov[b - 1]);
                if b - 1 > i {
                    assert(str_lt(ov[i as int], ov[b - 1]));
                    lemma_lt_transitive(s@, ov[i as int], ov[b - 1]);
                }
            } else {
                assert(nv[a] == ov[a - 1]);
                assert(nv[b] == ov[b - 1]);
            }
        }
        assert forall|x: Seq<char>| nv.contains(x) <==> ov.contains(x) || x == s@ by {
            if nv.contains(x) {
                let k = choose|k: int| 0 <= k < nv.len() && nv[k] == x;
                if k < i {
                    assert(ov[k] == x);
                } else if k > i {
                    assert(ov[k - 1] == x);
                }
            }
            if ov.contains(x) {
                let k = choose|k: int| 0 <= k < ov.len() && ov[k] == x;
                if k < i {
                    assert(nv[k] == x);
                } else {
                    assert(nv[k + 1] == x);
                }
            }
            if x == s@ {
                assert(nv[i as int] == x);
            }
        }
        assert(set_of(v@) =~= set_of(old_v).insert(s@));
    }
}

/// Inserts every string of `items` into an ordered set.
pub fn set_extend(v: &mut Vec<String>, items: &Vec<String>)
    requires
        is_set(old(v)@),
    ensures
        is_set(final(v)@),
        set_of(final(v)@) == set_of(old(v)@).union(set_of(items@)),
{
    let n = items.len();
    for i in 0..n
        invariant
            n == items@.len(),
            is_set(v@),
            set_of(v@) == set_of(old(v)@).union(set_of(items@.take(i as int))),
    {
        let ghost before = v@;
        set_insert(v, items[i].clone());
        proof {
            assert(views(items@.take(i + 1)) =~= views(items@.take(i as int)).push(items@[i as int]@));
            lemma_to_set_push(views(items@.take(i as int)), items@[i as int]@);
            assert(set_of(v@) =~= set_of(old(v)@).union(set_of(items@.take(i + 1))));
        }
    }
    assert(items@.take(n as int) =~= items@);
}

/// The members of `a` that are not in `b`, in order.
pub fn set_difference(a: &Vec<String>, b: &Vec<String>) -> (r: Vec<String>)
    requires
        is_set(a@),
    ensures
        is_set(r@),
        set_of(r@) == set_of(a@).difference(set_of(b@)),
{
    let mut r: Vec<String> = Vec::new();
    let n = a.len();
    let ghost mut idx: Seq<int> = Seq::empty();
    for i in 0..n
        invariant
            n == a@.len(),
            is_set(a@),
            idx.len() == r@.len(),
            forall|k: int| 0 <= k < idx.len() ==> 0 <= #[trigger] idx[k] < i && r@[k]@ == a@[idx[k]]@,
            forall|k: int, m: int| 0 <= k < m < idx.len() ==> #[trigger] idx[k] < #[trigger] idx[m],
            set_of(r@) == set_of(a@.take(i as int)).difference(set_of(b@)),
    {
        let ghost prev = r@;
        let present = set_contains(b, a[i].as_str());
        if !present {
            let item = a[i].clone();
            r.push(item);
            proof {
                idx = idx.push(i as int);
                assert(views(r@) =~= views(prev).push(a@[i as int]@));
                lemma_to_set_push(views(prev), a@[i as int]@);
            }
        }
        proof {
            assert(views(a@.take(i + 1)) =~= views(a@.take(i as int)).push(a@[i as int]@));
            lemma_to_set_push(views(a@.take(i as int)), a@[i as int]@);
            assert(set_of(r@) =~= set_of(a@.take(i + 1)).difference(set_of(b@)));
        }
    }
    proof {
        assert(a@.take(n as int) =~= a@);
        assert forall|x: int, y: int| 0 <= x < y < r@.len() implies str_lt(#[trigger] views(r@)[x], #[trigger] views(r@)[y]) by {
            assert(views(a@)[idx[x]] == views(r@)[x]);
            assert(views(a@)[idx[y]] == views(r@)[y]);
        }
    }
    r
}

/// Whether every member of `a` is a member of `b`.
pub fn set_is_subset(a: &Vec<String>, b: &Vec<String>) -> (r: bool)
    ensures
        r == set_of(a@).subset_of(set_of(b@)),
{
    let n = a.len();
    for i in 0..n
        invariant
            n == a@.len(),
            forall|k: int| 0 <= k < i ==> set_of(b@).contains(#[trigger] a@[k]@),
    {
        if !set_contains(b, a[i].as_str()) {
            assert(set_of(a@).contains(views(a@)[i as int]));
            return false;
        }
    }
    assert forall|x: Seq<char>| set_of(a@).contains(x) implies set_of(b@).contains(x) by {
        let k = choose|k: int| 0 <= k < views(a@).len() && views(a@)[k] == x;
        assert(a@[k]@ == x);
    }
    true
}

/// The members of a set of strings in increasing order.
pub open spec fn ordered(s: Set<Seq<char>>) -> Seq<Seq<char>> {
    choose|q: Seq<Seq<char>>| strictly_sorted(q) && q.to_set() == s
}

/// A strictly increasing sequence is the ordering of its set.
pub proof fn lemma_ordered_unique(q: Seq<Seq<char>>)
    requires
        strictly_sorted(q),
    ensures
        ordered(q.to_set()) == q,
{
    let o = ordered(q.to_set());
    assert(strictly_sorted(o) && o.to_set() == q.to_set());
    lemma_sorted_determined(o, q);
}

/// Two strictly increasing sequences with the same members are equal.
pub proof fn lemma_sorted_determined(va: Seq<Seq<char>>, vb: Seq<Seq<char>>)
    requires
        strictly_sorted(va),
        strictly_sorted(vb),
        va.to_set() == vb.to_set(),
    ensures
        va == vb,
    decreases va.len(),
{
    if va.len() == 0 {
        if vb.len() > 0 {
            assert(vb.to_set().contains(vb[0]));
        }
        assert(va =~= vb);
    } else if vb.len() == 0 {
        assert(va.to_set().contains(va[0]));
    } else {
        assert(vb.to_set().contains(va[0]));
        assert(va.to_set().contains(vb[0]));
        let i = choose|i: int| 0 <= i < vb.len() && vb[i] == va[0];
        let j = choose|j: int| 0 <= j < va.len() && va[j] == vb[0];
        if i > 0 {
            assert(str_lt(vb[0], vb[i]));
            if j > 0 {
                assert(str_lt(va[0], va[j]));
                lemma_lt_asymmetric(vb[0], va[0]);
            } else {
                lemma_lt_irreflexive(va[0]);
            }
        }
        assert(va[0] == vb[0]);
        let ra = va.drop_first();
        let rb = vb.drop_first();
        assert forall|x: Seq<char>| ra.to_set().contains(x) <==> rb.to_set().contains(x) by {
            if ra.contains(x) {
                let k = choose|k: int| 0 <= k < ra.len() && ra[k] == x;
                assert(va[k + 1] == x);
                assert(vb.to_set().contains(x));
                let m = choose|m: int| 0 <= m < vb.len() && vb[m] == x;
                assert(str_lt(va[0], va[k + 1]));
                if m == 0 {
                    lemma_lt_irreflexive(x);
                }
                assert(rb[m - 1] == x);
            }
            if rb.contains(x) {
                let k = choose|k: int| 0 <= k < rb.len() && rb[k] == x;
                assert(vb[k + 1] == x);
                assert(va.to_set().contains(x));
                let m = choose|m: int| 0 <= m < va.len() && va[m] == x;
                assert(str_lt(vb[0], vb[k + 1]));
                if m == 0 {
                    lemma_lt_irreflexive(x);
                }
                assert(ra[m - 1] == x);
            }
        }
        assert(ra.to_set() =~= rb.to_set());
        lemma_sorted_determined(ra, rb);
        assert forall|k: int| 0 <= k < va.len() implies va[k] == vb[k] by {
            if k > 0 {
                assert(ra[k - 1] == va[k]);
                assert(rb[k - 1] == vb[k]);
            }
        }
        assert(va =~= vb);
    }
}

} // verus!
