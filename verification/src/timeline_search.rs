//! Searching a timeline: the first or last event, in timeline order, that satisfies a
//! condition, and the artifacts that a set of events cites.
use vstd::prelude::*;
use crate::event::EventRecord;
use crate::strset::{is_set, set_insert, set_of};
use crate::text::{str_equal, views};

verus! {

broadcast use vstd::string::group_string_axioms;

/// The first position of `s` whose event satisfies `p`.
pub open spec fn first_in(s: Seq<usize>, p: spec_fn(usize) -> bool) -> Option<usize>
    decreases s.len(),
{
    if s.len() == 0 {
        None
    } else if p(s[0]) {
        Some(s[0])
    } else {
        first_in(s.drop_first(), p)
    }
}

/// The last position of `s` whose event satisfies `p`.
pub open spec fn last_in(s: Seq<usize>, p: spec_fn(usize) -> bool) -> Option<usize>
    decreases s.len(),
{
    if s.len() == 0 {
        None
    } else if p(s.last()) {
        Some(s.last())
    } else {
        last_in(s.drop_last(), p)
    }
}

pub proof fn lemma_first_in_member(s: Seq<usize>, p: spec_fn(usize) -> bool)
    ensures
        first_in(s, p) matches Some(i) ==> s.contains(i) && p(i),
    decreases s.len(),
{
    if s.len() > 0 && !p(s[0]) {
        lemma_first_in_member(s.drop_first(), p);
        if let Some(i) = first_in(s.drop_first(), p) {
            let k = choose|k: int| 0 <= k < s.drop_first().len() && s.drop_first()[k] == i;
            assert(s[k + 1] == i);
        }
    } else if s.len() > 0 {
        assert(s[0] == s[0]);
    }
}

pub proof fn lemma_last_in_member(s: Seq<usize>, p: spec_fn(usize) -> bool)
    ensures
        last_in(s, p) matches Some(i) ==> s.contains(i) && p(i),
    decreases s.len(),
{
    if s.len() > 0 && !p(s.last()) {
        lemma_last_in_member(s.drop_last(), p);
        if let Some(i) = last_in(s.drop_last(), p) {
            let k = choose|k: int| 0 <= k < s.drop_last().len() && s.drop_last()[k] == i;
            assert(s[k] == i);
        }
    } else if s.len() > 0 {
        assert(s[s.len() - 1] == s.last());
    }
}

/// The first position in `order` whose event satisfies the condition `f` decides.
pub fn first_where<F: Fn(usize) -> bool>(order: &Vec<usize>, f: F, Ghost(p): Ghost<spec_fn(usize) -> bool>, Ghost(n): Ghost<nat>) -> (r: Option<usize>)
    requires
        forall|k: int| 0 <= k < order@.len() ==> #[trigger] order@[k] < n,
        forall|i: usize| i < n ==> call_requires(f, (i,)),
        forall|i: usize, b: bool| call_ensures(f, (i,), b) ==> b == p(i),
    ensures
        r == first_in(order@, p),
{
    let mut k: usize = 0;
    assert(order@.skip(0) =~= order@);
    while k < order.len()
        invariant
            k <= order@.len(),
            forall|j: int| 0 <= j < order@.len() ==> #[trigger] order@[j] < n,
            forall|i: usize| i < n ==> call_requires(f, (i,)),
            forall|i: usize, b: bool| call_ensures(f, (i,), b) ==> b == p(i),
            first_in(order@, p) == first_in(order@.skip(k as int), p),
        decreases order@.len() - k,
    {
        let i = order[k];
        assert(order@.skip(k as int)[0] == i);
        assert(order@.skip(k as int).drop_first() =~= order@.skip(k + 1));
        if f(i) {
            return Some(i);
        }
        k = k + 1;
    }
    None
}

/// The last position in `order` whose event satisfies the condition `f` decides.
pub fn last_where<F: Fn(usize) -> bool>(order: &Vec<usize>, f: F, Ghost(p): Ghost<spec_fn(usize) -> bool>, Ghost(n): Ghost<nat>) -> (r: Option<usize>)
    requires
        forall|k: int| 0 <= k < order@.len() ==> #[trigger] order@[k] < n,
        forall|i: usize| i < n ==> call_requires(f, (i,)),
        forall|i: usize, b: bool| call_ensures(f, (i,), b) ==> b == p(i),
    ensures
        r == last_in(order@, p),
{
    let mut k: usize = order.len();
    assert(order@.take(k as int) =~= order@);
    while k > 0
        invariant
            k <= order@.len(),
            forall|j: int| 0 <= j < order@.len() ==> #[trigger] order@[j] < n,
            forall|i: usize| i < n ==> call_requires(f, (i,)),
            forall|i: usize, b: bool| call_ensures(f, (i,), b) ==> b == p(i),
            last_in(order@, p) == last_in(order@.take(k as int), p),
        decreases k,
    {
        let i = order[k - 1];
        assert(order@.take(k as int).last() == i);
        assert(order@.take(k as int).drop_last() =~= order@.take(k - 1));
        if f(i) {
            return Some(i);
        }
        k = k - 1;
    }
    None
}

/// The positions in `order`, in that order, whose events satisfy the condition `f` decides.
pub fn all_where<F: Fn(usize) -> bool>(order: &Vec<usize>, f: F, Ghost(p): Ghost<spec_fn(usize) -> bool>, Ghost(n): Ghost<nat>) -> (r: Vec<usize>)
    requires
        forall|k: int| 0 <= k < order@.len() ==> #[trigger] order@[k] < n,
        forall|i: usize| i < n ==> call_requires(f, (i,)),
        forall|i: usize, b: bool| call_ensures(f, (i,), b) ==> b == p(i),
    ensures
        r@ == order@.filter(p),
{
    let mut out: Vec<usize> = Vec::new();
    let mut k: usize = 0;
    proof {
        reveal(Seq::filter);
        assert(order@.take(0) =~= Seq::<usize>::empty());
    }
    while k < order.len()
        invariant
            k <= order@.len(),
            forall|j: int| 0 <= j < order@.len() ==> #[trigger] order@[j] < n,
            forall|i: usize| i < n ==> call_requires(f, (i,)),
            forall|i: usize, b: bool| call_ensures(f, (i,), b) ==> b == p(i),
            out@ == order@.take(k as int).filter(p),
        decreases order@.len() - k,
    {
        let i = order[k];
        proof {
            assert(order@.take(k + 1) =~= order@.take(k as int).push(i));
            order@.take(k as int).lemma_filter_push(i, p);
        }
        if f(i) {
            out.push(i);
        }
        k = k + 1;
    }
    assert(order@.take(k as int) =~= order@);
    out
}

/// The first event, in recording order, with identifier `id`.
pub open spec fn first_with_id(events: Seq<EventRecord>, id: Seq<char>) -> Option<int>
    decreases events.len(),
{
    if events.len() == 0 {
        None
    } else if events[0].id@ == id {
        Some(0)
    } else {
        match first_with_id(events.drop_first(), id) {
            Some(k) => Some(k + 1),
            None => None,
        }
    }
}

/// The artifacts cited by the first event with each of the identifiers.
pub open spec fn cited_artifacts(events: Seq<EventRecord>, ids: Seq<Seq<char>>) -> Set<Seq<char>>
    decreases ids.len(),
{
    if ids.len() == 0 {
        Set::empty()
    } else {
        cited_artifacts(events, ids.drop_last()) + match first_with_id(events, ids.last()) {
            Some(k) => views(events[k].artifact_refs@).to_set(),
            None => Set::empty(),
        }
    }
}

proof fn lemma_first_with_id_bound(events: Seq<EventRecord>, id: Seq<char>)
    ensures
        first_with_id(events, id) matches Some(k) ==> 0 <= k < events.len(),
    decreases events.len(),
{
    if events.len() > 0 && events[0].id@ != id {
        lemma_first_with_id_bound(events.drop_first(), id);
    }
}

fn find_by_id(events: &[EventRecord], id: &str) -> (r: Option<usize>)
    ensures
        match first_with_id(events@, id@) {
            Some(k) => r == Some(k as usize),
            None => r is None,
        },
{
    let mut k: usize = 0;
    assert(events@.skip(0) =~= events@);
    while k < events.len()
        invariant
            k <= events@.len(),
            first_with_id(events@, id@) == match first_with_id(events@.skip(k as int), id@) {
                Some(j) => Some(j + k),
                None => None::<int>,
            },
        decreases events@.len() - k,
    {
        assert(events@.skip(k as int)[0] == events@[k as int]);
        assert(events@.skip(k as int).drop_first() =~= events@.skip(k + 1));
        if str_equal(events[k].id.as_str(), id) {
            return Some(k);
        }
        k = k + 1;
    }
    None
}

/// The distinct artifacts cited by the first event with each identifier, in order.
pub fn cited_artifact_refs(events: &[EventRecord], ids: &Vec<String>) -> (r: Vec<String>)
    ensures
        is_set(r@),
        set_of(r@) == cited_artifacts(events@, views(ids@)),
{
    let mut out: Vec<String> = Vec::new();
    let mut i: usize = 0;
    proof {
        assert(set_of(out@) =~= Set::<Seq<char>>::empty());
        assert(views(ids@).take(0) =~= Seq::<Seq<char>>::empty());
    }
    while i < ids.len()
        invariant
            i <= ids@.len(),
            is_set(out@),
            set_of(out@) == cited_artifacts(events@, views(ids@).take(i as int)),
        decreases ids@.len() - i,
    {
        let ghost prev = set_of(out@);
        let found = find_by_id(events, ids[i].as_str());
        let ghost added = match first_with_id(events@, ids@[i as int]@) {
            Some(k) => views(events@[k].artifact_refs@).to_set(),
            None => Set::empty(),
        };
        match found {
            Some(k) => {
                proof {
                    lemma_first_with_id_bound(events@, ids@[i as int]@);
                }
                let refs = &events[k].artifact_refs;
                let mut j: usize = 0;
                while j < refs.len()
                    invariant
                        j <= refs@.len(),
                        is_set(out@),
                        set_of(out@) == prev + views(refs@).take(j as int).to_set(),
                    decreases refs@.len() - j,
                {
                    let ghost before = set_of(out@);
                    set_insert(&mut out, refs[j].clone());
                    proof {
                        assert(views(refs@).take(j + 1) =~= views(refs@).take(j as int).push(refs@[j as int]@));
                        crate::strset::lemma_to_set_push(views(refs@).take(j as int), refs@[j as int]@);
                    }
                    j = j + 1;
                }
                assert(views(refs@).take(j as int) =~= views(refs@));
            },
            None => {
                assert(set_of(out@) =~= prev + added);
            },
        }
        proof {
            assert(views(ids@).take(i + 1).drop_last() =~= views(ids@).take(i as int));
            assert(views(ids@).take(i + 1).last() == ids@[i as int]@);
            assert(set_of(out@) =~= prev + added);
        }
        i = i + 1;
    }
    assert(views(ids@).take(i as int) =~= views(ids@));
    out
}

} // verus!
