//! The relations the inspector draws between recorded events, each on a recorded basis
//! only: an event whose payload names another event's identifier refers to it, and an
//! event that cites an artifact shares it with the event that cited it last before.
use vstd::prelude::*;
use crate::event::EventRecord;
use crate::strset::{lemma_lt_asymmetric, lemma_lt_irreflexive, lemma_lt_total, lemma_lt_transitive, str_lt, string_lt};
use crate::text::{push_str, str_equal};

verus! {

broadcast use vstd::string::group_string_axioms;

/// What a relation rests on.
#[derive(Clone, Copy, Debug, PartialEq, Eq, Structural)]
pub enum RelationBasis {
    RecordedReference,
    SharedArtifact,
}

impl RelationBasis {
    /// The basis as the inspector names it.
    pub open spec fn name_spec(&self) -> Seq<char> {
        match self {
            RelationBasis::RecordedReference => "recorded_reference"@,
            RelationBasis::SharedArtifact => "shared_artifact"@,
        }
    }

    /// Names the basis.
    pub fn name(&self) -> (r: &'static str)
        ensures
            r@ == self.name_spec(),
    {
        match self {
            RelationBasis::RecordedReference => "recorded_reference",
            RelationBasis::SharedArtifact => "shared_artifact",
        }
    }
}

/// A relation from one event to a later-processed one.
#[derive(Debug)]
pub struct EventRelation {
    pub from_event_id: String,
    pub to_event_id: String,
    pub basis: RelationBasis,
    pub label: String,
}

/// A relation as plain values.
pub type RelationView = (Seq<char>, Seq<char>, RelationBasis, Seq<char>);

impl View for EventRelation {
    type V = RelationView;

    open spec fn view(&self) -> RelationView {
        (self.from_event_id@, self.to_event_id@, self.basis, self.label@)
    }
}

/// The order relations are listed in: by source, target, basis (references first), label.
pub open spec fn rel_lt(a: RelationView, b: RelationView) -> bool {
    ||| str_lt(a.0, b.0)
    ||| a.0 == b.0 && str_lt(a.1, b.1)
    ||| a.0 == b.0 && a.1 == b.1 && a.2 == RelationBasis::RecordedReference && b.2 == RelationBasis::SharedArtifact
    ||| a.0 == b.0 && a.1 == b.1 && a.2 == b.2 && str_lt(a.3, b.3)
}

proof fn lemma_rel_lt_order(a: RelationView, b: RelationView, c: RelationView)
    ensures
        !rel_lt(a, a),
        rel_lt(a, b) ==> !rel_lt(b, a),
        rel_lt(a, b) && rel_lt(b, c) ==> rel_lt(a, c),
        a == b || rel_lt(a, b) || rel_lt(b, a),
{
    lemma_lt_irreflexive(a.0);
    lemma_lt_irreflexive(a.1);
    lemma_lt_irreflexive(a.3);
    lemma_lt_total(a.0, b.0);
    lemma_lt_total(a.1, b.1);
    lemma_lt_total(a.3, b.3);
    if str_lt(a.0, b.0) {
        lemma_lt_asymmetric(a.0, b.0);
    }
    if str_lt(a.1, b.1) {
        lemma_lt_asymmetric(a.1, b.1);
    }
    if str_lt(a.3, b.3) {
        lemma_lt_asymmetric(a.3, b.3);
    }
    if str_lt(a.0, b.0) && str_lt(b.0, c.0) {
        lemma_lt_transitive(a.0, b.0, c.0);
    }
    if str_lt(a.1, b.1) && str_lt(b.1, c.1) {
        lemma_lt_transitive(a.1, b.1, c.1);
    }
    if str_lt(a.3, b.3) && str_lt(b.3, c.3) {
        lemma_lt_transitive(a.3, b.3, c.3);
    }
}

/// The canonical identifier text of what the `uuid` crate parses from a string, if it
/// parses one.
pub uninterp spec fn uuid_text(text: Seq<char>) -> Option<Seq<char>>;

/// Calls `uuid::Uuid::parse_str` and renders a parsed identifier with `to_string`. The
/// contract claims only that the outcome is the named parse of the text.
#[verifier::external_body]
fn parse_uuid(text: &str) -> (r: Option<String>)
    ensures
        match r {
            Some(s) => uuid_text(text@) == Some(s@),
            None => uuid_text(text@) is None,
        },
{
    let id = uuid::Uuid::parse_str(text).ok()?;
    Some(id.to_string())
}

/// Whether some event has identifier `id`.
pub open spec fn is_event_id(events: Seq<EventRecord>, id: Seq<char>) -> bool {
    exists|k: int| 0 <= k < events.len() && (#[trigger] events[k]).id@ == id
}

/// The relation that text `m` of event `i` records, if any: a reference to another
/// event of the list.
pub open spec fn recorded_rel(events: Seq<EventRecord>, texts: Seq<Vec<String>>, i: int, m: int, r: RelationView) -> bool {
    &&& 0 <= i < events.len()
    &&& 0 <= m < texts[i]@.len()
    &&& uuid_text(texts[i]@[m]@) == Some(r.0)
    &&& is_event_id(events, r.0)
    &&& r.0 != events[i].id@
    &&& r.1 == events[i].id@
    &&& r.2 == RelationBasis::RecordedReference
    &&& r.3 == "recorded event reference"@
}

/// The event that cited artifact `a` last before the `j`-th artifact of event `i`.
pub open spec fn owner_before(events: Seq<EventRecord>, a: Seq<char>, i: int, j: int) -> Option<Seq<char>>
    decreases i, j,
{
    if i < 0 || i >= events.len() {
        None
    } else if j <= 0 {
        if i == 0 {
            None
        } else {
            owner_before(events, a, i - 1, events[i - 1].artifact_refs@.len() as int)
        }
    } else if j > events[i].artifact_refs@.len() {
        None
    } else if events[i].artifact_refs@[j - 1]@ == a {
        Some(events[i].id@)
    } else {
        owner_before(events, a, i, j - 1)
    }
}

/// The relation that the `j`-th artifact of event `i` records, if any: sharing it with
/// the event that cited it last before, when that is another event.
pub open spec fn shared_rel(events: Seq<EventRecord>, i: int, j: int, r: RelationView) -> bool {
    &&& 0 <= i < events.len()
    &&& 0 <= j < events[i].artifact_refs@.len()
    &&& r.3 == events[i].artifact_refs@[j]@
    &&& owner_before(events, r.3, i, j) == Some(r.0)
    &&& r.0 != events[i].id@
    &&& r.1 == events[i].id@
    &&& r.2 == RelationBasis::SharedArtifact
}

/// Whether position (i, m) comes before (pi, pm).
pub open spec fn before(i: int, m: int, pi: int, pm: int) -> bool {
    i < pi || (i == pi && m < pm)
}

/// A relation that an artifact cited before position (i, j) records.
pub open spec fn shared_before(events: Seq<EventRecord>, x: RelationView, i: int, j: int) -> bool {
    exists|pi: int, pj: int| before(pi, pj, i, j) && #[trigger] shared_rel(events, pi, pj, x)
}

/// Every relation the events record.
pub open spec fn relation_of(events: Seq<EventRecord>, texts: Seq<Vec<String>>, r: RelationView) -> bool {
    ||| exists|i: int, m: int| #[trigger] recorded_rel(events, texts, i, m, r)
    ||| exists|i: int, j: int| #[trigger] shared_rel(events, i, j, r)
}

/// The views of a list of relations.
pub open spec fn rel_views(v: Seq<EventRelation>) -> Seq<RelationView> {
    v.map_values(|r: EventRelation| r@)
}

/// Strictly increasing in the relation order.
pub open spec fn rels_sorted(s: Seq<RelationView>) -> bool {
    forall|i: int, j: int| 0 <= i < j < s.len() ==> rel_lt(#[trigger] s[i], #[trigger] s[j])
}

fn copy_string(s: &String) -> (r: String)
    ensures
        r@ == s@,
{
    let mut out = String::new();
    push_str(&mut out, s.as_str());
    out
}

fn relation_less(a: &EventRelation, b: &EventRelation) -> (r: bool)
    ensures
        r == rel_lt(a@, b@),
{
    if string_lt(a.from_event_id.as_str(), b.from_event_id.as_str()) {
        return true;
    }
    if !str_equal(a.from_event_id.as_str(), b.from_event_id.as_str()) {
        return false;
    }
    if string_lt(a.to_event_id.as_str(), b.to_event_id.as_str()) {
        return true;
    }
    if !str_equal(a.to_event_id.as_str(), b.to_event_id.as_str()) {
        return false;
    }
    match (a.basis, b.basis) {
        (RelationBasis::RecordedReference, RelationBasis::SharedArtifact) => true,
        (RelationBasis::SharedArtifact, RelationBasis::RecordedReference) => false,
        _ => string_lt(a.label.as_str(), b.label.as_str()),
    }
}

/// Adds a relation to a strictly increasing list, unless it is there already.
fn insert_relation(out: &mut Vec<EventRelation>, r: EventRelation)
    requires
        rels_sorted(rel_views(old(out)@)),
    ensures
        rels_sorted(rel_views(final(out)@)),
        rel_views(final(out)@).to_set() == rel_views(old(out)@).to_set().insert(r@),
{
    let ghost before_v = rel_views(out@);
    let n = out.len();
    let mut p: usize = 0;
    while p < n && relation_less(&out[p], &r)
        invariant
            n == out@.len(),
            rel_views(out@) == before_v,
            p <= n,
            forall|k: int| 0 <= k < p ==> rel_lt(#[trigger] before_v[k], r@),
        decreases n - p,
    {
        p = p + 1;
    }
    if p < n && str_equal(out[p].from_event_id.as_str(), r.from_event_id.as_str())
        && str_equal(out[p].to_event_id.as_str(), r.to_event_id.as_str()) && out[p].basis == r.basis
        && str_equal(out[p].label.as_str(), r.label.as_str()) {
        proof {
            assert(before_v[p as int] == r@);
            assert(before_v.to_set().insert(r@) =~= before_v.to_set());
        }
        return;
    }
    proof {
        assert forall|k: int| p <= k < n implies rel_lt(r@, #[trigger] before_v[k]) by {
            lemma_rel_lt_order(before_v[p as int], r@, before_v[k]);
            lemma_rel_lt_order(r@, before_v[p as int], before_v[k]);
            if k > p {
                assert(rel_lt(before_v[p as int], before_v[k]));
            }
        }
    }
    out.insert(p, r);
    let ghost after_v = rel_views(out@);
    proof {
        assert(after_v =~= before_v.take(p as int).push(r@) + before_v.skip(p as int));
        assert forall|i: int, j: int| 0 <= i < j < after_v.len() implies rel_lt(#[trigger] after_v[i], #[trigger] after_v[j]) by {
            if j < p {
            } else if j == p {
            } else if i < p {
                lemma_rel_lt_order(before_v[i], r@, before_v[j - 1]);
            } else if i == p {
            } else {
            }
        }
        assert forall|x: RelationView| after_v.to_set().contains(x) <==> before_v.to_set().insert(r@).contains(x) by {
            if after_v.contains(x) {
                let k = choose|k: int| 0 <= k < after_v.len() && after_v[k] == x;
                if k < p {
                    assert(before_v[k] == x);
                } else if k > p {
                    assert(before_v[k - 1] == x);
                }
            }
            if before_v.contains(x) {
                let k = choose|k: int| 0 <= k < before_v.len() && before_v[k] == x;
                if k < p {
                    assert(after_v[k] == x);
                } else {
                    assert(after_v[k + 1] == x);
                }
            }
            if x == r@ {
                assert(after_v[p as int] == x);
            }
        }
        assert(after_v.to_set() =~= before_v.to_set().insert(r@));
    }
}

fn find_event_id(events: &[EventRecord], id: &str) -> (r: bool)
    ensures
        r == is_event_id(events@, id@),
{
    let mut k: usize = 0;
    while k < events.len()
        invariant
            k <= events@.len(),
            forall|q: int| 0 <= q < k ==> (#[trigger] events@[q]).id@ != id@,
        decreases events@.len() - k,
    {
        if str_equal(events[k].id.as_str(), id) {
            assert(events@[k as int].id@ == id@);
            return true;
        }
        k = k + 1;
    }
    false
}

/// The position of the event that cited artifact `a` last before the `j`-th artifact of
/// event `i`.
fn find_owner(events: &[EventRecord], a: &str, i: usize, j: usize) -> (r: Option<usize>)
    requires
        i < events@.len(),
        j <= events@[i as int].artifact_refs@.len(),
    ensures
        match r {
            Some(k) => k < events@.len() && owner_before(events@, a@, i as int, j as int) == Some(events@[k as int].id@),
            None => owner_before(events@, a@, i as int, j as int) is None,
        },
{
    let mut ii = i;
    let mut jj = j;
    while true
        invariant
            ii < events@.len(),
            jj <= events@[ii as int].artifact_refs@.len(),
            owner_before(events@, a@, i as int, j as int) == owner_before(events@, a@, ii as int, jj as int),
        decreases ii, jj,
    {
        if jj == 0 {
            if ii == 0 {
                return None;
            }
            ii = ii - 1;
            jj = events[ii].artifact_refs.len();
        } else {
            if str_equal(events[ii].artifact_refs[jj - 1].as_str(), a) {
                return Some(ii);
            }
            jj = jj - 1;
        }
    }
    None
}

/// The relations the events record, each once, in the relation order. `texts[i]` holds
/// the strings found in the payload and source timestamp of `events[i]`.
pub fn event_relations(events: &[EventRecord], texts: &[Vec<String>]) -> (r: Vec<EventRelation>)
    requires
        texts@.len() == events@.len(),
    ensures
        rels_sorted(rel_views(r@)),
        forall|x: RelationView| rel_views(r@).contains(x) <==> relation_of(events@, texts@, x),
{
    let n = events.len();
    let mut out: Vec<EventRelation> = Vec::new();
    let mut i: usize = 0;
    while i < n
        invariant
            n == events@.len(),
            texts@.len() == n,
            i <= n,
            rels_sorted(rel_views(out@)),
            forall|x: RelationView| rel_views(out@).contains(x) <==> exists|pi: int, pm: int| before(pi, pm, i as int, 0) && #[trigger] recorded_rel(events@, texts@, pi, pm, x),
        decreases n - i,
    {
        let mut m: usize = 0;
        let strings = &texts[i];
        while m < strings.len()
            invariant
                n == events@.len(),
                texts@.len() == n,
                i < n,
                *strings == texts@[i as int],
                m <= strings@.len(),
                rels_sorted(rel_views(out@)),
                forall|x: RelationView| rel_views(out@).contains(x) <==> exists|pi: int, pm: int| before(pi, pm, i as int, m as int) && #[trigger] recorded_rel(events@, texts@, pi, pm, x),
            decreases strings@.len() - m,
        {
            let ghost old_out = rel_views(out@);
            match parse_uuid(strings[m].as_str()) {
                Some(reference) => {
                    if find_event_id(events, reference.as_str()) && !str_equal(reference.as_str(), events[i].id.as_str()) {
                        let mut label = String::new();
                        push_str(&mut label, "recorded event reference");
                        let rel = EventRelation {
                            from_event_id: reference,
                            to_event_id: copy_string(&events[i].id),
                            basis: RelationBasis::RecordedReference,
                            label,
                        };
                        let ghost rv = rel@;
                        insert_relation(&mut out, rel);
                        proof {
                            assert(recorded_rel(events@, texts@, i as int, m as int, rv));
                            assert forall|x: RelationView| rel_views(out@).contains(x) <==> exists|pi: int, pm: int| before(pi, pm, i as int, m + 1) && #[trigger] recorded_rel(events@, texts@, pi, pm, x) by {
                                assert(rel_views(out@).contains(x) <==> rel_views(out@).to_set().contains(x));
                                assert(old_out.contains(x) <==> old_out.to_set().contains(x));
                                if exists|pi: int, pm: int| before(pi, pm, i as int, m + 1) && #[trigger] recorded_rel(events@, texts@, pi, pm, x) {
                                    let (pi, pm) = choose|pi: int, pm: int| before(pi, pm, i as int, m + 1) && #[trigger] recorded_rel(events@, texts@, pi, pm, x);
                                    if pi == i && pm == m {
                                        assert(x == rv);
                                    } else {
                                        assert(before(pi, pm, i as int, m as int));
                                    }
                                }
                            }
                        }
                    } else {
                        proof {
                            assert forall|x: RelationView| rel_views(out@).contains(x) <==> exists|pi: int, pm: int| before(pi, pm, i as int, m + 1) && #[trigger] recorded_rel(events@, texts@, pi, pm, x) by {
                                if exists|pi: int, pm: int| before(pi, pm, i as int, m + 1) && #[trigger] recorded_rel(events@, texts@, pi, pm, x) {
                                    let (pi, pm) = choose|pi: int, pm: int| before(pi, pm, i as int, m + 1) && #[trigger] recorded_rel(events@, texts@, pi, pm, x);
                                    if pi == i && pm == m {
                                        assert(false);
                                    } else {
                                        assert(before(pi, pm, i as int, m as int));
                                    }
                                }
                            }
                        }
                    }
                },
                None => {
                    proof {
                        assert forall|x: RelationView| rel_views(out@).contains(x) <==> exists|pi: int, pm: int| before(pi, pm, i as int, m + 1) && #[trigger] recorded_rel(events@, texts@, pi, pm, x) by {
                            if exists|pi: int, pm: int| before(pi, pm, i as int, m + 1) && #[trigger] recorded_rel(events@, texts@, pi, pm, x) {
                                let (pi, pm) = choose|pi: int, pm: int| before(pi, pm, i as int, m + 1) && #[trigger] recorded_rel(events@, texts@, pi, pm, x);
                                if pi == i && pm == m {
                                    assert(false);
                                } else {
                                    assert(before(pi, pm, i as int, m as int));
                                }
                            }
                        }
                    }
                },
            }
            m = m + 1;
        }
        proof {
            assert forall|x: RelationView| rel_views(out@).contains(x) <==> exists|pi: int, pm: int| before(pi, pm, i + 1, 0) && #[trigger] recorded_rel(events@, texts@, pi, pm, x) by {
                if exists|pi: int, pm: int| before(pi, pm, i + 1, 0) && #[trigger] recorded_rel(events@, texts@, pi, pm, x) {
                    let (pi, pm) = choose|pi: int, pm: int| before(pi, pm, i + 1, 0) && #[trigger] recorded_rel(events@, texts@, pi, pm, x);
                    assert(before(pi, pm, i as int, m as int));
                }
                if exists|pi: int, pm: int| before(pi, pm, i as int, m as int) && #[trigger] recorded_rel(events@, texts@, pi, pm, x) {
                    let (pi, pm) = choose|pi: int, pm: int| before(pi, pm, i as int, m as int) && #[trigger] recorded_rel(events@, texts@, pi, pm, x);
                    assert(before(pi, pm, i + 1, 0));
                }
            }
        }
        i = i + 1;
    }
    let ghost recorded_done = rel_views(out@);
    proof {
        assert forall|x: RelationView| recorded_done.contains(x) <==> exists|pi: int, pm: int| #[trigger] recorded_rel(events@, texts@, pi, pm, x) by {
            if exists|pi: int, pm: int| #[trigger] recorded_rel(events@, texts@, pi, pm, x) {
                let (pi, pm) = choose|pi: int, pm: int| #[trigger] recorded_rel(events@, texts@, pi, pm, x);
                assert(before(pi, pm, n as int, 0));
            }
        }
    }
    i = 0;
    while i < n
        invariant
            n == events@.len(),
            texts@.len() == n,
            i <= n,
            rels_sorted(rel_views(out@)),
            forall|x: RelationView| #[trigger] rel_views(out@).contains(x) <==> (recorded_done.contains(x) || shared_before(events@, x, i as int, 0)),
            forall|x: RelationView| recorded_done.contains(x) <==> exists|pi: int, pm: int| #[trigger] recorded_rel(events@, texts@, pi, pm, x),
        decreases n - i,
    {
        let mut j: usize = 0;
        let refs_len = events[i].artifact_refs.len();
        while j < refs_len
            invariant
                n == events@.len(),
                i < n,
                refs_len == events@[i as int].artifact_refs@.len(),
                j <= refs_len,
                rels_sorted(rel_views(out@)),
                forall|x: RelationView| #[trigger] rel_views(out@).contains(x) <==> (recorded_done.contains(x) || shared_before(events@, x, i as int, j as int)),
            decreases refs_len - j,
        {
            let ghost old_out = rel_views(out@);
            let a = &events[i].artifact_refs[j];
            let owner = find_owner(events, a.as_str(), i, j);
            let mut added = false;
            let ghost mut rv: RelationView = (Seq::empty(), Seq::empty(), RelationBasis::SharedArtifact, Seq::empty());
            match owner {
                Some(k) => {
                    if !str_equal(events[k].id.as_str(), events[i].id.as_str()) {
                        let rel = EventRelation {
                            from_event_id: copy_string(&events[k].id),
                            to_event_id: copy_string(&events[i].id),
                            basis: RelationBasis::SharedArtifact,
                            label: copy_string(a),
                        };
                        proof {
                            rv = rel@;
                        }
                        insert_relation(&mut out, rel);
                        added = true;
                    }
                },
                None => {},
            }
            proof {
                if added {
                    assert(shared_rel(events@, i as int, j as int, rv));
                }
                assert forall|x: RelationView| #[trigger] rel_views(out@).contains(x) <==> (recorded_done.contains(x) || shared_before(events@, x, i as int, j + 1)) by {
                    assert(rel_views(out@).contains(x) <==> rel_views(out@).to_set().contains(x));
                    assert(old_out.contains(x) <==> old_out.to_set().contains(x));
                    if exists|pi: int, pj: int| before(pi, pj, i as int, j + 1) && #[trigger] shared_rel(events@, pi, pj, x) {
                        let (pi, pj) = choose|pi: int, pj: int| before(pi, pj, i as int, j + 1) && #[trigger] shared_rel(events@, pi, pj, x);
                        if pi == i && pj == j {
                            assert(added && x == rv);
                        } else {
                            assert(before(pi, pj, i as int, j as int));
                        }
                    }
                    if rel_views(out@).contains(x) && !recorded_done.contains(x) {
                        if added && x == rv {
                            assert(before(i as int, j as int, i as int, j + 1) && shared_rel(events@, i as int, j as int, x));
                        } else {
                            assert(old_out.to_set().contains(x));
                            assert(old_out.contains(x));
                            assert(exists|pi: int, pj: int| before(pi, pj, i as int, j as int) && #[trigger] shared_rel(events@, pi, pj, x));
                            let (pi, pj) = choose|pi: int, pj: int| before(pi, pj, i as int, j as int) && #[trigger] shared_rel(events@, pi, pj, x);
                            assert(before(pi, pj, i as int, j + 1));
                            assert(shared_rel(events@, pi, pj, x));
                        }
                    }
                    if exists|pi: int, pj: int| before(pi, pj, i as int, j as int) && #[trigger] shared_rel(events@, pi, pj, x) {
                        let (pi, pj) = choose|pi: int, pj: int| before(pi, pj, i as int, j as int) && #[trigger] shared_rel(events@, pi, pj, x);
                        assert(before(pi, pj, i as int, j + 1));
                    }
                }
            }
            j = j + 1;
        }
        proof {
            assert forall|x: RelationView| #[trigger] rel_views(out@).contains(x) <==> (recorded_done.contains(x) || shared_before(events@, x, i + 1, 0)) by {
                if exists|pi: int, pj: int| before(pi, pj, i + 1, 0) && #[trigger] shared_rel(events@, pi, pj, x) {
                    let (pi, pj) = choose|pi: int, pj: int| before(pi, pj, i + 1, 0) && #[trigger] shared_rel(events@, pi, pj, x);
                    assert(before(pi, pj, i as int, j as int));
                }
                if exists|pi: int, pj: int| before(pi, pj, i as int, j as int) && #[trigger] shared_rel(events@, pi, pj, x) {
                    let (pi, pj) = choose|pi: int, pj: int| before(pi, pj, i as int, j as int) && #[trigger] shared_rel(events@, pi, pj, x);
                    assert(before(pi, pj, i + 1, 0));
                }
            }
        }
        i = i + 1;
    }
    proof {
        assert forall|x: RelationView| rel_views(out@).contains(x) <==> relation_of(events@, texts@, x) by {
            if exists|pi: int, pj: int| #[trigger] shared_rel(events@, pi, pj, x) {
                let (pi, pj) = choose|pi: int, pj: int| #[trigger] shared_rel(events@, pi, pj, x);
                assert(before(pi, pj, n as int, 0));
            }
        }
    }
    out
}

} // verus!
