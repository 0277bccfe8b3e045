//! The parts of a JSON payload that usage accounting reads: unsigned numbers, objects
//! and arrays, with every other value kept as opaque.
use vstd::prelude::*;
use crate::text::str_equal;

verus! {

broadcast use vstd::string::group_string_axioms;

/// A JSON value as usage accounting sees it.
#[derive(Debug)]
pub enum JsonTree {
    /// A number that is an unsigned 64-bit integer.
    Unsigned(u64),
    /// An object's members, in order.
    Object(Vec<(String, JsonTree)>),
    Array(Vec<JsonTree>),
    /// Any other value: a string, a boolean, null, or another number.
    Other,
}

/// The sum of the unsigned values of every member named `key`, at any depth, without
/// looking inside those members; a member named `key` whose value is not an unsigned
/// number counts zero.
pub open spec fn token_sum(t: JsonTree, key: Seq<char>) -> nat
    decreases t,
{
    match t {
        JsonTree::Object(members) => member_sum(members@, key),
        JsonTree::Array(items) => item_sum(items@, key),
        _ => 0,
    }
}

/// The sum of `token_sum` over the items.
pub open spec fn item_sum(items: Seq<JsonTree>, key: Seq<char>) -> nat
    decreases items,
{
    if items.len() == 0 {
        0
    } else {
        item_sum(items.drop_last(), key) + token_sum(items.last(), key)
    }
}

/// What the members count: the value of a member named `key` when unsigned, and the sum
/// inside every other member.
pub open spec fn member_sum(members: Seq<(String, JsonTree)>, key: Seq<char>) -> nat
    decreases members,
{
    if members.len() == 0 {
        0
    } else {
        let m = members.last();
        member_sum(members.drop_last(), key) + if m.0@ == key {
            match m.1 {
                JsonTree::Unsigned(v) => v as nat,
                _ => 0nat,
            }
        } else {
            token_sum(m.1, key)
        }
    }
}

proof fn lemma_item_prefix(items: Seq<JsonTree>, key: Seq<char>, i: int)
    requires
        0 <= i <= items.len(),
    ensures
        item_sum(items.take(i), key) <= item_sum(items, key),
    decreases items.len(),
{
    if i < items.len() {
        assert(items.drop_last().take(i) =~= items.take(i));
        lemma_item_prefix(items.drop_last(), key, i);
    } else {
        assert(items.take(i) =~= items);
    }
}

proof fn lemma_member_prefix(members: Seq<(String, JsonTree)>, key: Seq<char>, i: int)
    requires
        0 <= i <= members.len(),
    ensures
        member_sum(members.take(i), key) <= member_sum(members, key),
    decreases members.len(),
{
    if i < members.len() {
        assert(members.drop_last().take(i) =~= members.take(i));
        lemma_member_prefix(members.drop_last(), key, i);
    } else {
        assert(members.take(i) =~= members);
    }
}

/// The sum of the unsigned values of every member named `key` in the payload, at any
/// depth, without looking inside those members; `None` when it does not fit in 64 bits.
pub fn payload_token_sum(t: &JsonTree, key: &str) -> (r: Option<u64>)
    ensures
        token_sum(*t, key@) <= u64::MAX ==> r == Some(token_sum(*t, key@) as u64),
        token_sum(*t, key@) > u64::MAX ==> r is None,
    decreases t,
{
    match t {
        JsonTree::Object(members) => {
            let mut total: u64 = 0;
            let mut i: usize = 0;
            assert(members@.take(0) =~= Seq::<(String, JsonTree)>::empty());
            while i < members.len()
                invariant
                    i <= members@.len(),
                    *t is Object,
                    (*t)->Object_0 == *members,
                    token_sum(*t, key@) == member_sum(members@, key@),
                    total == member_sum(members@.take(i as int), key@),
                decreases members@.len() - i,
            {
                proof {
                    assert(members@.take(i + 1).drop_last() =~= members@.take(i as int));
                    lemma_member_prefix(members@, key@, i + 1);
                }
                let m = &members[i];
                let part: u64 = if str_equal(m.0.as_str(), key) {
                    match m.1 {
                        JsonTree::Unsigned(v) => v,
                        _ => 0,
                    }
                } else {
                    proof {
                        assert(decreases_to!(*t => (*t)->Object_0));
                        assert(decreases_to!(*members => members@));
                        assert(decreases_to!(members@ => members@[i as int]));
                        assert(decreases_to!(members@[i as int] => members@[i as int].1));
                        assert(decreases_to!(*t => members@[i as int].1));
                    }
                    match payload_token_sum(&m.1, key) {
                        Some(v) => v,
                        None => {
                            return None;
                        },
                    }
                };
                match total.checked_add(part) {
                    Some(v) => {
                        total = v;
                    },
                    None => {
                        return None;
                    },
                }
                i = i + 1;
            }
            assert(members@.take(members@.len() as int) =~= members@);
            Some(total)
        },
        JsonTree::Array(items) => {
            let mut total: u64 = 0;
            let mut i: usize = 0;
            assert(items@.take(0) =~= Seq::<JsonTree>::empty());
            while i < items.len()
                invariant
                    i <= items@.len(),
                    *t is Array,
                    (*t)->Array_0 == *items,
                    token_sum(*t, key@) == item_sum(items@, key@),
                    total == item_sum(items@.take(i as int), key@),
                decreases items@.len() - i,
            {
                proof {
                    assert(items@.take(i + 1).drop_last() =~= items@.take(i as int));
                    lemma_item_prefix(items@, key@, i + 1);
                    assert(decreases_to!(*t => (*t)->Array_0));
                    assert(decreases_to!(*items => items@));
                    assert(decreases_to!(items@ => items@[i as int]));
                    assert(decreases_to!(*t => items@[i as int]));
                }
                let part = match payload_token_sum(&items[i], key) {
                    Some(v) => v,
                    None => {
                        return None;
                    },
                };
                match total.checked_add(part) {
                    Some(v) => {
                        total = v;
                    },
                    None => {
                        return None;
                    },
                }
                i = i + 1;
            }
            assert(items@.take(items@.len() as int) =~= items@);
            Some(total)
        },
        _ => Some(0),
    }
}

} // verus!
