//! Experience queries: their default windows, their intervals, and the even thinning of
//! long evidence lists.
use vstd::prelude::*;

verus! {

/// Milliseconds of context before an event, by default.
pub fn default_before_ms() -> (r: u64)
    ensures
        r == 500,
{
    500
}

/// Milliseconds of context after an event, by default.
pub fn default_after_ms() -> (r: u64)
    ensures
        r == 2000,
{
    2000
}

/// Milliseconds of console history before an exception, by default.
pub fn default_console_before_ms() -> (r: u64)
    ensures
        r == 2000,
{
    2000
}

/// Frames returned by a visual evidence query, by default.
pub fn default_frame_limit() -> (r: usize)
    ensures
        r == 12,
{
    12
}

/// A closed interval of host monotonic time.
#[derive(Clone, Copy, Debug, PartialEq, Eq, Structural)]
pub struct QueryInterval {
    pub start_ns: u64,
    pub end_ns: u64,
}

/// Milliseconds as nanoseconds; `None` when that overflows 64 bits.
pub fn ms_to_ns(milliseconds: u64) -> (r: Option<u64>)
    ensures
        milliseconds * 1000000 <= u64::MAX ==> r == Some((milliseconds * 1000000) as u64),
        milliseconds * 1000000 > u64::MAX ==> r is None,
{
    milliseconds.checked_mul(1000000)
}

/// The source position of the `i`-th of `limit` evenly spaced picks among `n` items:
/// the first and the last are always picked.
pub open spec fn compact_index(i: int, n: int, limit: int) -> int {
    i * (n - 1) / (limit - 1)
}

/// At most `limit` items, evenly spaced: all of them when there are no more than `limit`,
/// the last one when `limit` is one, and otherwise the items at
/// `i * (len - 1) / (limit - 1)` for `i` in `0..limit`, each cloned.
pub fn compact<T: Clone>(items: Vec<T>, limit: usize) -> (r: Vec<T>)
    requires
        items@.len() <= limit || limit <= 1 || (limit - 1) * (items@.len() - 1) <= usize::MAX,
    ensures
        items@.len() <= limit ==> r@ == items@,
        items@.len() > limit && limit == 1 ==> r@.len() == 1 && cloned::<T>(
            items@[items@.len() - 1],
            r@[0],
        ),
        items@.len() > limit && limit != 1 ==> r@.len() == limit && forall|i: int|
            0 <= i < limit ==> cloned::<T>(
                items@[compact_index(i, items@.len() as int, limit as int)],
                #[trigger] r@[i],
            ),
{
    let n = items.len();
    if n <= limit {
        return items;
    }
    if limit == 0 {
        return Vec::new();
    }
    if limit == 1 {
        let last = items[n - 1].clone();
        return vec![last];
    }
    let mut out: Vec<T> = Vec::new();
    let mut i: usize = 0;
    while i < limit
        invariant
            n == items@.len(),
            n > limit >= 2,
            (limit - 1) * (n - 1) <= usize::MAX,
            i <= limit,
            out@.len() == i,
            forall|k: int| 0 <= k < i ==> cloned::<T>(
                items@[compact_index(k, n as int, limit as int)],
                #[trigger] out@[k],
            ),
        decreases limit - i,
    {
        assert(i * (n - 1) <= (limit - 1) * (n - 1)) by (nonlinear_arith)
            requires
                i < limit,
                n >= 1,
        ;
        let product: usize = i * (n - 1);
        let index: usize = product / (limit - 1);
        assert(index < n) by (nonlinear_arith)
            requires
                index == i * (n - 1) / (limit - 1),
                i <= limit - 1,
                limit >= 2,
                n >= 1,
        {
            assert(i * (n - 1) <= (limit - 1) * (n - 1));
            assert(i * (n - 1) / (limit - 1) <= (limit - 1) * (n - 1) / (limit - 1));
        }
        let item = items[index].clone();
        out.push(item);
        i = i + 1;
    }
    out
}

} // verus!
