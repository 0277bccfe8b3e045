//! Latency summaries over nanosecond samples, artifact storage totals, and process
//! statistics as Linux procfs reports them.
use vstd::prelude::*;
use vstd::relations::{sorted_by, total_ordering};
use crate::scan::{
    last_index, last_index_of, lemma_last_index_bounds, lines, parse_u64, parse_u64_spec,
    split_lines, split_words, words,
};
use crate::text::{chars_of, has_prefix, push_str, trim, trim_chars};

verus! {

broadcast use vstd::string::group_string_axioms;

/// Files and bytes found under an artifact directory.
#[derive(Clone, Debug)]
pub struct StorageUsage {
    pub file_count: u64,
    pub byte_count: u64,
}

impl Default for StorageUsage {
    fn default() -> (r: Self)
        ensures
            r.file_count == 0,
            r.byte_count == 0,
    {
        StorageUsage { file_count: 0, byte_count: 0 }
    }
}

impl StorageUsage {
    /// Counts one regular file of `len` bytes; the byte total saturates.
    pub fn record_file(&mut self, len: u64)
        requires
            old(self).file_count < u64::MAX,
        ensures
            final(self).file_count == old(self).file_count + 1,
            final(self).byte_count == old(self).byte_count.saturating_add(len),
    {
        self.file_count = self.file_count + 1;
        self.byte_count = self.byte_count.saturating_add(len);
    }
}

/// Order statistics and mean of a set of latency samples, in nanoseconds.
#[derive(Clone, Debug)]
pub struct LatencySummary {
    pub count: usize,
    pub minimum_ns: u64,
    pub p50_ns: u64,
    pub p95_ns: u64,
    pub maximum_ns: u64,
    pub mean_ns: u64,
}

/// The ascending order on samples.
pub open spec fn ascending() -> spec_fn(u64, u64) -> bool {
    |a: u64, b: u64| a <= b
}

/// The samples in ascending order.
pub open spec fn sorted_samples(s: Seq<u64>) -> Seq<u64> {
    s.sort_by(ascending())
}

/// The sum of the samples.
pub open spec fn sample_sum(s: Seq<u64>) -> nat
    decreases s.len(),
{
    if s.len() == 0 {
        0
    } else {
        sample_sum(s.drop_last()) + (s.last() as nat)
    }
}

/// Nearest-rank index of percentile `p` among `n` ordered samples:
/// `ceil(p * n / 100) - 1`, kept within `0..n`.
pub open spec fn rank_index(p: nat, n: nat) -> int {
    let c = (p * n + 99) / 100;
    if c == 0 {
        0
    } else if c - 1 < n - 1 {
        c - 1
    } else {
        n - 1
    }
}

/// The summary of a non-empty set of samples.
pub open spec fn summary_spec(s: Seq<u64>) -> LatencySummary {
    let t = sorted_samples(s);
    LatencySummary {
        count: s.len() as usize,
        minimum_ns: t[0],
        p50_ns: t[rank_index(50, s.len())],
        p95_ns: t[rank_index(95, s.len())],
        maximum_ns: t[s.len() - 1],
        mean_ns: (sample_sum(s) / s.len()) as u64,
    }
}

pub proof fn lemma_ascending_total()
    ensures
        total_ordering(ascending()),
{
}

/// Nearest-rank percentile of values that are already in the order the caller wants.
pub fn percentile(values: &[u64], p: usize) -> (r: u64)
    requires
        values@.len() > 0,
        p * values@.len() <= usize::MAX,
    ensures
        r == values@[rank_index(p as nat, values@.len())],
{
    let n = values.len();
    let x: usize = p * n;
    let q: usize = x / 100;
    let c: usize = if x % 100 > 0 {
        q + 1
    } else {
        q
    };
    assert(c == (x + 99) / 100);
    let index: usize = if c > 0 {
        c - 1
    } else {
        0
    };
    let index: usize = if index < n - 1 {
        index
    } else {
        n - 1
    };
    values[index]
}

/// The samples in ascending order.
pub fn sort_samples(v: &[u64]) -> (r: Vec<u64>)
    ensures
        r@ == sorted_samples(v@),
{
    let n = v.len();
    let mut out: Vec<u64> = Vec::new();
    proof {
        broadcast use vstd::seq_lib::group_to_multiset_ensures;
    }
    for i in 0..n
        invariant
            n == v@.len(),
            out@.len() == i,
            sorted_by(out@, ascending()),
            out@.to_multiset() == v@.take(i as int).to_multiset(),
    {
        let x = v[i];
        let mut lo: usize = 0;
        let mut hi: usize = out.len();
        while lo < hi
            invariant
                lo <= hi <= out@.len(),
                forall|k: int| 0 <= k < lo ==> out@[k] <= x,
                forall|k: int| hi <= k < out@.len() ==> out@[k] > x,
                sorted_by(out@, ascending()),
            decreases hi - lo,
        {
            let mid = lo + (hi - lo) / 2;
            if out[mid] <= x {
                assert forall|k: int| 0 <= k < mid + 1 implies out@[k] <= x by {
                    if k < mid {
                        assert(ascending()(out@[k], out@[mid as int]));
                    }
                }
                lo = mid + 1;
            } else {
                assert forall|k: int| mid <= k < out@.len() implies out@[k] > x by {
                    if k > mid {
                        assert(ascending()(out@[mid as int], out@[k]));
                    }
                }
                hi = mid;
            }
        }
        let ghost before = out@;
        out.insert(lo, x);
        proof {
            broadcast use vstd::seq_lib::group_to_multiset_ensures;
            assert(out@ == before.insert(lo as int, x));
            assert(v@.take(i + 1) =~= v@.take(i as int).push(x));
            assert forall|a: int, b: int| 0 <= a < b < out@.len() implies #[trigger] ascending()(
                out@[a],
                out@[b],
            ) by {
                if b < lo {
                    assert(ascending()(before[a], before[b]));
                } else if a > lo {
                    assert(ascending()(before[a - 1], before[b - 1]));
                } else if a == lo {
                    assert(out@[b] == before[b - 1]);
                } else {
                    assert(out@[a] == before[a]);
                }
            }
        }
    }
    proof {
        assert(v@.take(n as int) =~= v@);
        lemma_ascending_total();
        v@.lemma_sort_by_ensures(ascending());
        vstd::seq_lib::lemma_sorted_unique(out@, v@.sort_by(ascending()), ascending());
    }
    out
}

/// Count, minimum, nearest-rank median and 95th percentile, maximum and mean of the
/// samples; `None` for no samples.
pub fn latency_summary(values: Vec<u64>) -> (r: Option<LatencySummary>)
    requires
        95 * values@.len() <= usize::MAX,
    ensures
        values@.len() == 0 ==> r is None,
        values@.len() > 0 ==> r == Some(summary_spec(values@)),
{
    let n = values.len();
    if n == 0 {
        return None;
    }
    let mut total: u128 = 0;
    for i in 0..n
        invariant
            n == values@.len(),
            total == sample_sum(values@.take(i as int)),
            total <= i * (u64::MAX as int),
    {
        assert(values@.take(i + 1).drop_last() =~= values@.take(i as int));
        total = total + values[i] as u128;
    }
    assert(values@.take(n as int) =~= values@);
    let sorted = sort_samples(values.as_slice());
    proof {
        lemma_ascending_total();
        values@.lemma_sort_by_ensures(ascending());
        broadcast use vstd::seq_lib::group_to_multiset_ensures;
        assert(sorted@.len() == values@.len()) by {
            assert(sorted@.to_multiset().len() == values@.to_multiset().len());
        }
    }
    assert(total / (n as u128) <= u64::MAX) by (nonlinear_arith)
        requires
            total <= n * (u64::MAX as int),
            n > 0,
    ;
    let mean: u64 = (total / (n as u128)) as u64;
    Some(
        LatencySummary {
            count: n,
            minimum_ns: sorted[0],
            p50_ns: percentile(sorted.as_slice(), 50),
            p95_ns: percentile(sorted.as_slice(), 95),
            maximum_ns: sorted[n - 1],
            mean_ns: mean,
        },
    )
}

/// Why a procfs record could not be read.
#[derive(Clone, Copy, Debug, PartialEq, Eq, Structural)]
pub enum StatError {
    /// The stat line has no `)` closing the command name.
    MissingTerminator,
    /// The stat line has too few fields after the command name.
    Incomplete,
    /// A field that should be a number is not one.
    InvalidNumber,
    /// The stat record of a vCPU thread could not be read.
    UnreadableTask,
}

impl StatError {
    /// The human-readable description of the error.
    pub open spec fn text(&self) -> Seq<char> {
        match *self {
            StatError::MissingTerminator => "process stat has no command terminator"@,
            StatError::Incomplete => "process stat is incomplete"@,
            StatError::InvalidNumber => "process stat holds an invalid number"@,
            StatError::UnreadableTask => "vCPU thread stat is unreadable"@,
        }
    }

    /// Renders the description of the error.
    pub fn message(&self) -> (r: String)
        ensures
            r@ == self.text(),
    {
        let mut s = String::new();
        match *self {
            StatError::MissingTerminator => push_str(&mut s, "process stat has no command terminator"),
            StatError::Incomplete => push_str(&mut s, "process stat is incomplete"),
            StatError::InvalidNumber => push_str(&mut s, "process stat holds an invalid number"),
            StatError::UnreadableTask => push_str(&mut s, "vCPU thread stat is unreadable"),
        }
        s
    }
}

/// The fields of a stat line after the parenthesised command name.
pub open spec fn stat_fields(stat: Seq<char>) -> Seq<Seq<char>> {
    words(stat.skip(last_index_of(stat, ')') + 1))
}

/// CPU ticks (user plus system, saturating) and resident pages from a
/// `/proc/<pid>/stat` line.
pub open spec fn stat_values_spec(stat: Seq<char>) -> Result<(u64, u64), StatError> {
    let f = stat_fields(stat);
    if last_index_of(stat, ')') < 0 {
        Err(StatError::MissingTerminator)
    } else if f.len() <= 21 {
        Err(StatError::Incomplete)
    } else {
        match (parse_u64_spec(f[11]), parse_u64_spec(f[12]), parse_u64_spec(f[21])) {
            (Some(user), Some(system), Some(rss)) => Ok((user.saturating_add(system), rss)),
            _ => Err(StatError::InvalidNumber),
        }
    }
}

/// Reads CPU ticks and resident pages from a `/proc/<pid>/stat` line.
pub fn stat_values(stat: &str) -> (r: Result<(u64, u64), StatError>)
    ensures
        r == stat_values_spec(stat@),
{
    let s = chars_of(stat);
    let close = last_index(s.as_slice(), s.len(), ')');
    assert(s@.take(s@.len() as int) =~= s@);
    let close = match close {
        None => return Err(StatError::MissingTerminator),
        Some(c) => c,
    };
    proof {
        lemma_last_index_bounds(s@, ')');
    }
    let mut rest: Vec<char> = Vec::new();
    let mut k: usize = close + 1;
    while k < s.len()
        invariant
            close < s@.len(),
            close + 1 <= k <= s@.len(),
            rest@ == s@.subrange(close + 1, k as int),
        decreases s@.len() - k,
    {
        rest.push(s[k]);
        assert(rest@ =~= s@.subrange(close + 1, k + 1));
        k = k + 1;
    }
    assert(rest@ =~= s@.skip(close + 1));
    let fields = split_words(rest.as_slice());
    if fields.len() <= 21 {
        return Err(StatError::Incomplete);
    }
    let user = parse_u64(fields[11].as_slice());
    let system = parse_u64(fields[12].as_slice());
    let rss = parse_u64(fields[21].as_slice());
    match (user, system, rss) {
        (Some(u), Some(y), Some(p)) => Ok((u.saturating_add(y), p)),
        _ => Err(StatError::InvalidNumber),
    }
}

/// The value after `name` on the first line of `/proc/<pid>/io` text that starts with
/// `name` and holds a number there; 0 when no line does.
pub open spec fn io_value_in(ls: Seq<Seq<char>>, name: Seq<char>) -> u64
    decreases ls.len(),
{
    if ls.len() == 0 {
        0
    } else if has_prefix(ls[0], name) && parse_u64_spec(trim(ls[0].skip(name.len() as int)))
        is Some {
        parse_u64_spec(trim(ls[0].skip(name.len() as int)))->0
    } else {
        io_value_in(ls.drop_first(), name)
    }
}

/// Reads the counter `name` (such as `read_bytes:`) from `/proc/<pid>/io` text.
pub fn io_value(io: &str, name: &str) -> (r: u64)
    ensures
        r == io_value_in(lines(io@), name@),
{
    let text = chars_of(io);
    let key = chars_of(name);
    let ls = split_lines(text.as_slice());
    let ghost all = lines(io@);
    let mut i: usize = 0;
    assert(all.skip(0) =~= all);
    while i < ls.len()
        invariant
            all == lines(io@),
            ls@.len() == all.len(),
            forall|j: int| 0 <= j < ls@.len() ==> #[trigger] ls@[j]@ == all[j],
            key@ == name@,
            i <= ls@.len(),
            io_value_in(all, name@) == io_value_in(all.skip(i as int), name@),
        decreases ls@.len() - i,
    {
        let line = &ls[i];
        assert(all.skip(i as int)[0] == line@);
        assert(all.skip(i as int).drop_first() =~= all.skip(i + 1));
        if prefix_of(line.as_slice(), key.as_slice()) {
            let mut tail: Vec<char> = Vec::new();
            let mut k: usize = key.len();
            while k < line.len()
                invariant
                    key@.len() <= k <= line@.len(),
                    tail@ == line@.subrange(key@.len() as int, k as int),
                decreases line@.len() - k,
            {
                tail.push(line[k]);
                assert(tail@ =~= line@.subrange(key@.len() as int, k + 1));
                k = k + 1;
            }
            assert(tail@ =~= line@.skip(key@.len() as int));
            let trimmed = trim_chars(tail.as_slice());
            match parse_u64(trimmed.as_slice()) {
                Some(v) => {
                    return v;
                },
                None => {},
            }
        }
        i = i + 1;
    }
    assert(all.skip(i as int) =~= Seq::<Seq<char>>::empty());
    0
}

/// Whether `s` starts with `p`.
fn prefix_of(s: &[char], p: &[char]) -> (r: bool)
    ensures
        r == has_prefix(s@, p@),
{
    if p.len() > s.len() {
        return false;
    }
    let mut i: usize = 0;
    while i < p.len()
        invariant
            p@.len() <= s@.len(),
            i <= p@.len(),
            forall|j: int| 0 <= j < i ==> s@[j] == p@[j],
        decreases p@.len() - i,
    {
        if s[i] != p[i] {
            assert(s@.take(p@.len() as int)[i as int] != p@[i as int]);
            return false;
        }
        i = i + 1;
    }
    assert(s@.take(p@.len() as int) =~= p@);
    true
}

/// CPU time, resident memory and I/O counters of a process at one moment.
#[derive(Clone, Debug)]
pub struct ProcessSnapshot {
    ticks: u64,
    vcpu_ticks: u64,
    rss_bytes: u64,
    read_bytes: u64,
    write_bytes: u64,
}

/// A thread of the process: its name and, where it could be read, its stat line.
pub open spec fn task_view(t: (String, Option<String>)) -> (Seq<char>, Option<Seq<char>>) {
    (
        t.0@,
        match t.1 {
            Some(s) => Some(s@),
            None => None,
        },
    )
}

/// The tasks as plain values.
pub open spec fn task_views(tasks: Seq<(String, Option<String>)>) -> Seq<(Seq<char>, Option<Seq<char>>)> {
    tasks.map_values(|t| task_view(t))
}

/// Names of the threads that run guest vCPUs start with this.
pub open spec fn vcpu_prefix() -> Seq<char> {
    seq!['C', 'P', 'U', ' ']
}

/// Saturating sum of the CPU ticks of the vCPU threads among the first `k` tasks.
pub open spec fn vcpu_ticks_spec(tasks: Seq<(Seq<char>, Option<Seq<char>>)>, k: int) -> Result<
    u64,
    StatError,
>
    decreases k,
{
    if k <= 0 {
        Ok(0)
    } else {
        match vcpu_ticks_spec(tasks, k - 1) {
            Err(e) => Err(e),
            Ok(acc) => {
                let t = tasks[k - 1];
                if has_prefix(t.0, vcpu_prefix()) {
                    match t.1 {
                        None => Err(StatError::UnreadableTask),
                        Some(st) => match stat_values_spec(st) {
                            Err(e) => Err(e),
                            Ok(v) => Ok(acc.saturating_add(v.0)),
                        },
                    }
                } else {
                    Ok(acc)
                }
            },
        }
    }
}

/// The values a snapshot holds.
pub struct SnapshotView {
    pub ticks: u64,
    pub vcpu_ticks: u64,
    pub rss_bytes: u64,
    pub read_bytes: u64,
    pub write_bytes: u64,
}

/// What a snapshot taken from these procfs readings holds.
pub open spec fn snapshot_spec(
    stat: Seq<char>,
    tasks: Seq<(Seq<char>, Option<Seq<char>>)>,
    io: Seq<char>,
    page_size: u64,
) -> Result<SnapshotView, StatError> {
    match stat_values_spec(stat) {
        Err(e) => Err(e),
        Ok(v) => match vcpu_ticks_spec(tasks, tasks.len() as int) {
            Err(e) => Err(e),
            Ok(vcpu) => Ok(
                SnapshotView {
                    ticks: v.0,
                    vcpu_ticks: vcpu,
                    rss_bytes: if v.1 * page_size > u64::MAX {
                        u64::MAX
                    } else {
                        (v.1 * page_size) as u64
                    },
                    read_bytes: io_value_in(lines(io), seq!['r', 'e', 'a', 'd', '_', 'b', 'y', 't', 'e', 's', ':']),
                    write_bytes: io_value_in(
                        lines(io),
                        seq!['w', 'r', 'i', 't', 'e', '_', 'b', 'y', 't', 'e', 's', ':'],
                    ),
                },
            ),
        },
    }
}

impl ProcessSnapshot {
    pub closed spec fn view(&self) -> SnapshotView {
        SnapshotView {
            ticks: self.ticks,
            vcpu_ticks: self.vcpu_ticks,
            rss_bytes: self.rss_bytes,
            read_bytes: self.read_bytes,
            write_bytes: self.write_bytes,
        }
    }

    /// Builds a snapshot from the text of `/proc/<pid>/stat`, each thread's name and
    /// stat line, the text of `/proc/<pid>/io`, and the page size.
    pub fn from_procfs(stat: &str, tasks: &[(String, Option<String>)], io: &str, page_size: u64) -> (r:
        Result<Self, StatError>)
        ensures
            match snapshot_spec(stat@, task_views(tasks@), io@, page_size) {
                Ok(v) => r matches Ok(s) && s.view() == v,
                Err(e) => r == Err::<Self, StatError>(e),
            },
    {
        let ghost tv = task_views(tasks@);
        let (ticks, rss_pages) = match stat_values(stat) {
            Ok(v) => v,
            Err(e) => return Err(e),
        };
        let cpu = chars_of("CPU ");
        proof {
            reveal_strlit("CPU ");
            assert(cpu@ =~= vcpu_prefix());
        }
        let mut vcpu_ticks: u64 = 0;
        let mut i: usize = 0;
        while i < tasks.len()
            invariant
                i <= tasks@.len(),
                tv == task_views(tasks@),
                stat_values_spec(stat@) == Ok::<(u64, u64), StatError>((ticks, rss_pages)),
                cpu@ == vcpu_prefix(),
                vcpu_ticks_spec(tv, i as int) == Ok::<u64, StatError>(vcpu_ticks),
            decreases tasks@.len() - i,
        {
            let (name, task_stat) = (&tasks[i].0, &tasks[i].1);
            assert(tv[i as int] == task_view(tasks@[i as int]));
            let name_chars = chars_of(name.as_str());
            if prefix_of(name_chars.as_slice(), cpu.as_slice()) {
                match task_stat {
                    None => {
                        proof {
                            lemma_task_error_stays(tv, i as int + 1, StatError::UnreadableTask);
                        }
                        return Err(StatError::UnreadableTask);
                    },
                    Some(st) => match stat_values(st.as_str()) {
                        Err(e) => {
                            proof {
                                lemma_task_error_stays(tv, i as int + 1, e);
                            }
                            return Err(e);
                        },
                        Ok(v) => {
                            vcpu_ticks = vcpu_ticks.saturating_add(v.0);
                        },
                    },
                }
            }
            i = i + 1;
        }
        let rss_bytes: u64 = match rss_pages.checked_mul(page_size) {
            Some(b) => b,
            None => u64::MAX,
        };
        proof {
            reveal_strlit("read_bytes:");
            reveal_strlit("write_bytes:");
            assert("read_bytes:"@ =~= seq!['r', 'e', 'a', 'd', '_', 'b', 'y', 't', 'e', 's', ':']);
            assert("write_bytes:"@ =~= seq!['w', 'r', 'i', 't', 'e', '_', 'b', 'y', 't', 'e', 's', ':']);
        }
        let read_bytes = io_value(io, "read_bytes:");
        let write_bytes = io_value(io, "write_bytes:");
        Ok(ProcessSnapshot { ticks, vcpu_ticks, rss_bytes, read_bytes, write_bytes })
    }

    pub fn ticks(&self) -> (r: u64)
        ensures
            r == self.view().ticks,
    {
        self.ticks
    }

    pub fn vcpu_ticks(&self) -> (r: u64)
        ensures
            r == self.view().vcpu_ticks,
    {
        self.vcpu_ticks
    }

    pub fn rss_bytes(&self) -> (r: u64)
        ensures
            r == self.view().rss_bytes,
    {
        self.rss_bytes
    }

    pub fn read_bytes(&self) -> (r: u64)
        ensures
            r == self.view().read_bytes,
    {
        self.read_bytes
    }

    pub fn write_bytes(&self) -> (r: u64)
        ensures
            r == self.view().write_bytes,
    {
        self.write_bytes
    }
}

/// Once a task fails, the whole fold fails with that error.
proof fn lemma_task_error_stays(tasks: Seq<(Seq<char>, Option<Seq<char>>)>, k: int, e: StatError)
    requires
        0 < k <= tasks.len(),
        vcpu_ticks_spec(tasks, k) == Err::<u64, StatError>(e),
    ensures
        vcpu_ticks_spec(tasks, tasks.len() as int) == Err::<u64, StatError>(e),
    decreases tasks.len() - k,
{
    if k < tasks.len() {
        lemma_task_error_stays(tasks, k + 1, e);
    }
}

} // verus!
