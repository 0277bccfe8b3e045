//! Repository fingerprints: the tagged record of a working tree (its Git head and
//! index where it is a Git repository, then every listed path with its state, in path
//! order) and its SHA-256 digest. Listing the tree and reading files are the caller's.
use vstd::prelude::*;
use crate::digest::{hex_encode, hex_lower, sha256, sha256_digest};
use crate::text::push_str;
use crate::workspace_gate::{nul_fields, split_nul};

verus! {

broadcast use vstd::string::group_string_axioms;

/// The rank of a byte in path order: the separator `/` before every other byte.
pub open spec fn path_rank(b: u8) -> int {
    if b == 47 {
        0
    } else {
        b as int + 1
    }
}

/// Path order: lexicographic by byte with `/` first, which orders the relative paths
/// that Git lists as their components compare.
pub open spec fn path_lt(a: Seq<u8>, b: Seq<u8>) -> bool
    decreases a.len(),
{
    if a.len() == 0 {
        b.len() > 0
    } else if b.len() == 0 {
        false
    } else if a[0] != b[0] {
        path_rank(a[0]) < path_rank(b[0])
    } else {
        path_lt(a.drop_first(), b.drop_first())
    }
}

pub proof fn lemma_path_lt_transitive(a: Seq<u8>, b: Seq<u8>, c: Seq<u8>)
    requires
        path_lt(a, b),
        path_lt(b, c),
    ensures
        path_lt(a, c),
    decreases a.len(),
{
    if a.len() > 0 && b.len() > 0 && c.len() > 0 && a[0] == b[0] && b[0] == c[0] {
        lemma_path_lt_transitive(a.drop_first(), b.drop_first(), c.drop_first());
    }
}

pub proof fn lemma_path_lt_total(a: Seq<u8>, b: Seq<u8>)
    ensures
        a == b || path_lt(a, b) || path_lt(b, a),
    decreases a.len(),
{
    if a.len() > 0 && b.len() > 0 && a[0] == b[0] {
        lemma_path_lt_total(a.drop_first(), b.drop_first());
        if a.drop_first() == b.drop_first() {
            assert(a =~= seq![a[0]] + a.drop_first());
            assert(b =~= seq![b[0]] + b.drop_first());
        }
    } else if a.len() == 0 && b.len() == 0 {
        assert(a =~= b);
    }
}

/// Byte sequences in strictly increasing path order, hence free of repeats.
pub open spec fn paths_sorted(s: Seq<Seq<u8>>) -> bool {
    forall|i: int, j: int| 0 <= i < j < s.len() ==> path_lt(#[trigger] s[i], #[trigger] s[j])
}

/// The byte sequences that byte vectors hold.
pub open spec fn byte_views(v: Seq<Vec<u8>>) -> Seq<Seq<u8>> {
    v.map_values(|x: Vec<u8>| x@)
}

fn rank_exec(b: u8) -> (r: u16)
    ensures
        r as int == path_rank(b),
{
    if b == 47 {
        0
    } else {
        b as u16 + 1
    }
}

/// Whether path `a` precedes path `b`.
pub fn path_less(a: &[u8], b: &[u8]) -> (r: bool)
    ensures
        r == path_lt(a@, b@),
{
    let n = a.len();
    let m = b.len();
    let mut i: usize = 0;
    assert(a@.skip(0) =~= a@);
    assert(b@.skip(0) =~= b@);
    while i < n && i < m && a[i] == b[i]
        invariant
            i <= n,
            i <= m,
            n == a@.len(),
            m == b@.len(),
            path_lt(a@, b@) == path_lt(a@.skip(i as int), b@.skip(i as int)),
        decreases n - i,
    {
        assert(a@.skip(i as int).drop_first() =~= a@.skip(i + 1));
        assert(b@.skip(i as int).drop_first() =~= b@.skip(i + 1));
        i = i + 1;
    }
    let ghost sa = a@.skip(i as int);
    let ghost sb = b@.skip(i as int);
    assert(sa.len() == n - i);
    assert(sb.len() == m - i);
    if i == n {
        i < m
    } else if i == m {
        false
    } else {
        assert(sa[0] == a@[i as int]);
        assert(sb[0] == b@[i as int]);
        rank_exec(a[i]) < rank_exec(b[i])
    }
}

fn bytes_equal(a: &[u8], b: &[u8]) -> (r: bool)
    ensures
        r == (a@ == b@),
{
    if a.len() != b.len() {
        return false;
    }
    let mut i: usize = 0;
    while i < a.len()
        invariant
            a@.len() == b@.len(),
            i <= a@.len(),
            forall|k: int| 0 <= k < i ==> a@[k] == b@[k],
        decreases a@.len() - i,
    {
        if a[i] != b[i] {
            return false;
        }
        i = i + 1;
    }
    assert(a@ =~= b@);
    true
}

/// Inserts `s` into paths held in strictly increasing path order, unless it is there.
fn insert_path(v: &mut Vec<Vec<u8>>, s: Vec<u8>)
    requires
        paths_sorted(byte_views(old(v)@)),
    ensures
        paths_sorted(byte_views(final(v)@)),
        byte_views(final(v)@).to_set() == byte_views(old(v)@).to_set().insert(s@),
{
    let n = v.len();
    let mut i: usize = 0;
    while i < n && path_less(v[i].as_slice(), s.as_slice())
        invariant
            i <= n,
            n == v@.len(),
            paths_sorted(byte_views(v@)),
            forall|k: int| 0 <= k < i ==> path_lt(#[trigger] byte_views(v@)[k], s@),
        decreases n - i,
    {
        i = i + 1;
    }
    if i < n && bytes_equal(v[i].as_slice(), s.as_slice()) {
        assert(byte_views(v@)[i as int] == s@);
        assert(byte_views(v@).to_set() =~= byte_views(v@).to_set().insert(s@));
        return;
    }
    let ghost old_v = v@;
    proof {
        if i < n {
            lemma_path_lt_total(byte_views(v@)[i as int], s@);
        }
    }
    let ghost sv = s@;
    v.insert(i, s);
    proof {
        let ov = byte_views(old_v);
        let nv = byte_views(v@);
        assert(nv =~= ov.take(i as int).push(sv) + ov.skip(i as int));
        assert forall|a: int, b: int| 0 <= a < b < nv.len() implies path_lt(#[trigger] nv[a], #[trigger] nv[b]) by {
            if b < i {
            } else if b == i {
            } else if a < i {
                assert(nv[b] == ov[b - 1]);
                if b - 1 > i {
                    assert(path_lt(ov[i as int], ov[b - 1]));
                    lemma_path_lt_transitive(sv, ov[i as int], ov[b - 1]);
                }
                lemma_path_lt_transitive(nv[a], sv, nv[b]);
            } else if a == i {
                assert(nv[b] == ov[b - 1]);
                if b - 1 > i {
                    assert(path_lt(ov[i as int], ov[b - 1]));
                    lemma_path_lt_transitive(sv, ov[i as int], ov[b - 1]);
                }
            } else {
                assert(nv[a] == ov[a - 1]);
                assert(nv[b] == ov[b - 1]);
            }
        }
        assert forall|x: Seq<u8>| nv.contains(x) <==> ov.contains(x) || x == sv by {
            if nv.contains(x) {
                let k = choose|k: int| 0 <= k < nv.len() && nv[k] == x;
                if k < i {
                    assert(ov[k] == x);
                } else if k > i {
                    assert(ov[k - 1] == x);
                }
            }
            if ov.contains(x) {
                let k = choose|k: int| 0 <= k < ov.len() && ov[k] == x;
                if k < i {
                    assert(nv[k] == x);
                } else {
                    assert(nv[k + 1] == x);
                }
            }
            if x == sv {
                assert(nv[i as int] == x);
            }
        }
        assert(nv.to_set() =~= ov.to_set().insert(sv));
    }
}

/// The paths of a NUL-separated listing (`git ls-files -z`): each non-empty field once,
/// in path order.
pub fn listed_paths(z: &[u8]) -> (r: Vec<Vec<u8>>)
    ensures
        paths_sorted(byte_views(r@)),
        byte_views(r@).to_set() == nul_fields(z@).to_set(),
{
    let fields = split_nul(z);
    let ghost fs = nul_fields(z@);
    let mut out: Vec<Vec<u8>> = Vec::new();
    let mut i: usize = 0;
    assert(byte_views(out@).to_set() =~= fs.take(0).to_set());
    while i < fields.len()
        invariant
            fields@.len() == fs.len(),
            forall|k: int| 0 <= k < fs.len() ==> #[trigger] fields@[k]@ == fs[k],
            i <= fs.len(),
            paths_sorted(byte_views(out@)),
            byte_views(out@).to_set() == fs.take(i as int).to_set(),
        decreases fs.len() - i,
    {
        let f = fields[i].clone();
        assert(f@ == fs[i as int]);
        insert_path(&mut out, f);
        proof {
            assert(fs.take(i + 1) =~= fs.take(i as int).push(fs[i as int]));
            crate::strset::lemma_to_set_push(fs.take(i as int), fs[i as int]);
        }
        i = i + 1;
    }
    assert(fs.take(fs.len() as int) =~= fs);
    out
}

/// A length as eight big-endian bytes.
pub open spec fn be64(n: u64) -> Seq<u8> {
    seq![
        (n >> 56u64) as u8,
        (n >> 48u64) as u8,
        (n >> 40u64) as u8,
        (n >> 32u64) as u8,
        (n >> 24u64) as u8,
        (n >> 16u64) as u8,
        (n >> 8u64) as u8,
        n as u8,
    ]
}

/// One tagged item of a fingerprint record: the name's length and bytes, then the
/// value's length and bytes.
pub open spec fn tagged(name: Seq<u8>, value: Seq<u8>) -> Seq<u8> {
    be64(name.len() as u64) + name + be64(value.len() as u64) + value
}

/// A tagged item whose name and value are texts, in their UTF-8 bytes.
pub open spec fn tagged_text(name: Seq<char>, value: Seq<char>) -> Seq<u8> {
    tagged(vstd::utf8::encode_utf8(name), vstd::utf8::encode_utf8(value))
}

/// What is fingerprinted: a Git working tree or a plain directory.
#[derive(Clone, Copy, Debug, PartialEq, Eq, Structural)]
pub enum FingerprintKind {
    Git,
    Directory,
}

/// The state of a listed path in the tree.
#[derive(Clone, Debug)]
pub enum EntryState {
    /// Listed by Git but absent from the tree.
    Deleted,
    Symlink { target: Vec<u8> },
    File { executable: bool, content: Vec<u8> },
    /// Neither a file nor a symbolic link.
    Other,
}

/// The tagged items that record one path and its state.
pub open spec fn entry_record(path: Seq<u8>, state: EntryState) -> Seq<u8> {
    let rest = match state {
        EntryState::Deleted => tagged_text("type"@, "deleted"@),
        EntryState::Symlink { target } => tagged_text("type"@, "symlink"@) + tagged(
            vstd::utf8::encode_utf8("target"@),
            target@,
        ),
        EntryState::File { executable, content } => tagged_text("type"@, "file"@) + tagged_text(
            "executable"@,
            if executable {
                "1"@
            } else {
                "0"@
            },
        ) + tagged(vstd::utf8::encode_utf8("content"@), content@),
        EntryState::Other => tagged_text("type"@, "other"@),
    };
    tagged(vstd::utf8::encode_utf8("path"@), path) + rest
}

/// The records of the entries, in the order given.
pub open spec fn entries_record(entries: Seq<(Vec<u8>, EntryState)>) -> Seq<u8>
    decreases entries.len(),
{
    if entries.len() == 0 {
        seq![]
    } else {
        entries_record(entries.drop_last()) + entry_record(entries.last().0@, entries.last().1)
    }
}

/// The fingerprint record of a tree: its format, for a Git tree its head (`head`, or
/// `UNBORN` and a line feed before the first commit) and its index listing, then the
/// entries.
pub open spec fn fingerprint_stream_spec(
    kind: FingerprintKind,
    head: Seq<u8>,
    index: Seq<u8>,
    entries: Seq<(Vec<u8>, EntryState)>,
) -> Seq<u8> {
    let header = match kind {
        FingerprintKind::Git => tagged_text("format"@, "avm-working-tree-v1"@) + tagged(
            vstd::utf8::encode_utf8("head"@),
            head,
        ) + tagged(vstd::utf8::encode_utf8("index"@), index),
        FingerprintKind::Directory => tagged_text("format"@, "avm-directory-v1"@),
    };
    header + entries_record(entries)
}

fn append_bytes(out: &mut Vec<u8>, b: &[u8])
    ensures
        final(out)@ == old(out)@ + b@,
{
    let ghost start = out@;
    let mut i: usize = 0;
    while i < b.len()
        invariant
            i <= b@.len(),
            out@ == start + b@.take(i as int),
        decreases b@.len() - i,
    {
        out.push(b[i]);
        assert(b@.take(i + 1) =~= b@.take(i as int).push(b@[i as int]));
        i = i + 1;
    }
    assert(b@.take(b@.len() as int) =~= b@);
}

fn append_be64(out: &mut Vec<u8>, n: u64)
    ensures
        final(out)@ == old(out)@ + be64(n),
{
    let ghost start = out@;
    out.push((n >> 56u64) as u8);
    out.push((n >> 48u64) as u8);
    out.push((n >> 40u64) as u8);
    out.push((n >> 32u64) as u8);
    out.push((n >> 24u64) as u8);
    out.push((n >> 16u64) as u8);
    out.push((n >> 8u64) as u8);
    out.push(n as u8);
    assert(out@ =~= start + be64(n));
}

fn append_tagged(out: &mut Vec<u8>, name: &[u8], value: &[u8])
    ensures
        final(out)@ == old(out)@ + tagged(name@, value@),
{
    let ghost start = out@;
    append_be64(out, name.len() as u64);
    append_bytes(out, name);
    append_be64(out, value.len() as u64);
    append_bytes(out, value);
    assert(out@ =~= start + tagged(name@, value@));
}

fn append_tagged_text(out: &mut Vec<u8>, name: &str, value: &str)
    ensures
        final(out)@ == old(out)@ + tagged_text(name@, value@),
{
    append_tagged(out, name.as_bytes(), value.as_bytes());
}

fn append_entry(out: &mut Vec<u8>, path: &[u8], state: &EntryState)
    ensures
        final(out)@ == old(out)@ + entry_record(path@, *state),
{
    let ghost start = out@;
    append_tagged(out, "path".as_bytes(), path);
    let ghost mid = out@;
    match state {
        EntryState::Deleted => append_tagged_text(out, "type", "deleted"),
        EntryState::Symlink { target } => {
            append_tagged_text(out, "type", "symlink");
            append_tagged(out, "target".as_bytes(), target.as_slice());
        },
        EntryState::File { executable, content } => {
            append_tagged_text(out, "type", "file");
            append_tagged_text(out, "executable", if *executable { "1" } else { "0" });
            append_tagged(out, "content".as_bytes(), content.as_slice());
        },
        EntryState::Other => append_tagged_text(out, "type", "other"),
    }
    assert(out@ =~= start + entry_record(path@, *state));
}

/// The fingerprint record of a tree of kind `kind` with the given Git head and index
/// listing (read only for a Git tree) and entries, each a path with its state. The
/// entries are recorded in the order given: [`listed_paths`] gives Git's paths in the
/// path order that the record expects.
pub fn fingerprint_stream(
    kind: FingerprintKind,
    head: &[u8],
    index: &[u8],
    entries: &[(Vec<u8>, EntryState)],
) -> (r: Vec<u8>)
    ensures
        r@ == fingerprint_stream_spec(kind, head@, index@, entries@),
{
    let mut out: Vec<u8> = Vec::new();
    match kind {
        FingerprintKind::Git => {
            append_tagged_text(&mut out, "format", "avm-working-tree-v1");
            append_tagged(&mut out, "head".as_bytes(), head);
            append_tagged(&mut out, "index".as_bytes(), index);
        },
        FingerprintKind::Directory => {
            append_tagged_text(&mut out, "format", "avm-directory-v1");
        },
    }
    let ghost header = out@;
    let mut i: usize = 0;
    assert(entries@.take(0) =~= Seq::<(Vec<u8>, EntryState)>::empty());
    while i < entries.len()
        invariant
            i <= entries@.len(),
            out@ == header + entries_record(entries@.take(i as int)),
        decreases entries@.len() - i,
    {
        let (path, state) = &entries[i];
        append_entry(&mut out, path.as_slice(), state);
        assert(entries@.take(i + 1).drop_last() =~= entries@.take(i as int));
        assert(out@ =~= header + entries_record(entries@.take(i + 1)));
        i = i + 1;
    }
    assert(entries@.take(entries@.len() as int) =~= entries@);
    out
}

/// The repository fingerprint of a record: `sha256:` and the lower-case hexadecimal
/// SHA-256 digest of the record.
pub fn fingerprint_of(stream: &[u8]) -> (r: String)
    ensures
        r@ == "sha256:"@ + hex_lower(sha256_digest(stream@)),
{
    let digest = sha256(stream);
    let hex = hex_encode(digest.as_slice());
    let mut out = String::from_str("sha256:");
    push_str(&mut out, hex.as_str());
    out
}

/// What a record distinguishes of an entry's state: its kind, its executable bit and
/// the bytes it holds (a link's target or a file's content).
pub open spec fn state_view(s: EntryState) -> (int, bool, Seq<u8>) {
    match s {
        EntryState::Deleted => (0, false, seq![]),
        EntryState::Symlink { target } => (1, false, target@),
        EntryState::File { executable, content } => (2, executable, content@),
        EntryState::Other => (3, false, seq![]),
    }
}

proof fn lemma_be64_injective(a: u64, b: u64)
    requires
        be64(a) == be64(b),
    ensures
        a == b,
{
    assert(be64(a)[0] == be64(b)[0] && be64(a)[1] == be64(b)[1] && be64(a)[2] == be64(b)[2]
        && be64(a)[3] == be64(b)[3] && be64(a)[4] == be64(b)[4] && be64(a)[5] == be64(b)[5]
        && be64(a)[6] == be64(b)[6] && be64(a)[7] == be64(b)[7]);
    assert((a >> 56u64) as u8 == (b >> 56u64) as u8 && (a >> 48u64) as u8 == (b >> 48u64) as u8
        && (a >> 40u64) as u8 == (b >> 40u64) as u8 && (a >> 32u64) as u8 == (b >> 32u64) as u8
        && (a >> 24u64) as u8 == (b >> 24u64) as u8 && (a >> 16u64) as u8 == (b >> 16u64) as u8
        && (a >> 8u64) as u8 == (b >> 8u64) as u8 && a as u8 == b as u8 ==> a == b) by (bit_vector);
}

/// Two tagged items with the same name and different values differ, whatever follows.
proof fn lemma_tagged_distinct(n: Seq<u8>, v1: Seq<u8>, v2: Seq<u8>, x: Seq<u8>, y: Seq<u8>)
    requires
        v1 != v2,
        n.len() < 0x1_0000_0000_0000_0000,
        v1.len() < 0x1_0000_0000_0000_0000,
        v2.len() < 0x1_0000_0000_0000_0000,
    ensures
        tagged(n, v1) + x != tagged(n, v2) + y,
{
    let s1 = tagged(n, v1) + x;
    let s2 = tagged(n, v2) + y;
    let l = 8 + n.len();
    if s1 == s2 {
        if v1.len() != v2.len() {
            assert forall|k: int| 0 <= k < 8 implies #[trigger] be64(v1.len() as u64)[k] == be64(v2.len() as u64)[k] by {
                assert(s1[l + k] == be64(v1.len() as u64)[k]);
                assert(s2[l + k] == be64(v2.len() as u64)[k]);
            }
            assert(be64(v1.len() as u64) =~= be64(v2.len() as u64));
            lemma_be64_injective(v1.len() as u64, v2.len() as u64);
        } else {
            assert forall|j: int| 0 <= j < v1.len() implies v1[j] == v2[j] by {
                assert(s1[l + 8 + j] == v1[j]);
                assert(s2[l + 8 + j] == v2[j]);
            }
            assert(v1 =~= v2);
        }
    }
}

proof fn lemma_cancel_prefix(p: Seq<u8>, x: Seq<u8>, y: Seq<u8>)
    requires
        p + x == p + y,
    ensures
        x == y,
{
    assert(x =~= (p + x).skip(p.len() as int));
    assert(y =~= (p + y).skip(p.len() as int));
}

proof fn lemma_text_bytes_distinct(a: Seq<char>, b: Seq<char>)
    requires
        a != b,
    ensures
        vstd::utf8::encode_utf8(a) != vstd::utf8::encode_utf8(b),
{
    vstd::utf8::encode_utf8_decode_utf8(a);
    vstd::utf8::encode_utf8_decode_utf8(b);
}

proof fn lemma_short_text(s: Seq<char>)
    requires
        s.len() <= 16,
    ensures
        vstd::utf8::encode_utf8(s).len() < 0x1_0000_0000_0000_0000,
{
    lemma_encoding_bound(s);
}

proof fn lemma_encoding_bound(s: Seq<char>)
    ensures
        vstd::utf8::encode_utf8(s).len() <= 4 * s.len(),
    decreases s.len(),
{
    if s.len() > 0 {
        vstd::utf8::encode_utf8_first_scalar(s);
        lemma_encoding_bound(s.drop_first());
    }
}

/// The record of a path tells the states of the path apart: a deletion, a symbolic link
/// (by its target), a file (by its executable bit and its content) and anything else
/// each give a different record.
pub proof fn law_record_tells_entry_states_apart(path: Seq<u8>, a: EntryState, b: EntryState)
    requires
        state_view(a) != state_view(b),
        state_view(a).2.len() < 0x1_0000_0000_0000_0000,
        state_view(b).2.len() < 0x1_0000_0000_0000_0000,
    ensures
        entry_record(path, a) != entry_record(path, b),
{
    let p = tagged(vstd::utf8::encode_utf8("path"@), path);
    let ra = entry_record(path, a).skip(p.len() as int);
    let rb = entry_record(path, b).skip(p.len() as int);
    if entry_record(path, a) == entry_record(path, b) {
        reveal_strlit("type");
        reveal_strlit("deleted");
        reveal_strlit("symlink");
        reveal_strlit("file");
        reveal_strlit("other");
        reveal_strlit("executable");
        reveal_strlit("1");
        reveal_strlit("0");
        reveal_strlit("target");
        reveal_strlit("content");
        let t = vstd::utf8::encode_utf8("type"@);
        lemma_short_text("type"@);
        let word = |s: EntryState| match s {
            EntryState::Deleted => "deleted"@,
            EntryState::Symlink { .. } => "symlink"@,
            EntryState::File { .. } => "file"@,
            EntryState::Other => "other"@,
        };
        let after = |s: EntryState| match s {
            EntryState::Deleted => Seq::<u8>::empty(),
            EntryState::Symlink { target } => tagged(vstd::utf8::encode_utf8("target"@), target@),
            EntryState::File { executable, content } => tagged_text("executable"@, if executable { "1"@ } else { "0"@ })
                + tagged(vstd::utf8::encode_utf8("content"@), content@),
            EntryState::Other => Seq::<u8>::empty(),
        };
        assert(entry_record(path, a) =~= p + (tagged(t, vstd::utf8::encode_utf8(word(a))) + after(a)));
        assert(entry_record(path, b) =~= p + (tagged(t, vstd::utf8::encode_utf8(word(b))) + after(b)));
        lemma_cancel_prefix(p, tagged(t, vstd::utf8::encode_utf8(word(a))) + after(a), tagged(t, vstd::utf8::encode_utf8(word(b))) + after(b));
        lemma_short_text(word(a));
        lemma_short_text(word(b));
        if word(a) != word(b) {
            lemma_text_bytes_distinct(word(a), word(b));
            lemma_tagged_distinct(t, vstd::utf8::encode_utf8(word(a)), vstd::utf8::encode_utf8(word(b)), after(a), after(b));
        } else {
            let head = tagged(t, vstd::utf8::encode_utf8(word(a)));
            lemma_cancel_prefix(head, after(a), after(b));
            match (a, b) {
                (EntryState::Symlink { target: ta }, EntryState::Symlink { target: tb }) => {
                    lemma_short_text("target"@);
                    lemma_tagged_distinct(vstd::utf8::encode_utf8("target"@), ta@, tb@, seq![], seq![]);
                    assert(after(a) =~= tagged(vstd::utf8::encode_utf8("target"@), ta@) + seq![]);
                    assert(after(b) =~= tagged(vstd::utf8::encode_utf8("target"@), tb@) + seq![]);
                },
                (EntryState::File { executable: ea, content: ca }, EntryState::File { executable: eb, content: cb }) => {
                    let xa = tagged_text("executable"@, if ea { "1"@ } else { "0"@ });
                    let xb = tagged_text("executable"@, if eb { "1"@ } else { "0"@ });
                    lemma_short_text("executable"@);
                    lemma_short_text("1"@);
                    lemma_short_text("0"@);
                    let c = vstd::utf8::encode_utf8("content"@);
                    lemma_short_text("content"@);
                    if ea != eb {
                        lemma_text_bytes_distinct("1"@, "0"@);
                        lemma_tagged_distinct(
                            vstd::utf8::encode_utf8("executable"@),
                            vstd::utf8::encode_utf8(if ea { "1"@ } else { "0"@ }),
                            vstd::utf8::encode_utf8(if eb { "1"@ } else { "0"@ }),
                            tagged(c, ca@),
                            tagged(c, cb@),
                        );
                    } else {
                        lemma_cancel_prefix(xa, tagged(c, ca@), tagged(c, cb@));
                        lemma_tagged_distinct(c, ca@, cb@, seq![], seq![]);
                        assert(tagged(c, ca@) =~= tagged(c, ca@) + seq![]);
                        assert(tagged(c, cb@) =~= tagged(c, cb@) + seq![]);
                    }
                },
                _ => {},
            }
        }
    }
}

} // verus!
