//! The workspace gate: reading the changed files that `git status --porcelain=v1 -z`
//! reports, and deciding whether a staged mutation may be promoted into the candidate.
//! Running Git, copying trees and computing fingerprints are the caller's.
use vstd::prelude::*;
use crate::policy::{file_views, mutation_allowed, ensure_mutation_spec, ChangedFile, FileView, PolicyError, PolicyFault, PolicyState};
use crate::strset::{lemma_lt_asymmetric, lemma_lt_irreflexive, lemma_lt_total, lemma_lt_transitive, str_lt, string_lt};
use crate::text::{push_str, str_equal};
use vstd::utf8::{decode_utf8, valid_utf8};

verus! {

broadcast use vstd::string::group_string_axioms;

/// Why a status listing cannot be read or a staged mutation cannot be promoted.
#[derive(Debug)]
pub enum GateError {
    /// The policy does not allow a mutation now.
    Policy(PolicyError),
    DeclarationChanged,
    CandidateChanged,
    IndexChanged,
    NoMutation,
    InvalidStatusRecord,
    PathNotUtf8,
    MissingRenameSource,
    /// The candidate after promotion does not have the staging fingerprint.
    PromotedMismatch { promoted: String, staged: String },
    CandidateChangedBeforeStaging,
    NotStandardGit,
    /// The staging copy does not have the candidate's fingerprint.
    StagingMismatch { staged: String, actual: String },
}

impl GateError {
    /// The description of the error.
    pub open spec fn text(&self) -> Seq<char> {
        match self {
            GateError::Policy(e) => e@.text(),
            GateError::DeclarationChanged => "active declaration changed after staging"@,
            GateError::CandidateChanged => "candidate changed outside the supervisor while Codex used staging"@,
            GateError::IndexChanged => "staging Git index tree changed; promotion refuses staged content mutations"@,
            GateError::NoMutation => "staging workspace contains no mutation to promote"@,
            GateError::InvalidStatusRecord => "invalid Git status record"@,
            GateError::PathNotUtf8 => "Git status path is not UTF-8"@,
            GateError::MissingRenameSource => "Git rename status has no source path"@,
            GateError::PromotedMismatch { promoted, staged } => "promoted fingerprint "@ + promoted@ + " differs from staging "@
                + staged@ + "; candidate was rolled back"@,
            GateError::CandidateChangedBeforeStaging => "candidate changed outside the supervisor before staging"@,
            GateError::NotStandardGit => "workspace gate currently requires a standard Git directory, not a linked worktree"@,
            GateError::StagingMismatch { staged, actual } => "staging fingerprint "@ + staged@ + " differs from candidate "@ + actual@,
        }
    }

    /// Renders the description of the error.
    pub fn message(&self) -> (r: String)
        ensures
            r@ == self.text(),
    {
        match self {
            GateError::Policy(e) => e.message(),
            GateError::DeclarationChanged => String::from_str("active declaration changed after staging"),
            GateError::CandidateChanged => String::from_str("candidate changed outside the supervisor while Codex used staging"),
            GateError::IndexChanged => String::from_str("staging Git index tree changed; promotion refuses staged content mutations"),
            GateError::NoMutation => String::from_str("staging workspace contains no mutation to promote"),
            GateError::InvalidStatusRecord => String::from_str("invalid Git status record"),
            GateError::PathNotUtf8 => String::from_str("Git status path is not UTF-8"),
            GateError::MissingRenameSource => String::from_str("Git rename status has no source path"),
            GateError::PromotedMismatch { promoted, staged } => {
                let mut m = String::from_str("promoted fingerprint ");
                push_str(&mut m, promoted.as_str());
                push_str(&mut m, " differs from staging ");
                push_str(&mut m, staged.as_str());
                push_str(&mut m, "; candidate was rolled back");
                m
            },
            GateError::CandidateChangedBeforeStaging => String::from_str("candidate changed outside the supervisor before staging"),
            GateError::NotStandardGit => String::from_str("workspace gate currently requires a standard Git directory, not a linked worktree"),
            GateError::StagingMismatch { staged, actual } => {
                let mut m = String::from_str("staging fingerprint ");
                push_str(&mut m, staged.as_str());
                push_str(&mut m, " differs from candidate ");
                push_str(&mut m, actual.as_str());
                m
            },
        }
    }
}

/// The number of non-zero bytes at the start of `z`.
pub open spec fn field_len(z: Seq<u8>) -> nat
    decreases z.len(),
{
    if z.len() == 0 || z[0] == 0 {
        0
    } else {
        1 + field_len(z.drop_first())
    }
}

pub proof fn lemma_field_len_bound(z: Seq<u8>)
    ensures
        field_len(z) <= z.len(),
    decreases z.len(),
{
    if z.len() > 0 && z[0] != 0 {
        lemma_field_len_bound(z.drop_first());
    }
}

/// The non-empty fields of a NUL-separated listing, in order.
pub open spec fn nul_fields(z: Seq<u8>) -> Seq<Seq<u8>>
    decreases z.len(),
{
    if z.len() == 0 {
        seq![]
    } else if z[0] == 0 {
        nul_fields(z.drop_first())
    } else {
        proof {
            lemma_field_len_bound(z);
        }
        let k = field_len(z);
        seq![z.take(k as int)] + nul_fields(z.skip(k as int))
    }
}

/// Splits a NUL-separated listing into its non-empty fields.
pub fn split_nul(z: &[u8]) -> (r: Vec<Vec<u8>>)
    ensures
        r@.len() == nul_fields(z@).len(),
        forall|i: int| 0 <= i < r@.len() ==> #[trigger] r@[i]@ == nul_fields(z@)[i],
{
    let n = z.len();
    let mut out: Vec<Vec<u8>> = Vec::new();
    let ghost mut acc: Seq<Seq<u8>> = seq![];
    let mut pos: usize = 0;
    assert(z@.skip(0) =~= z@);
    assert(acc + nul_fields(z@) =~= nul_fields(z@));
    while pos < n
        invariant
            n == z@.len(),
            pos <= n,
            out@.len() == acc.len(),
            forall|i: int| 0 <= i < out@.len() ==> #[trigger] out@[i]@ == acc[i],
            acc + nul_fields(z@.skip(pos as int)) == nul_fields(z@),
        decreases n - pos,
    {
        let ghost rest = z@.skip(pos as int);
        if z[pos] == 0 {
            assert(rest.drop_first() =~= z@.skip(pos + 1));
            pos = pos + 1;
        } else {
            let mut j: usize = pos;
            let mut field: Vec<u8> = Vec::new();
            while j < n && z[j] != 0
                invariant
                    n == z@.len(),
                    pos <= j <= n,
                    rest == z@.skip(pos as int),
                    field@ == z@.subrange(pos as int, j as int),
                    field_len(rest) == (j - pos) + field_len(z@.skip(j as int)),
                decreases n - j,
            {
                assert(z@.skip(j as int).drop_first() =~= z@.skip(j + 1));
                field.push(z[j]);
                assert(field@ =~= z@.subrange(pos as int, j + 1));
                j = j + 1;
            }
            assert(field_len(z@.skip(j as int)) == 0);
            assert(rest.take(field_len(rest) as int) =~= field@);
            assert(rest.skip(field_len(rest) as int) =~= z@.skip(j as int));
            proof {
                assert(acc.push(field@) + nul_fields(z@.skip(j as int)) =~= acc + nul_fields(rest));
                acc = acc.push(field@);
            }
            out.push(field);
            pos = j;
        }
    }
    assert(z@.skip(n as int) =~= Seq::<u8>::empty());
    assert(acc =~= nul_fields(z@));
    out
}

/// Calls `std::str::from_utf8`. The contract claims that it succeeds exactly on valid
/// UTF-8, and that the text it gives is what the bytes encode.
#[verifier::external_body]
fn utf8_text(b: &[u8]) -> (r: Option<String>)
    ensures
        r is Some <==> valid_utf8(b@),
        r matches Some(s) ==> s@ == decode_utf8(b@),
{
    match std::str::from_utf8(b) {
        Ok(s) => Some(s.to_string()),
        Err(_) => None,
    }
}

/// Whether a two-letter status code holds the letter `c`.
pub open spec fn code_has(code: Seq<u8>, c: u8) -> bool {
    code[0] == c || code[1] == c
}

/// The kind of change that a status code reports: a `D` deletes, an `A` or an untracked
/// `??` adds, an `R` renames, and anything else modifies.
pub open spec fn status_word(code: Seq<u8>) -> Seq<char> {
    if code_has(code, 68) {
        "deleted"@
    } else if code_has(code, 65) || (code[0] == 63 && code[1] == 63) {
        "added"@
    } else if code_has(code, 82) {
        "renamed"@
    } else {
        "modified"@
    }
}

/// Whether a status record is followed by the source path of a rename or copy.
pub open spec fn has_source(code: Seq<u8>) -> bool {
    code_has(code, 82) || code_has(code, 67)
}

/// A status record: two code letters, a space, and a path of at least one byte.
pub open spec fn valid_record(f: Seq<u8>) -> bool {
    f.len() >= 4 && f[2] == 32
}

/// The changed files that the status records report, in listing order, or the first
/// fault: a malformed record, a path that is not UTF-8, or a rename without its source.
pub open spec fn status_records(fields: Seq<Seq<u8>>) -> Result<Seq<FileView>, GateError>
    decreases fields.len(),
{
    if fields.len() == 0 {
        Ok(seq![])
    } else {
        let f = fields[0];
        if !valid_record(f) {
            Err(GateError::InvalidStatusRecord)
        } else if !valid_utf8(f.skip(3)) {
            Err(GateError::PathNotUtf8)
        } else if has_source(f.take(2)) && fields.len() < 2 {
            Err(GateError::MissingRenameSource)
        } else {
            let used: int = if has_source(f.take(2)) { 2 } else { 1 };
            match status_records(fields.skip(used)) {
                Ok(rest) => Ok(seq![FileView { path: decode_utf8(f.skip(3)), status: status_word(f.take(2)) }] + rest),
                Err(e) => Err(e),
            }
        }
    }
}

/// Where a stable sort by path puts `x` among the sorted `v`: after every file whose
/// path does not follow `x`'s.
pub open spec fn insert_position(v: Seq<FileView>, x: FileView) -> nat
    decreases v.len(),
{
    if v.len() == 0 || str_lt(x.path, v[0].path) {
        0
    } else {
        1 + insert_position(v.drop_first(), x)
    }
}

pub proof fn lemma_insert_position_bound(v: Seq<FileView>, x: FileView)
    ensures
        insert_position(v, x) <= v.len(),
    decreases v.len(),
{
    if v.len() > 0 && !str_lt(x.path, v[0].path) {
        lemma_insert_position_bound(v.drop_first(), x);
    }
}

/// The files sorted by path, files with equal paths in their listing order.
pub open spec fn sorted_by_path(files: Seq<FileView>) -> Seq<FileView>
    decreases files.len(),
{
    if files.len() == 0 {
        seq![]
    } else {
        let s = sorted_by_path(files.drop_last());
        proof {
            lemma_insert_position_bound(s, files.last());
        }
        s.insert(insert_position(s, files.last()) as int, files.last())
    }
}

/// What a `git status --porcelain=v1 -z --untracked-files=all` listing reports.
pub open spec fn porcelain_status_spec(z: Seq<u8>) -> Result<Seq<FileView>, GateError> {
    match status_records(nul_fields(z)) {
        Ok(files) => Ok(sorted_by_path(files)),
        Err(e) => Err(e),
    }
}

/// How a status code is read: a `D` in either column deletes; otherwise an `A` in
/// either column, or an untracked `??`, adds, whatever the other column holds; otherwise
/// an `R` renames; anything else modifies.
pub proof fn law_status_codes(c0: u8, c1: u8)
    ensures
        (c0 == 68 || c1 == 68) ==> status_word(seq![c0, c1]) == "deleted"@,
        c0 != 68 && c1 != 68 && (c0 == 65 || c1 == 65) ==> status_word(seq![c0, c1]) == "added"@,
        status_word(seq![63u8, 63u8]) == "added"@,
        c0 != 68 && c1 != 68 && c0 != 65 && c1 != 65 && !(c0 == 63 && c1 == 63) && (c0 == 82 || c1 == 82)
            ==> status_word(seq![c0, c1]) == "renamed"@,
        c0 != 68 && c1 != 68 && c0 != 65 && c1 != 65 && !(c0 == 63 && c1 == 63) && c0 != 82 && c1 != 82
            ==> status_word(seq![c0, c1]) == "modified"@,
{
}

proof fn lemma_field_len_of_record(f: Seq<u8>)
    requires
        forall|i: int| 0 <= i < f.len() ==> f[i] != 0,
    ensures
        field_len(f + seq![0u8]) == f.len(),
    decreases f.len(),
{
    if f.len() > 0 {
        assert((f + seq![0u8]).drop_first() =~= f.drop_first() + seq![0u8]);
        lemma_field_len_of_record(f.drop_first());
    } else {
        assert((f + seq![0u8])[0] == 0);
    }
}

/// A listing of one record for a path that is not renamed or copied reports that one
/// file, by its path and the kind of change its code names; a file that was added (an
/// `A` in either column, no `D`) is reported as added, whatever else was done to it.
pub proof fn law_one_record_listing(c0: u8, c1: u8, path: Seq<u8>)
    requires
        c0 != 0 && c1 != 0,
        c0 != 82 && c1 != 82 && c0 != 67 && c1 != 67,
        path.len() >= 1,
        forall|i: int| 0 <= i < path.len() ==> path[i] != 0,
        valid_utf8(path),
    ensures
        porcelain_status_spec(seq![c0, c1, 32u8] + path + seq![0u8]) == Ok::<Seq<FileView>, GateError>(
            seq![FileView { path: decode_utf8(path), status: status_word(seq![c0, c1]) }],
        ),
        c0 != 68 && c1 != 68 && (c0 == 65 || c1 == 65) ==> porcelain_status_spec(seq![c0, c1, 32u8] + path + seq![0u8])
            == Ok::<Seq<FileView>, GateError>(seq![FileView { path: decode_utf8(path), status: "added"@ }]),
{
    let f = seq![c0, c1, 32u8] + path;
    let z = f + seq![0u8];
    assert(seq![c0, c1, 32u8] + path + seq![0u8] == z);
    assert forall|i: int| 0 <= i < f.len() implies f[i] != 0 by {
        if i >= 3 {
            assert(f[i] == path[i - 3]);
        }
    }
    lemma_field_len_of_record(f);
    lemma_field_len_bound(z);
    assert(z[0] == c0);
    assert(z.take(f.len() as int) =~= f);
    assert(z.skip(f.len() as int) =~= seq![0u8]);
    assert(seq![0u8].drop_first() =~= Seq::<u8>::empty());
    assert(nul_fields(Seq::<u8>::empty()) == Seq::<Seq<u8>>::empty());
    assert(seq![0u8].len() == 1 && seq![0u8][0] == 0);
    assert(nul_fields(seq![0u8]) == nul_fields(seq![0u8].drop_first()));
    assert(nul_fields(seq![0u8]) =~= Seq::<Seq<u8>>::empty());
    assert(nul_fields(z) =~= seq![f]);
    assert(f.skip(3) =~= path);
    assert(f.take(2) =~= seq![c0, c1]);
    let fv = FileView { path: decode_utf8(path), status: status_word(seq![c0, c1]) };
    assert(seq![f].skip(1) =~= Seq::<Seq<u8>>::empty());
    assert(status_records(Seq::<Seq<u8>>::empty()) == Ok::<Seq<FileView>, GateError>(Seq::<FileView>::empty()));
    assert(f.len() >= 4 && f[2] == 32);
    assert(valid_record(f));
    assert(f.take(2)[0] == c0 && f.take(2)[1] == c1);
    assert(!has_source(f.take(2)));
    assert(valid_utf8(f.skip(3)));
    assert(seq![f][0] == f && seq![f].len() == 1);
    assert(status_records(seq![f]) == Ok::<Seq<FileView>, GateError>(seq![fv] + Seq::<FileView>::empty()));
    assert(seq![fv] + Seq::<FileView>::empty() =~= seq![fv]);
    assert(seq![fv].drop_last() =~= Seq::<FileView>::empty());
    assert(sorted_by_path(Seq::<FileView>::empty()) =~= Seq::<FileView>::empty());
    assert(Seq::<FileView>::empty().insert(0, fv) =~= seq![fv]);
    assert(sorted_by_path(seq![fv]) =~= seq![fv]);
    law_status_codes(c0, c1);
}

proof fn lemma_insert_position(v: Seq<FileView>, x: FileView)
    ensures
        insert_position(v, x) <= v.len(),
        forall|k: int| 0 <= k < insert_position(v, x) ==> !str_lt(x.path, #[trigger] v[k].path),
        insert_position(v, x) < v.len() ==> str_lt(x.path, v[insert_position(v, x) as int].path),
    decreases v.len(),
{
    if v.len() > 0 && !str_lt(x.path, v[0].path) {
        lemma_insert_position(v.drop_first(), x);
        assert forall|k: int| 0 <= k < insert_position(v, x) implies !str_lt(x.path, #[trigger] v[k].path) by {
            if k > 0 {
                assert(v[k] == v.drop_first()[k - 1]);
            }
        }
    }
}

/// Paths in order: no path follows a later one.
pub open spec fn paths_in_order(v: Seq<FileView>) -> bool {
    forall|i: int, j: int| 0 <= i < j < v.len() ==> !str_lt(#[trigger] v[j].path, #[trigger] v[i].path)
}

proof fn lemma_sorted_by_path_in_order(files: Seq<FileView>)
    ensures
        paths_in_order(sorted_by_path(files)),
        sorted_by_path(files).len() == files.len(),
    decreases files.len(),
{
    if files.len() > 0 {
        let s = sorted_by_path(files.drop_last());
        let x = files.last();
        lemma_sorted_by_path_in_order(files.drop_last());
        lemma_insert_position(s, x);
        let p = insert_position(s, x) as int;
        let r = s.insert(p, x);
        assert forall|i: int, j: int| 0 <= i < j < r.len() implies !str_lt(#[trigger] r[j].path, #[trigger] r[i].path) by {
            if j < p {
                assert(r[i] == s[i] && r[j] == s[j]);
            } else if j == p {
                assert(r[i] == s[i]);
                lemma_lt_total(x.path, s[i].path);
                if str_lt(x.path, s[i].path) {
                } else if x.path == s[i].path {
                    lemma_lt_irreflexive(x.path);
                } else {
                    lemma_lt_asymmetric(s[i].path, x.path);
                }
            } else if i == p {
                assert(r[j] == s[j - 1]);
                if j - 1 > p {
                    assert(!str_lt(s[j - 1].path, s[p].path));
                    if str_lt(s[j - 1].path, x.path) {
                        lemma_lt_transitive(s[j - 1].path, x.path, s[p].path);
                    }
                } else {
                    lemma_lt_asymmetric(x.path, s[p].path);
                }
            } else if i < p {
                assert(r[i] == s[i] && r[j] == s[j - 1]);
            } else {
                assert(r[i] == s[i - 1] && r[j] == s[j - 1]);
            }
        }
    }
}

/// A listing is reported in path order, one file for each record.
pub proof fn law_changed_files_in_path_order(z: Seq<u8>)
    ensures
        porcelain_status_spec(z) matches Ok(v) ==> paths_in_order(v),
{
    match status_records(nul_fields(z)) {
        Ok(files) => lemma_sorted_by_path_in_order(files),
        Err(_) => {},
    }
}

/// A rename record is followed by its source path, which is not reported: the listing of
/// one rename reports one renamed file, at its new path. A rename without its source path
/// is refused, and so is a first record shorter than four bytes or without a space after
/// its code.
pub proof fn law_renames_and_malformed_records(c0: u8, c1: u8, path: Seq<u8>, source: Seq<u8>)
    requires
        c0 != 0 && c1 != 0,
        c0 != 68 && c1 != 68 && c0 != 65 && c1 != 65,
        c0 == 82 || c1 == 82,
        path.len() >= 1,
        source.len() >= 1,
        forall|i: int| 0 <= i < path.len() ==> path[i] != 0,
        forall|i: int| 0 <= i < source.len() ==> source[i] != 0,
        valid_utf8(path),
    ensures
        porcelain_status_spec(seq![c0, c1, 32u8] + path + seq![0u8] + source + seq![0u8]) == Ok::<Seq<FileView>, GateError>(
            seq![FileView { path: decode_utf8(path), status: "renamed"@ }],
        ),
        porcelain_status_spec(seq![c0, c1, 32u8] + path + seq![0u8]) == Err::<Seq<FileView>, GateError>(
            GateError::MissingRenameSource,
        ),
        path.len() < 2 ==> porcelain_status_spec(seq![c0, c1] + path + seq![0u8]) == Err::<Seq<FileView>, GateError>(
            GateError::InvalidStatusRecord,
        ),
{
    let f = seq![c0, c1, 32u8] + path;
    let g = source;
    assert forall|i: int| 0 <= i < f.len() implies f[i] != 0 by {
        if i >= 3 {
            assert(f[i] == path[i - 3]);
        }
    }
    lemma_field_len_of_record(f);
    lemma_field_len_of_record(g);
    let z1 = f + seq![0u8];
    let z2 = z1 + (g + seq![0u8]);
    assert(seq![c0, c1, 32u8] + path + seq![0u8] + source + seq![0u8] == z2);
    assert(seq![c0, c1, 32u8] + path + seq![0u8] == z1);
    lemma_field_len_bound(z1);
    lemma_field_len_bound(g + seq![0u8]);
    assert(seq![0u8].drop_first() =~= Seq::<u8>::empty());
    assert(nul_fields(Seq::<u8>::empty()) == Seq::<Seq<u8>>::empty());
    assert(nul_fields(seq![0u8]) == nul_fields(seq![0u8].drop_first()));
    // The listing of the source alone.
    let zg = g + seq![0u8];
    assert(zg[0] == g[0]);
    assert(field_len(zg) == g.len());
    assert(zg.take(g.len() as int) =~= g);
    assert(zg.skip(g.len() as int) =~= seq![0u8]);
    assert(nul_fields(zg) =~= seq![g]);
    // Both listings.
    assert(z1[0] == c0 && z2[0] == c0);
    assert(field_len(z2) == field_len(z1)) by {
        lemma_field_len_prefix(f, seq![0u8], g + seq![0u8]);
    }
    assert(z2.take(f.len() as int) =~= f);
    assert(z2.skip(f.len() as int) =~= seq![0u8] + zg);
    assert((seq![0u8] + zg).drop_first() =~= zg);
    assert(nul_fields(seq![0u8] + zg) == nul_fields(zg));
    assert(nul_fields(z2) =~= seq![f, g]);
    assert(z1.take(f.len() as int) =~= f);
    assert(z1.skip(f.len() as int) =~= seq![0u8]);
    assert(nul_fields(z1) =~= seq![f]);
    assert(f.skip(3) =~= path);
    assert(f.take(2) =~= seq![c0, c1]);
    assert(f.len() >= 4 && f[2] == 32);
    assert(valid_record(f));
    assert(has_source(f.take(2)));
    let fv = FileView { path: decode_utf8(path), status: status_word(seq![c0, c1]) };
    law_status_codes(c0, c1);
    assert(seq![f, g].skip(2) =~= Seq::<Seq<u8>>::empty());
    assert(status_records(Seq::<Seq<u8>>::empty()) == Ok::<Seq<FileView>, GateError>(Seq::<FileView>::empty()));
    assert(seq![f, g][0] == f && seq![f, g].len() == 2);
    assert(status_records(seq![f, g]) == Ok::<Seq<FileView>, GateError>(seq![fv] + Seq::<FileView>::empty()));
    assert(seq![fv] + Seq::<FileView>::empty() =~= seq![fv]);
    assert(seq![fv].drop_last() =~= Seq::<FileView>::empty());
    assert(sorted_by_path(Seq::<FileView>::empty()) =~= Seq::<FileView>::empty());
    assert(Seq::<FileView>::empty().insert(0, fv) =~= seq![fv]);
    assert(sorted_by_path(seq![fv]) =~= seq![fv]);
    assert(seq![f][0] == f && seq![f].len() == 1);
    assert(status_records(seq![f]) == Err::<Seq<FileView>, GateError>(GateError::MissingRenameSource));
    if path.len() < 2 {
        let h = seq![c0, c1] + path;
        assert forall|i: int| 0 <= i < h.len() implies h[i] != 0 by {
            if i >= 2 {
                assert(h[i] == path[i - 2]);
            }
        }
        lemma_field_len_of_record(h);
        let zh = h + seq![0u8];
        assert(seq![c0, c1] + path + seq![0u8] == zh);
        lemma_field_len_bound(zh);
        assert(zh[0] == c0);
        assert(zh.take(h.len() as int) =~= h);
        assert(zh.skip(h.len() as int) =~= seq![0u8]);
        assert(nul_fields(zh) =~= seq![h]);
        assert(!valid_record(h));
        assert(seq![h][0] == h && seq![h].len() == 1);
    }
}

proof fn lemma_field_len_prefix(f: Seq<u8>, a: Seq<u8>, b: Seq<u8>)
    requires
        forall|i: int| 0 <= i < f.len() ==> f[i] != 0,
        a.len() > 0 && a[0] == 0,
    ensures
        field_len(f + a + b) == f.len(),
    decreases f.len(),
{
    if f.len() > 0 {
        assert((f + a + b).drop_first() =~= f.drop_first() + a + b);
        lemma_field_len_prefix(f.drop_first(), a, b);
    } else {
        assert((f + a + b)[0] == 0);
    }
}

/// Inserts `f` into `files`, sorted by path, after the files whose path does not follow
/// its own.
fn insert_by_path(files: &mut Vec<ChangedFile>, f: ChangedFile)
    ensures
        file_views(final(files)@) == file_views(old(files)@).insert(
            insert_position(file_views(old(files)@), f@) as int,
            f@,
        ),
{
    let ghost v = file_views(files@);
    let n = files.len();
    let mut i: usize = 0;
    assert(v.skip(0) =~= v);
    while i < n && !string_lt(f.path.as_str(), files[i].path.as_str())
        invariant
            n == files@.len(),
            v == file_views(files@),
            i <= n,
            insert_position(v, f@) == i + insert_position(v.skip(i as int), f@),
        decreases n - i,
    {
        assert(v.skip(i as int).drop_first() =~= v.skip(i + 1));
        i = i + 1;
    }
    proof {
        if i < n {
            assert(v.skip(i as int)[0] == v[i as int]);
        }
    }
    let ghost fv = f@;
    files.insert(i, f);
    assert(file_views(files@) =~= v.insert(i as int, fv));
}

/// Reads the changed files of a `git status --porcelain=v1 -z --untracked-files=all`
/// listing: one record per file (the source path that follows a rename or copy is
/// skipped), sorted by path. Refused on a malformed record, a path that is not UTF-8,
/// and a rename without its source path.
pub fn parse_porcelain_status(z: &[u8]) -> (r: Result<Vec<ChangedFile>, GateError>)
    ensures
        match (r, porcelain_status_spec(z@)) {
            (Ok(v), Ok(s)) => file_views(v@) == s,
            (Err(e), Err(t)) => e == t,
            _ => false,
        },
{
    let fields = split_nul(z);
    let ghost fs = nul_fields(z@);
    assert(fields@.len() == fs.len());
    let n = fields.len();
    let mut files: Vec<ChangedFile> = Vec::new();
    let ghost mut listed: Seq<FileView> = seq![];
    let mut index: usize = 0;
    assert(fs.skip(0) =~= fs);
    while index < n
        invariant
            n == fs.len(),
            fs == nul_fields(z@),
            fields@.len() == n,
            forall|i: int| 0 <= i < n ==> #[trigger] fields@[i]@ == fs[i],
            index <= n,
            file_views(files@) == sorted_by_path(listed),
            status_records(fs) == (match status_records(fs.skip(index as int)) {
                Ok(rest) => Ok(listed + rest),
                Err(e) => Err(e),
            }),
        decreases n - index,
    {
        let ghost rest = fs.skip(index as int);
        let field = &fields[index];
        assert(field@ == rest[0]);
        if !(field.len() >= 4 && field[2] == 32) {
            return Err(GateError::InvalidStatusRecord);
        }
        let code0 = field[0];
        let code1 = field[1];
        assert(field@.take(2)[0] == code0 && field@.take(2)[1] == code1);
        let mut path_bytes: Vec<u8> = Vec::new();
        let mut k: usize = 3;
        while k < field.len()
            invariant
                3 <= k <= field@.len(),
                path_bytes@ == field@.subrange(3, k as int),
            decreases field@.len() - k,
        {
            path_bytes.push(field[k]);
            assert(path_bytes@ =~= field@.subrange(3, k + 1));
            k = k + 1;
        }
        assert(path_bytes@ =~= field@.skip(3));
        let path = match utf8_text(path_bytes.as_slice()) {
            Some(p) => p,
            None => {
                return Err(GateError::PathNotUtf8);
            },
        };
        let status = if code0 == 68 || code1 == 68 {
            String::from_str("deleted")
        } else if code0 == 65 || code1 == 65 || (code0 == 63 && code1 == 63) {
            String::from_str("added")
        } else if code0 == 82 || code1 == 82 {
            String::from_str("renamed")
        } else {
            String::from_str("modified")
        };
        let two = code0 == 82 || code1 == 82 || code0 == 67 || code1 == 67;
        if two && index + 1 >= n {
            return Err(GateError::MissingRenameSource);
        }
        let f = ChangedFile { path, status };
        let ghost fv = f@;
        assert(fv == FileView { path: decode_utf8(rest[0].skip(3)), status: status_word(rest[0].take(2)) });
        insert_by_path(&mut files, f);
        let used: usize = if two { 2 } else { 1 };
        proof {
            assert(rest.skip(used as int) =~= fs.skip(index + used));
            assert(listed.push(fv).drop_last() =~= listed);
            let sl = sorted_by_path(listed);
            assert(file_views(files@) == sorted_by_path(listed.push(fv)));
            match status_records(rest.skip(used as int)) {
                Ok(tail) => {
                    assert(listed.push(fv) + tail =~= listed + (seq![fv] + tail));
                },
                Err(_) => {},
            }
            listed = listed.push(fv);
        }
        index = index + used;
    }
    assert(fs.skip(n as int) =~= Seq::<Seq<u8>>::empty());
    assert(listed + Seq::<FileView>::empty() =~= listed);
    Ok(files)
}

/// Why a staged mutation may not be promoted, where the policy allows a mutation: the
/// declaration that staged it is still the active one, the candidate still has the
/// fingerprint it had at staging, the staging index tree is unchanged, and something
/// changed. The first that fails refuses the promotion; `None` where all hold.
pub open spec fn promotion_refusal(
    active_id: Option<Seq<char>>,
    declaration_id: Seq<char>,
    before: Seq<char>,
    actual_before: Seq<char>,
    before_tree: Seq<char>,
    staging_tree: Seq<char>,
    changed: nat,
) -> Option<GateError> {
    if active_id != Some(declaration_id) {
        Some(GateError::DeclarationChanged)
    } else if actual_before != before {
        Some(GateError::CandidateChanged)
    } else if staging_tree != before_tree {
        Some(GateError::IndexChanged)
    } else if changed == 0 {
        Some(GateError::NoMutation)
    } else {
        None
    }
}

/// The checks before a staged mutation is promoted, on what the caller found: the
/// fingerprint of the candidate now (`actual_before`), the index tree of the staging
/// workspace now, and the files that changed in it. A refusal of the policy comes first.
pub fn promotion_check(
    state: &PolicyState,
    declaration_id: &str,
    before_fingerprint: &str,
    actual_before: &str,
    before_index_tree: &str,
    staging_index_tree: &str,
    changed_files: &Vec<ChangedFile>,
) -> (r: Result<(), GateError>)
    requires
        state.inv(),
    ensures
        !mutation_allowed(state@) ==> (r matches Err(GateError::Policy(e)) && ensure_mutation_spec(state@) == Err::<(), PolicyFault>(e@)),
        mutation_allowed(state@) ==> match promotion_refusal(
            match state@.active_declaration { Some(d) => Some(d.id), None => None },
            declaration_id@,
            before_fingerprint@,
            actual_before@,
            before_index_tree@,
            staging_index_tree@,
            changed_files@.len(),
        ) {
            Some(e) => r matches Err(g) && g == e,
            None => r is Ok,
        },
{
    match state.ensure_mutation_allowed() {
        Ok(()) => {},
        Err(e) => {
            return Err(GateError::Policy(e));
        },
    }
    let same_declaration = match &state.active_declaration {
        Some(d) => str_equal(d.id.as_str(), declaration_id),
        None => false,
    };
    if !same_declaration {
        return Err(GateError::DeclarationChanged);
    }
    if !str_equal(actual_before, before_fingerprint) {
        return Err(GateError::CandidateChanged);
    }
    if !str_equal(staging_index_tree, before_index_tree) {
        return Err(GateError::IndexChanged);
    }
    if changed_files.len() == 0 {
        return Err(GateError::NoMutation);
    }
    Ok(())
}

/// What a promotion did: the candidate's fingerprints before and after, and the files
/// that changed.
pub struct PromotionResult {
    pub before_repository_fingerprint: String,
    pub after_repository_fingerprint: String,
    pub changed_files: Vec<ChangedFile>,
    pub staging_workspace: String,
}

/// The outcome of copying the staging tree into the candidate: a promotion when the
/// candidate now has the staging fingerprint, and otherwise the refusal under which the
/// caller rolls the candidate back.
pub fn promotion_outcome(
    before_fingerprint: String,
    promoted_fingerprint: String,
    staged_fingerprint: String,
    changed_files: Vec<ChangedFile>,
    staging_workspace: String,
) -> (r: Result<PromotionResult, GateError>)
    ensures
        promoted_fingerprint@ == staged_fingerprint@ ==> (r matches Ok(p) && {
            &&& p.before_repository_fingerprint@ == before_fingerprint@
            &&& p.after_repository_fingerprint@ == promoted_fingerprint@
            &&& p.changed_files@ == changed_files@
            &&& p.staging_workspace@ == staging_workspace@
        }),
        promoted_fingerprint@ != staged_fingerprint@ ==> (r matches Err(GateError::PromotedMismatch { promoted, staged })
            && promoted@ == promoted_fingerprint@ && staged@ == staged_fingerprint@),
{
    if !str_equal(promoted_fingerprint.as_str(), staged_fingerprint.as_str()) {
        return Err(GateError::PromotedMismatch { promoted: promoted_fingerprint, staged: staged_fingerprint });
    }
    Ok(PromotionResult {
        before_repository_fingerprint: before_fingerprint,
        after_repository_fingerprint: promoted_fingerprint,
        changed_files,
        staging_workspace,
    })
}

/// The checks before a candidate is copied to staging, on what the caller found: the
/// candidate's fingerprint now and whether it has a standard Git directory. The policy
/// must allow a mutation, the candidate must still have the fingerprint that the policy
/// holds, and its Git directory must be a directory. Gives the identifier of the active
/// declaration, which names the staging workspace.
pub fn staging_check(state: &PolicyState, actual_fingerprint: &str, standard_git: bool) -> (r: Result<String, GateError>)
    requires
        state.inv(),
    ensures
        !mutation_allowed(state@) ==> (r matches Err(GateError::Policy(e)) && ensure_mutation_spec(state@) == Err::<(), PolicyFault>(e@)),
        mutation_allowed(state@) && actual_fingerprint@ != state@.current_repository_fingerprint ==> (r matches Err(
            GateError::CandidateChangedBeforeStaging,
        )),
        mutation_allowed(state@) && actual_fingerprint@ == state@.current_repository_fingerprint && !standard_git ==> (r matches Err(
            GateError::NotStandardGit,
        )),
        mutation_allowed(state@) && actual_fingerprint@ == state@.current_repository_fingerprint && standard_git ==> (r matches Ok(id)
            && state@.active_declaration matches Some(d) && id@ == d.id),
{
    match state.ensure_mutation_allowed() {
        Ok(()) => {},
        Err(e) => {
            return Err(GateError::Policy(e));
        },
    }
    if !str_equal(actual_fingerprint, state.current_repository_fingerprint.as_str()) {
        return Err(GateError::CandidateChangedBeforeStaging);
    }
    if !standard_git {
        return Err(GateError::NotStandardGit);
    }
    match &state.active_declaration {
        Some(d) => Ok(d.id.clone()),
        None => {
            // A policy that allows a mutation has an active declaration.
            proof {
                assert(false);
            }
            Err(GateError::NotStandardGit)
        },
    }
}

/// The check after the candidate was copied to staging: the copy must have the
/// candidate's fingerprint.
pub fn staged_copy_check(staged: String, actual: String) -> (r: Result<(), GateError>)
    ensures
        staged@ == actual@ ==> r is Ok,
        staged@ != actual@ ==> (r matches Err(GateError::StagingMismatch { staged: s, actual: a }) && s@ == staged@ && a@ == actual@),
{
    if str_equal(staged.as_str(), actual.as_str()) {
        Ok(())
    } else {
        Err(GateError::StagingMismatch { staged, actual })
    }
}

} // verus!
