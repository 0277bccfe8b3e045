//! The checks that guard applying a published workspace on the remote host: a
//! well-formed request, no running guest command, an archive with the announced digest,
//! and no published path that overlaps declared guest state.
use vstd::prelude::*;
use crate::paths::{components, components_prefix, parts_prefix, path_components, Part};
use crate::storage::{all_hex, valid_digest};
use crate::text::{
    ascii_lower_chars, ascii_lower_seq, chars_equal, chars_of, has_prefix, join, join_strings, push_str,
    starts_with, views,
};

verus! {

broadcast use vstd::string::group_string_axioms;

/// Why a transfer is not applied.
#[derive(Clone, Debug, PartialEq, Eq)]
pub enum TransferError {
    /// The archive digest is not 64 hexadecimal digits.
    InvalidDigest,
    /// The source fingerprint is not `sha256:` and 64 hexadecimal digits.
    InvalidSourceFingerprint,
    /// Guest commands, by identifier, are still running.
    ActiveCommands(Vec<String>),
    /// The archive's digest is not the one announced.
    DigestMismatch,
    /// The published path, or the declared guest state, that the two overlap at.
    StateConflict(String),
}

impl TransferError {
    /// The human-readable description of the error.
    pub open spec fn text(&self) -> Seq<char> {
        match self {
            TransferError::InvalidDigest => "invalid SHA-256 digest"@,
            TransferError::InvalidSourceFingerprint => "invalid source repository fingerprint"@,
            TransferError::ActiveCommands(ids) => "workspace publication is blocked by active guest commands: "@ + join(
                views(ids@),
                ", "@,
            ),
            TransferError::DigestMismatch => "transfer digest mismatch"@,
            TransferError::StateConflict(p) => "publication path conflicts with declared guest state: "@ + p@,
        }
    }

    /// Renders the description of the error.
    pub fn message(&self) -> (r: String)
        ensures
            r@ == self.text(),
    {
        let mut s = String::new();
        match self {
            TransferError::InvalidDigest => push_str(&mut s, "invalid SHA-256 digest"),
            TransferError::InvalidSourceFingerprint => push_str(&mut s, "invalid source repository fingerprint"),
            TransferError::ActiveCommands(ids) => {
                push_str(&mut s, "workspace publication is blocked by active guest commands: ");
                let listed = join_strings(ids.as_slice(), ", ");
                push_str(&mut s, listed.as_str());
            },
            TransferError::DigestMismatch => push_str(&mut s, "transfer digest mismatch"),
            TransferError::StateConflict(p) => {
                push_str(&mut s, "publication path conflicts with declared guest state: ");
                push_str(&mut s, p.as_str());
            },
        }
        s
    }
}

/// A repository fingerprint: `sha256:` and a digest.
pub open spec fn valid_fingerprint(f: Seq<char>) -> bool {
    has_prefix(f, "sha256:"@) && valid_digest(f.skip(7))
}

/// A transfer names its archive by digest and its source by repository fingerprint.
pub fn validate_transfer_request(expected_sha256: &str, source_repository_fingerprint: &str) -> (r: Result<(), TransferError>)
    ensures
        !valid_digest(expected_sha256@) ==> r == Err::<(), TransferError>(TransferError::InvalidDigest),
        valid_digest(expected_sha256@) && !valid_fingerprint(source_repository_fingerprint@)
            ==> r == Err::<(), TransferError>(TransferError::InvalidSourceFingerprint),
        valid_digest(expected_sha256@) && valid_fingerprint(source_repository_fingerprint@) ==> r == Ok::<(), TransferError>(()),
{
    if !all_hex(expected_sha256, 64) {
        return Err(TransferError::InvalidDigest);
    }
    proof {
        reveal_strlit("sha256:");
    }
    if !starts_with(source_repository_fingerprint, "sha256:") {
        return Err(TransferError::InvalidSourceFingerprint);
    }
    let c = chars_of(source_repository_fingerprint);
    let mut rest = String::new();
    let mut i: usize = 7;
    while i < c.len()
        invariant
            c@ == source_repository_fingerprint@,
            7 <= i <= c@.len(),
            rest@ == c@.subrange(7, i as int),
        decreases c@.len() - i,
    {
        crate::text::push_char(&mut rest, c[i]);
        assert(c@.subrange(7, i + 1) =~= c@.subrange(7, i as int).push(c@[i as int]));
        i = i + 1;
    }
    assert(rest@ =~= source_repository_fingerprint@.skip(7));
    if !all_hex(rest.as_str(), 64) {
        return Err(TransferError::InvalidSourceFingerprint);
    }
    Ok(())
}

/// Publication waits until no guest command runs.
pub fn ensure_no_active_commands(active: &Vec<String>) -> (r: Result<(), TransferError>)
    ensures
        active@.len() == 0 ==> r == Ok::<(), TransferError>(()),
        active@.len() > 0 ==> (r matches Err(TransferError::ActiveCommands(ids)) && views(ids@) == views(active@)),
{
    if active.len() == 0 {
        Ok(())
    } else {
        let mut ids: Vec<String> = Vec::new();
        let mut i: usize = 0;
        while i < active.len()
            invariant
                i <= active@.len(),
                views(ids@) == views(active@.take(i as int)),
            decreases active@.len() - i,
        {
            let ghost before = views(ids@);
            let x = active[i].clone();
            ids.push(x);
            assert(active@.take(i + 1) =~= active@.take(i as int).push(active@[i as int]));
            assert(views(ids@) =~= before.push(x@));
            assert(views(ids@) =~= views(active@.take(i + 1)));
            i = i + 1;
        }
        assert(active@.take(i as int) =~= active@);
        Err(TransferError::ActiveCommands(ids))
    }
}

/// The archive received has the digest announced, which may be written in either case.
pub fn ensure_digest_matches(actual: &str, expected: &str) -> (r: Result<(), TransferError>)
    ensures
        r == (if actual@ == ascii_lower_seq(expected@) {
            Ok::<(), TransferError>(())
        } else {
            Err(TransferError::DigestMismatch)
        }),
{
    let a = chars_of(actual);
    let e = chars_of(expected);
    let lowered = ascii_lower_chars(e.as_slice());
    if chars_equal(a.as_slice(), lowered.as_slice()) {
        Ok(())
    } else {
        Err(TransferError::DigestMismatch)
    }
}

/// Two paths of which one begins the other, component by component.
pub open spec fn overlapping(a: Seq<char>, b: Seq<char>) -> bool {
    components_prefix(components(b), components(a)) || components_prefix(components(a), components(b))
}

/// An entry that overlaps some declared state.
pub open spec fn conflicts(entry: Seq<char>, states: Seq<String>) -> bool {
    exists|j: int| 0 <= j < states.len() && overlapping(entry, #[trigger] states[j]@)
}

fn components_of(s: &str) -> (r: Vec<Part>)
    ensures
        crate::paths::parts_view(r@) == components(s@),
{
    let c = chars_of(s);
    path_components(c.as_slice())
}

/// No published path may touch declared guest state: a state path must not already
/// exist in the publication (`state_present[i]` tells whether `guest_state_paths[i]`
/// does), and no entry may lie inside a state path or contain one. The first state
/// found present is reported, else the first entry that overlaps a state.
pub fn ensure_no_state_conflict(entries: &[String], guest_state_paths: &[String], state_present: &[bool]) -> (r: Result<(), TransferError>)
    requires
        state_present@.len() == guest_state_paths@.len(),
    ensures
        match r {
            Ok(()) => {
                &&& forall|i: int| 0 <= i < state_present@.len() ==> !state_present@[i]
                &&& forall|i: int| 0 <= i < entries@.len() ==> !conflicts(#[trigger] entries@[i]@, guest_state_paths@)
            },
            Err(TransferError::StateConflict(p)) => {
                ||| exists|i: int| 0 <= i < state_present@.len() && state_present@[i]
                    && (forall|k: int| 0 <= k < i ==> !state_present@[k]) && p@ == #[trigger] guest_state_paths@[i]@
                ||| (forall|i: int| 0 <= i < state_present@.len() ==> !state_present@[i])
                    && exists|i: int| 0 <= i < entries@.len() && conflicts(#[trigger] entries@[i]@, guest_state_paths@)
                    && (forall|k: int| 0 <= k < i ==> !conflicts(entries@[k]@, guest_state_paths@)) && p@ == entries@[i]@
            },
            Err(_) => false,
        },
{
    let mut i: usize = 0;
    while i < state_present.len()
        invariant
            i <= state_present@.len(),
            state_present@.len() == guest_state_paths@.len(),
            forall|k: int| 0 <= k < i ==> !state_present@[k],
        decreases state_present@.len() - i,
    {
        if state_present[i] {
            assert(guest_state_paths@[i as int]@ == guest_state_paths@[i as int]@);
            return Err(TransferError::StateConflict(guest_state_paths[i].clone()));
        }
        i = i + 1;
    }
    let mut states: Vec<Vec<Part>> = Vec::new();
    let mut j: usize = 0;
    while j < guest_state_paths.len()
        invariant
            j <= guest_state_paths@.len(),
            states@.len() == j,
            forall|k: int| 0 <= k < j ==> crate::paths::parts_view(#[trigger] states@[k]@) == components(guest_state_paths@[k]@),
        decreases guest_state_paths@.len() - j,
    {
        states.push(components_of(guest_state_paths[j].as_str()));
        j = j + 1;
    }
    let mut e: usize = 0;
    while e < entries.len()
        invariant
            e <= entries@.len(),
            states@.len() == guest_state_paths@.len(),
            forall|k: int| 0 <= k < states@.len() ==> crate::paths::parts_view(#[trigger] states@[k]@) == components(guest_state_paths@[k]@),
            forall|k: int| 0 <= k < state_present@.len() ==> !state_present@[k],
            forall|k: int| 0 <= k < e ==> !conflicts(#[trigger] entries@[k]@, guest_state_paths@),
        decreases entries@.len() - e,
    {
        let entry = components_of(entries[e].as_str());
        let mut s: usize = 0;
        while s < states.len()
            invariant
                e < entries@.len(),
                s <= states@.len(),
                states@.len() == guest_state_paths@.len(),
                forall|k: int| 0 <= k < states@.len() ==> crate::paths::parts_view(#[trigger] states@[k]@) == components(guest_state_paths@[k]@),
                crate::paths::parts_view(entry@) == components(entries@[e as int]@),
                forall|k: int| 0 <= k < state_present@.len() ==> !state_present@[k],
                forall|k: int| 0 <= k < e ==> !conflicts(#[trigger] entries@[k]@, guest_state_paths@),
                forall|k: int| 0 <= k < s ==> !overlapping(entries@[e as int]@, #[trigger] guest_state_paths@[k]@),
            decreases states@.len() - s,
        {
            if parts_prefix(states[s].as_slice(), entry.as_slice()) || parts_prefix(entry.as_slice(), states[s].as_slice()) {
                assert(overlapping(entries@[e as int]@, guest_state_paths@[s as int]@));
                assert(conflicts(entries@[e as int]@, guest_state_paths@));
                let found = entries[e].clone();
                assert(found@ == entries@[e as int]@);
                return Err(TransferError::StateConflict(found));
            }
            s = s + 1;
        }
        e = e + 1;
    }
    Ok(())
}

} // verus!
