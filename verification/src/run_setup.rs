//! Setting up a new run: where its base image, candidate workspace, state and keys may
//! lie, the base image's checksum sidecar, and the configuration a new run starts with.
//! Resolving paths and reading files are the caller's.
use vstd::prelude::*;
use crate::paths::{components, components_prefix, join, path_join, path_starts_with};
use crate::scan::{split_words, words};
use crate::storage::is_hex_digit;
use crate::text::{ascii_lower_chars, ascii_lower_seq, chars_of, push_str, str_equal, string_from_chars};
use crate::vm::RunConfig;

verus! {

broadcast use vstd::string::group_string_axioms;

/// Why a run cannot be set up.
#[derive(Clone, Copy, Debug, PartialEq, Eq, Structural)]
pub enum RunSetupError {
    BaseNotFile,
    ChecksumEmpty,
    ChecksumInvalid,
    BaseDigestMismatch,
    CandidateNotDirectory,
    BaseInsideCandidate,
    StateInsideCandidate,
    PrivateKeyNotFile,
    HostKeyNotFile,
}

impl RunSetupError {
    /// The human-readable description of the error.
    pub open spec fn text(&self) -> Seq<char> {
        match self {
            RunSetupError::BaseNotFile => "base image must be a regular file"@,
            RunSetupError::ChecksumEmpty => "base checksum sidecar is empty"@,
            RunSetupError::ChecksumInvalid => "base checksum sidecar is invalid"@,
            RunSetupError::BaseDigestMismatch => "base image failed SHA-256 verification"@,
            RunSetupError::CandidateNotDirectory => "candidate workspace must be a directory"@,
            RunSetupError::BaseInsideCandidate => "base image must be outside the candidate workspace"@,
            RunSetupError::StateInsideCandidate => "state root must be outside the candidate workspace"@,
            RunSetupError::PrivateKeyNotFile => "guest SSH private key must be a file"@,
            RunSetupError::HostKeyNotFile => "guest SSH host public key must be a file"@,
        }
    }

    /// Renders the description of the error.
    pub fn message(&self) -> (r: String)
        ensures
            r@ == self.text(),
    {
        let mut s = String::new();
        match self {
            RunSetupError::BaseNotFile => push_str(&mut s, "base image must be a regular file"),
            RunSetupError::ChecksumEmpty => push_str(&mut s, "base checksum sidecar is empty"),
            RunSetupError::ChecksumInvalid => push_str(&mut s, "base checksum sidecar is invalid"),
            RunSetupError::BaseDigestMismatch => push_str(&mut s, "base image failed SHA-256 verification"),
            RunSetupError::CandidateNotDirectory => push_str(&mut s, "candidate workspace must be a directory"),
            RunSetupError::BaseInsideCandidate => push_str(&mut s, "base image must be outside the candidate workspace"),
            RunSetupError::StateInsideCandidate => push_str(&mut s, "state root must be outside the candidate workspace"),
            RunSetupError::PrivateKeyNotFile => push_str(&mut s, "guest SSH private key must be a file"),
            RunSetupError::HostKeyNotFile => push_str(&mut s, "guest SSH host public key must be a file"),
        }
        s
    }
}

/// The base image must be a regular file.
pub fn check_base_file(is_file: bool) -> (r: Result<(), RunSetupError>)
    ensures
        r == (if is_file { Ok::<(), RunSetupError>(()) } else { Err(RunSetupError::BaseNotFile) }),
{
    if is_file {
        Ok(())
    } else {
        Err(RunSetupError::BaseNotFile)
    }
}

/// A SHA-256 digest as the sidecar may write it: 64 hexadecimal digits of either case.
pub open spec fn digest_text(w: Seq<char>) -> bool {
    w.len() == 64 && forall|i: int| 0 <= i < w.len() ==> is_hex_digit(#[trigger] w[i])
}

/// The digest a checksum sidecar records: its first word, in lower case.
pub fn sidecar_digest(contents: &str) -> (r: Result<String, RunSetupError>)
    ensures
        words(contents@).len() == 0 ==> r == Err::<String, RunSetupError>(RunSetupError::ChecksumEmpty),
        words(contents@).len() > 0 && !digest_text(words(contents@)[0]) ==> r == Err::<String, RunSetupError>(RunSetupError::ChecksumInvalid),
        words(contents@).len() > 0 && digest_text(words(contents@)[0]) ==> (r matches Ok(d) && d@ == ascii_lower_seq(words(contents@)[0])),
{
    let c = chars_of(contents);
    let ws = split_words(c.as_slice());
    if ws.len() == 0 {
        return Err(RunSetupError::ChecksumEmpty);
    }
    let first = &ws[0];
    if first.len() != 64 {
        return Err(RunSetupError::ChecksumInvalid);
    }
    let mut i: usize = 0;
    while i < 64
        invariant
            first@.len() == 64,
            words(contents@).len() > 0,
            first@ == words(contents@)[0],
            i <= 64,
            forall|k: int| 0 <= k < i ==> is_hex_digit(#[trigger] first@[k]),
        decreases 64 - i,
    {
        let ch = first[i];
        if !(('0' <= ch && ch <= '9') || ('a' <= ch && ch <= 'f') || ('A' <= ch && ch <= 'F')) {
            assert(!is_hex_digit(first@[i as int]));
            return Err(RunSetupError::ChecksumInvalid);
        }
        i = i + 1;
    }
    let lower = ascii_lower_chars(first.as_slice());
    Ok(string_from_chars(lower.as_slice()))
}

/// The base image's content must have the digest its sidecar records.
pub fn check_base_digest(actual: &str, expected: &str) -> (r: Result<(), RunSetupError>)
    ensures
        r == (if actual@ == expected@ { Ok::<(), RunSetupError>(()) } else { Err(RunSetupError::BaseDigestMismatch) }),
{
    if str_equal(actual, expected) {
        Ok(())
    } else {
        Err(RunSetupError::BaseDigestMismatch)
    }
}

/// Whether `path` lies inside `dir` (or is it), component by component.
pub open spec fn inside(path: Seq<char>, dir: Seq<char>) -> bool {
    components_prefix(components(dir), components(path))
}

/// The candidate workspace, as resolved, must be a directory that does not hold the
/// base image.
pub fn check_workspace(candidate_is_dir: bool, base_image: &str, candidate_workspace: &str) -> (r: Result<(), RunSetupError>)
    ensures
        r == (if !candidate_is_dir {
            Err::<(), RunSetupError>(RunSetupError::CandidateNotDirectory)
        } else if inside(base_image@, candidate_workspace@) {
            Err(RunSetupError::BaseInsideCandidate)
        } else {
            Ok(())
        }),
{
    if !candidate_is_dir {
        return Err(RunSetupError::CandidateNotDirectory);
    }
    if path_starts_with(base_image, candidate_workspace) {
        return Err(RunSetupError::BaseInsideCandidate);
    }
    Ok(())
}

/// The state root, as resolved, must lie outside the candidate workspace.
pub fn check_state_root(state_root: &str, candidate_workspace: &str) -> (r: Result<(), RunSetupError>)
    ensures
        r == (if inside(state_root@, candidate_workspace@) {
            Err::<(), RunSetupError>(RunSetupError::StateInsideCandidate)
        } else {
            Ok(())
        }),
{
    if path_starts_with(state_root, candidate_workspace) {
        Err(RunSetupError::StateInsideCandidate)
    } else {
        Ok(())
    }
}

/// Both SSH keys must be files.
pub fn check_keys(private_key_is_file: bool, host_key_is_file: bool) -> (r: Result<(), RunSetupError>)
    ensures
        r == (if !private_key_is_file {
            Err::<(), RunSetupError>(RunSetupError::PrivateKeyNotFile)
        } else if !host_key_is_file {
            Err(RunSetupError::HostKeyNotFile)
        } else {
            Ok(())
        }),
{
    if !private_key_is_file {
        return Err(RunSetupError::PrivateKeyNotFile);
    }
    if !host_key_is_file {
        return Err(RunSetupError::HostKeyNotFile);
    }
    Ok(())
}

fn owned(s: &str) -> (r: String)
    ensures
        r@ == s@,
{
    let mut o = String::new();
    push_str(&mut o, s);
    o
}

impl RunConfig {
    /// A new run with identifier `id` under `state_root`: its state in the directory named
    /// by the identifier, its workspace in `workspace` there with the candidate at
    /// `workspace/current`, and the standard machine: 4096 MiB, four CPUs, a 1280 by 720
    /// display, SSH on port 2222 as `avm`.
    pub fn assemble(
        id: &str,
        base_image: &str,
        state_root: &str,
        guest_state_paths: Vec<String>,
        guest_ssh_private_key: &str,
        guest_ssh_host_public_key: &str,
        host_boot_id: Option<String>,
    ) -> (r: RunConfig)
        ensures
            r.id@ == id@,
            r.base_image@ == base_image@,
            r.state_dir@ == path_join(state_root@, id@),
            r.workspace_root@ == path_join(path_join(state_root@, id@), "workspace"@),
            r.candidate_workspace@ == path_join(path_join(path_join(state_root@, id@), "workspace"@), "current"@),
            r.guest_state_paths@ == guest_state_paths@,
            r.memory_mib == 4096,
            r.cpus == 4,
            r.width == 1280,
            r.height == 720,
            r.host_boot_id == host_boot_id,
            r.guest_ssh_port == 2222,
            r.guest_ssh_user@ == "avm"@,
            r.guest_ssh_private_key@ == guest_ssh_private_key@,
            r.guest_ssh_host_public_key@ == guest_ssh_host_public_key@,
    {
        let state_dir = join(state_root, id);
        let workspace_root = join(state_dir.as_str(), "workspace");
        let candidate_workspace = join(workspace_root.as_str(), "current");
        RunConfig {
            id: owned(id),
            base_image: owned(base_image),
            workspace_root,
            candidate_workspace,
            guest_state_paths,
            state_dir,
            memory_mib: 4096,
            cpus: 4,
            width: 1280,
            height: 720,
            host_boot_id,
            guest_ssh_port: 2222,
            guest_ssh_user: owned("avm"),
            guest_ssh_private_key: owned(guest_ssh_private_key),
            guest_ssh_host_public_key: owned(guest_ssh_host_public_key),
        }
    }
}

} // verus!
