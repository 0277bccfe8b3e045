//! The rules of promoting a stopped run's disk to a new base image: what must hold of
//! the request, the overlay, the output path and its sidecars, the overlay's backing
//! chain, and the converted image before it is published. Inspecting files and running
//! `qemu-img` are the caller's.
use vstd::prelude::*;
use crate::paths::{components, components_prefix, file_name_of, path_starts_with};
use crate::text::{push_str, str_equal};

verus! {

broadcast use vstd::string::group_string_axioms;

/// Why a run's disk cannot be promoted.
#[derive(Clone, Copy, Debug, PartialEq, Eq, Structural)]
pub enum PromotionError {
    NotConfirmed,
    VmRunning,
    OverlayMissing,
    OverlayNotRegular,
    NotQcow2Name,
    OutputExists,
    InsideRunState,
    SidecarExists,
    InsideCandidate,
    NoBackingImage,
    NonQcow2Chain,
    EncryptedChain,
    BaseNotInChain,
    OverlayNotQcow2,
    NoVirtualSize,
    PromotedNotQcow2,
    VirtualSizeChanged,
    BackingRetained,
    SnapshotsRetained,
}

impl PromotionError {
    /// The human-readable description of the error.
    pub open spec fn text(&self) -> Seq<char> {
        match self {
            PromotionError::NotConfirmed => "promotion requires --confirm-sanitized"@,
            PromotionError::VmRunning => "VM must be stopped before base promotion"@,
            PromotionError::OverlayMissing => "run overlay does not exist"@,
            PromotionError::OverlayNotRegular => "run overlay must be a regular non-symlink file"@,
            PromotionError::NotQcow2Name => "promoted base output must end in .qcow2"@,
            PromotionError::OutputExists => "promoted base output already exists"@,
            PromotionError::InsideRunState => "promoted base must be outside the source run state"@,
            PromotionError::SidecarExists => "promoted base sidecar already exists"@,
            PromotionError::InsideCandidate => "promoted base must be outside the candidate workspace"@,
            PromotionError::NoBackingImage => "run overlay has no readable backing image"@,
            PromotionError::NonQcow2Chain => "run backing chain contains a non-qcow2 image"@,
            PromotionError::EncryptedChain => "encrypted run images cannot be promoted"@,
            PromotionError::BaseNotInChain => "run overlay backing chain does not contain the configured base image"@,
            PromotionError::OverlayNotQcow2 => "run overlay is not qcow2"@,
            PromotionError::NoVirtualSize => "qemu-img info omitted virtual-size"@,
            PromotionError::PromotedNotQcow2 => "promoted image is not qcow2"@,
            PromotionError::VirtualSizeChanged => "promoted image virtual size changed"@,
            PromotionError::BackingRetained => "promoted image still has a backing file"@,
            PromotionError::SnapshotsRetained => "promoted image retained internal snapshots"@,
        }
    }

    /// Renders the description of the error.
    pub fn message(&self) -> (r: String)
        ensures
            r@ == self.text(),
    {
        let mut s = String::new();
        match self {
            PromotionError::NotConfirmed => push_str(&mut s, "promotion requires --confirm-sanitized"),
            PromotionError::VmRunning => push_str(&mut s, "VM must be stopped before base promotion"),
            PromotionError::OverlayMissing => push_str(&mut s, "run overlay does not exist"),
            PromotionError::OverlayNotRegular => push_str(&mut s, "run overlay must be a regular non-symlink file"),
            PromotionError::NotQcow2Name => push_str(&mut s, "promoted base output must end in .qcow2"),
            PromotionError::OutputExists => push_str(&mut s, "promoted base output already exists"),
            PromotionError::InsideRunState => push_str(&mut s, "promoted base must be outside the source run state"),
            PromotionError::SidecarExists => push_str(&mut s, "promoted base sidecar already exists"),
            PromotionError::InsideCandidate => push_str(&mut s, "promoted base must be outside the candidate workspace"),
            PromotionError::NoBackingImage => push_str(&mut s, "run overlay has no readable backing image"),
            PromotionError::NonQcow2Chain => push_str(&mut s, "run backing chain contains a non-qcow2 image"),
            PromotionError::EncryptedChain => push_str(&mut s, "encrypted run images cannot be promoted"),
            PromotionError::BaseNotInChain => push_str(&mut s, "run overlay backing chain does not contain the configured base image"),
            PromotionError::OverlayNotQcow2 => push_str(&mut s, "run overlay is not qcow2"),
            PromotionError::NoVirtualSize => push_str(&mut s, "qemu-img info omitted virtual-size"),
            PromotionError::PromotedNotQcow2 => push_str(&mut s, "promoted image is not qcow2"),
            PromotionError::VirtualSizeChanged => push_str(&mut s, "promoted image virtual size changed"),
            PromotionError::BackingRetained => push_str(&mut s, "promoted image still has a backing file"),
            PromotionError::SnapshotsRetained => push_str(&mut s, "promoted image retained internal snapshots"),
        }
        s
    }
}

/// Promotion overwrites nothing of the guest's and must be asked for explicitly.
pub fn check_confirmation(confirm_sanitized: bool) -> (r: Result<(), PromotionError>)
    ensures
        r == (if confirm_sanitized { Ok::<(), PromotionError>(()) } else { Err(PromotionError::NotConfirmed) }),
{
    if confirm_sanitized {
        Ok(())
    } else {
        Err(PromotionError::NotConfirmed)
    }
}

/// What the run's overlay is on disk, its links not followed.
#[derive(Clone, Copy, Debug, PartialEq, Eq, Structural)]
pub enum OverlayKind {
    Missing,
    RegularFile,
    Other,
}

/// Whether a path names a file with the extension `qcow2`, as `Path::extension` reads it:
/// the final name ends in `.qcow2` after at least one other character.
pub open spec fn has_qcow2_extension(p: Seq<char>) -> bool {
    match file_name_of(p) {
        Some(n) => n.len() > 6 && n.subrange(n.len() - 6, n.len() as int) == ".qcow2"@,
        None => false,
    }
}

/// The first failure of the checks on a stopped VM, its overlay and the requested output.
pub open spec fn target_error(vm_running: bool, overlay: OverlayKind, output: Seq<char>, output_exists: bool) -> Option<PromotionError> {
    if vm_running {
        Some(PromotionError::VmRunning)
    } else if overlay == OverlayKind::Missing {
        Some(PromotionError::OverlayMissing)
    } else if overlay == OverlayKind::Other {
        Some(PromotionError::OverlayNotRegular)
    } else if !has_qcow2_extension(output) {
        Some(PromotionError::NotQcow2Name)
    } else if output_exists {
        Some(PromotionError::OutputExists)
    } else {
        None
    }
}

fn is_qcow2_name(output: &str) -> (r: bool)
    ensures
        r == has_qcow2_extension(output@),
{
    let name = match crate::paths::file_name(output) {
        Some(n) => n,
        None => return false,
    };
    let c = crate::text::chars_of(name.as_str());
    let n = c.len();
    if n <= 6 {
        return false;
    }
    let suffix = ['.', 'q', 'c', 'o', 'w', '2'];
    proof {
        reveal_strlit(".qcow2");
    }
    let mut i: usize = 0;
    while i < 6
        invariant
            n == c@.len(),
            n > 6,
            file_name_of(output@) == Some(c@),
            suffix@ == ".qcow2"@,
            i <= 6,
            forall|k: int| 0 <= k < i ==> c@[n - 6 + k] == suffix@[k],
        decreases 6 - i,
    {
        if c[n - 6 + i] != suffix[i] {
            assert(c@.subrange(n - 6, n as int)[i as int] != ".qcow2"@[i as int]);
            return false;
        }
        i = i + 1;
    }
    assert(c@.subrange(n - 6, n as int) =~= ".qcow2"@);
    true
}

/// Checks a promotion request once the run is locked: the VM is stopped, the overlay is
/// a regular file that is no link, and the output names a `.qcow2` file that does not
/// exist yet.
pub fn check_target(vm_running: bool, overlay: OverlayKind, output: &str, output_exists: bool) -> (r: Result<(), PromotionError>)
    ensures
        match target_error(vm_running, overlay, output@, output_exists) {
            Some(e) => r == Err::<(), PromotionError>(e),
            None => r is Ok,
        },
{
    if vm_running {
        return Err(PromotionError::VmRunning);
    }
    match overlay {
        OverlayKind::Missing => return Err(PromotionError::OverlayMissing),
        OverlayKind::Other => return Err(PromotionError::OverlayNotRegular),
        OverlayKind::RegularFile => {},
    }
    if !is_qcow2_name(output) {
        return Err(PromotionError::NotQcow2Name);
    }
    if output_exists {
        return Err(PromotionError::OutputExists);
    }
    Ok(())
}

/// The manifest and checksum files published beside a promoted base.
pub fn sidecar_paths(output: &str) -> (r: (String, String))
    ensures
        r.0@ == output@ + ".avm.json"@,
        r.1@ == output@ + ".sha256"@,
{
    let mut manifest = String::new();
    push_str(&mut manifest, output);
    push_str(&mut manifest, ".avm.json");
    let mut checksum = String::new();
    push_str(&mut checksum, output);
    push_str(&mut checksum, ".sha256");
    (manifest, checksum)
}

/// Whether `path` lies inside `dir` (or is it), component by component.
pub open spec fn inside(path: Seq<char>, dir: Seq<char>) -> bool {
    components_prefix(components(dir), components(path))
}

/// Checks where the promoted base will stand, given its canonical path: outside the run's
/// state, with neither sidecar present, and outside the candidate workspace.
pub fn check_location(output: &str, state_dir: &str, candidate_workspace: &str, sidecar_exists: bool) -> (r: Result<(), PromotionError>)
    ensures
        r == (if inside(output@, state_dir@) {
            Err::<(), PromotionError>(PromotionError::InsideRunState)
        } else if sidecar_exists {
            Err(PromotionError::SidecarExists)
        } else if inside(output@, candidate_workspace@) {
            Err(PromotionError::InsideCandidate)
        } else {
            Ok(())
        }),
{
    if path_starts_with(output, state_dir) {
        return Err(PromotionError::InsideRunState);
    }
    if sidecar_exists {
        return Err(PromotionError::SidecarExists);
    }
    if path_starts_with(output, candidate_workspace) {
        return Err(PromotionError::InsideCandidate);
    }
    Ok(())
}

/// An image of the overlay's backing chain, as `qemu-img info --backing-chain` reports it.
pub struct ChainImage {
    /// `format`, when a string.
    pub format: Option<String>,
    /// `encrypted`, when a boolean.
    pub encrypted: Option<bool>,
    /// Whether `filename` resolves to the configured base image.
    pub is_configured_base: bool,
}

/// Whether a reported format is `qcow2`.
pub open spec fn is_qcow2(format: Option<String>) -> bool {
    format matches Some(f) && f@ == "qcow2"@
}

/// The first failure of the checks on a backing chain.
pub open spec fn chain_error(chain: Seq<ChainImage>) -> Option<PromotionError> {
    if chain.len() < 2 {
        Some(PromotionError::NoBackingImage)
    } else if exists|i: int| 0 <= i < chain.len() && !is_qcow2(#[trigger] chain[i].format) {
        Some(PromotionError::NonQcow2Chain)
    } else if exists|i: int| 0 <= i < chain.len() && #[trigger] chain[i].encrypted == Some(true) {
        Some(PromotionError::EncryptedChain)
    } else if !exists|i: int| 0 <= i < chain.len() && #[trigger] chain[i].is_configured_base {
        Some(PromotionError::BaseNotInChain)
    } else {
        None
    }
}

fn format_is_qcow2(format: &Option<String>) -> (r: bool)
    ensures
        r == is_qcow2(*format),
{
    match format {
        Some(f) => str_equal(f.as_str(), "qcow2"),
        None => false,
    }
}

/// Checks the overlay's backing chain (the overlay first): it has a backing image, every
/// image is an unencrypted qcow2, and the configured base is among them.
pub fn check_backing_chain(chain: &[ChainImage]) -> (r: Result<(), PromotionError>)
    ensures
        match chain_error(chain@) {
            Some(e) => r == Err::<(), PromotionError>(e),
            None => r is Ok,
        },
{
    let n = chain.len();
    if n < 2 {
        return Err(PromotionError::NoBackingImage);
    }
    let mut i: usize = 0;
    while i < n
        invariant
            n == chain@.len(),
            n >= 2,
            i <= n,
            forall|k: int| 0 <= k < i ==> is_qcow2(#[trigger] chain@[k].format),
        decreases n - i,
    {
        if !format_is_qcow2(&chain[i].format) {
            assert(!is_qcow2(chain@[i as int].format));
            return Err(PromotionError::NonQcow2Chain);
        }
        i = i + 1;
    }
    i = 0;
    while i < n
        invariant
            n == chain@.len(),
            n >= 2,
            i <= n,
            forall|k: int| 0 <= k < n ==> is_qcow2(#[trigger] chain@[k].format),
            forall|k: int| 0 <= k < i ==> #[trigger] chain@[k].encrypted != Some(true),
        decreases n - i,
    {
        if chain[i].encrypted == Some(true) {
            assert(chain@[i as int].encrypted == Some(true));
            return Err(PromotionError::EncryptedChain);
        }
        i = i + 1;
    }
    i = 0;
    while i < n
        invariant
            n == chain@.len(),
            n >= 2,
            i <= n,
            forall|k: int| 0 <= k < n ==> is_qcow2(#[trigger] chain@[k].format),
            forall|k: int| 0 <= k < n ==> #[trigger] chain@[k].encrypted != Some(true),
            forall|k: int| 0 <= k < i ==> !(#[trigger] chain@[k].is_configured_base),
        decreases n - i,
    {
        if chain[i].is_configured_base {
            assert(chain@[i as int].is_configured_base);
            return Ok(());
        }
        i = i + 1;
    }
    Err(PromotionError::BaseNotInChain)
}

/// The overlay's virtual size, from its `qemu-img info`: it must be a qcow2 that reports
/// its size.
pub fn source_virtual_size(format: &Option<String>, virtual_size: Option<u64>) -> (r: Result<u64, PromotionError>)
    ensures
        r == (if !is_qcow2(*format) {
            Err::<u64, PromotionError>(PromotionError::OverlayNotQcow2)
        } else {
            match virtual_size {
                Some(v) => Ok(v),
                None => Err(PromotionError::NoVirtualSize),
            }
        }),
{
    if !format_is_qcow2(format) {
        return Err(PromotionError::OverlayNotQcow2);
    }
    match virtual_size {
        Some(v) => Ok(v),
        None => Err(PromotionError::NoVirtualSize),
    }
}

/// What `qemu-img info` reports of the converted image.
pub struct PromotedImage {
    /// `format`, when a string.
    pub format: Option<String>,
    /// `virtual-size`, when an unsigned integer.
    pub virtual_size: Option<u64>,
    /// Whether `backing-filename` is present.
    pub has_backing_filename: bool,
    /// The number of `snapshots`, when that is an array.
    pub snapshot_count: Option<usize>,
}

/// Checks the converted image against the overlay: a standalone qcow2 of the same
/// virtual size without internal snapshots.
pub fn check_promoted_image(source_size: u64, image: &PromotedImage) -> (r: Result<(), PromotionError>)
    ensures
        r == (if !is_qcow2(image.format) {
            Err::<(), PromotionError>(PromotionError::PromotedNotQcow2)
        } else if image.virtual_size != Some(source_size) {
            Err(PromotionError::VirtualSizeChanged)
        } else if image.has_backing_filename {
            Err(PromotionError::BackingRetained)
        } else if image.snapshot_count matches Some(c) && c > 0 {
            Err(PromotionError::SnapshotsRetained)
        } else {
            Ok(())
        }),
{
    if !format_is_qcow2(&image.format) {
        return Err(PromotionError::PromotedNotQcow2);
    }
    if image.virtual_size != Some(source_size) {
        return Err(PromotionError::VirtualSizeChanged);
    }
    if image.has_backing_filename {
        return Err(PromotionError::BackingRetained);
    }
    match image.snapshot_count {
        Some(c) => if c > 0 {
            return Err(PromotionError::SnapshotsRetained);
        },
        None => {},
    }
    Ok(())
}

/// The name of the file a conversion writes before it is published.
pub fn staging_name(id: &str) -> (r: String)
    ensures
        r@ == ".avm-promote-"@ + id@ + ".qcow2"@,
{
    let mut s = String::new();
    push_str(&mut s, ".avm-promote-");
    push_str(&mut s, id);
    push_str(&mut s, ".qcow2");
    s
}

/// The checksum file's line: the digest, two spaces, the base's file name.
pub fn checksum_line(sha256: &str, file_name: &str) -> (r: String)
    ensures
        r@ == sha256@ + "  "@ + file_name@ + "\n"@,
{
    let mut s = String::new();
    push_str(&mut s, sha256);
    push_str(&mut s, "  ");
    push_str(&mut s, file_name);
    push_str(&mut s, "\n");
    s
}

} // verus!
