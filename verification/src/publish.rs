//! Publishing a candidate workspace to a remote run: the remote AVM commands it issues,
//! the upload it makes, and the checks between them. Running the commands and building
//! the archive are the caller's.
use vstd::prelude::*;
use crate::text::{push_str, str_equal, string_from_chars, trim_chars, chars_of, trim};

verus! {

broadcast use vstd::string::group_string_axioms;

/// Why a publication stops.
#[derive(Clone, Copy, Debug, PartialEq, Eq, Structural)]
pub enum PublishError {
    SourceChanged,
    EmptyRemotePath,
}

impl PublishError {
    /// The human-readable description of the error.
    pub open spec fn text(&self) -> Seq<char> {
        match self {
            PublishError::SourceChanged => "source changed while publication archive was created; retry"@,
            PublishError::EmptyRemotePath => "remote transfer path is empty"@,
        }
    }

    /// Renders the description of the error.
    pub fn message(&self) -> (r: String)
        ensures
            r@ == self.text(),
    {
        let mut s = String::new();
        match self {
            PublishError::SourceChanged => push_str(&mut s, "source changed while publication archive was created; retry"),
            PublishError::EmptyRemotePath => push_str(&mut s, "remote transfer path is empty"),
        }
        s
    }
}

fn owned(s: &str) -> (r: String)
    ensures
        r@ == s@,
{
    let mut o = String::new();
    push_str(&mut o, s);
    o
}

/// The views of a list of strings.
pub open spec fn texts(v: Seq<String>) -> Seq<Seq<char>> {
    v.map_values(|s: String| s@)
}

/// The remote command that reports the publication state of a run.
pub fn publication_status_arguments(remote_run: &str) -> (r: Vec<String>)
    ensures
        texts(r@) == seq!["publication-status"@, "--run"@, remote_run@],
{
    let r = vec![owned("publication-status"), owned("--run"), owned(remote_run)];
    assert(texts(r@) =~= seq!["publication-status"@, "--run"@, remote_run@]);
    r
}

/// The remote command that prepares a transfer and prints where to upload it.
pub fn prepare_transfer_arguments(remote_run: &str, transfer_id: &str) -> (r: Vec<String>)
    ensures
        texts(r@) == seq!["prepare-transfer"@, "--run"@, remote_run@, "--transfer-id"@, transfer_id@],
{
    let r = vec![owned("prepare-transfer"), owned("--run"), owned(remote_run), owned("--transfer-id"), owned(transfer_id)];
    assert(texts(r@) =~= seq!["prepare-transfer"@, "--run"@, remote_run@, "--transfer-id"@, transfer_id@]);
    r
}

/// The remote command that applies an uploaded transfer.
pub fn apply_transfer_arguments(remote_run: &str, transfer_id: &str, sha256: &str, source_fingerprint: &str) -> (r: Vec<String>)
    ensures
        texts(r@) == seq![
            "apply-transfer"@, "--run"@, remote_run@, "--transfer-id"@, transfer_id@,
            "--sha256"@, sha256@, "--source-fingerprint"@, source_fingerprint@,
        ],
{
    let r = vec![
        owned("apply-transfer"), owned("--run"), owned(remote_run), owned("--transfer-id"), owned(transfer_id),
        owned("--sha256"), owned(sha256), owned("--source-fingerprint"), owned(source_fingerprint),
    ];
    assert(texts(r@) =~= seq![
        "apply-transfer"@, "--run"@, remote_run@, "--transfer-id"@, transfer_id@,
        "--sha256"@, sha256@, "--source-fingerprint"@, source_fingerprint@,
    ]);
    r
}

/// The local archive and file list of a transfer.
pub fn transfer_file_names(transfer_id: &str) -> (r: (String, String))
    ensures
        r.0@ == transfer_id@ + ".tar"@,
        r.1@ == transfer_id@ + ".files"@,
{
    let mut archive = owned(transfer_id);
    push_str(&mut archive, ".tar");
    let mut list = owned(transfer_id);
    push_str(&mut list, ".files");
    (archive, list)
}

/// The archive must hold the state that was fingerprinted before it was made.
pub fn check_archived_fingerprint(archived: &str, source: &str) -> (r: Result<(), PublishError>)
    ensures
        r == (if archived@ == source@ { Ok::<(), PublishError>(()) } else { Err(PublishError::SourceChanged) }),
{
    if str_equal(archived, source) {
        Ok(())
    } else {
        Err(PublishError::SourceChanged)
    }
}

/// The upload path the remote side printed, without surrounding whitespace; refused when
/// nothing is left.
pub fn remote_archive_path(printed: &str) -> (r: Result<String, PublishError>)
    ensures
        trim(printed@).len() == 0 ==> r == Err::<String, PublishError>(PublishError::EmptyRemotePath),
        trim(printed@).len() > 0 ==> (r matches Ok(p) && p@ == trim(printed@)),
{
    let c = chars_of(printed);
    let t = trim_chars(c.as_slice());
    if t.len() == 0 {
        return Err(PublishError::EmptyRemotePath);
    }
    Ok(string_from_chars(t.as_slice()))
}

/// The `gcloud` arguments that upload the archive to the remote path.
pub fn upload_arguments(project: &str, zone: &str, archive: &str, instance: &str, remote_archive: &str) -> (r: Vec<String>)
    ensures
        texts(r@) == seq![
            "compute"@, "scp"@, "--quiet"@, "--project"@, project@, "--zone"@, zone@, archive@,
            instance@ + ":"@ + remote_archive@,
        ],
{
    let mut target = owned(instance);
    push_str(&mut target, ":");
    push_str(&mut target, remote_archive);
    let r = vec![
        owned("compute"), owned("scp"), owned("--quiet"), owned("--project"), owned(project), owned("--zone"),
        owned(zone), owned(archive), target,
    ];
    assert(texts(r@) =~= seq![
        "compute"@, "scp"@, "--quiet"@, "--project"@, project@, "--zone"@, zone@, archive@,
        instance@ + ":"@ + remote_archive@,
    ]);
    r
}

} // verus!
