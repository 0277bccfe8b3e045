//! Content-addressed artifact naming: `sha256:<hex>` references and the file each one
//! names under a store root.
use vstd::prelude::*;
use crate::digest::{hex_lower, sha256_digest, sha256_hex, sha256_hex_string};
use crate::paths::{join, path_join};
use crate::text::{chars_of, has_prefix, push_str, starts_with, str_equal, string_from_chars};

verus! {

broadcast use vstd::string::group_string_axioms;

/// The scheme that starts every artifact reference.
pub open spec fn ref_prefix() -> Seq<char> {
    seq!['s', 'h', 'a', '2', '5', '6', ':']
}

/// Why an artifact reference or digest was refused.
#[derive(Clone, Copy, Debug, PartialEq, Eq, Structural)]
pub enum ArtifactError {
    /// The reference does not start with `sha256:`.
    MissingPrefix,
    /// The digest is not 64 hexadecimal characters.
    InvalidDigest,
}

impl ArtifactError {
    /// The human-readable description of the error.
    pub open spec fn text(&self) -> Seq<char> {
        match *self {
            ArtifactError::MissingPrefix => "artifact reference must start with sha256:"@,
            ArtifactError::InvalidDigest => "invalid SHA-256 artifact digest"@,
        }
    }

    /// Renders the description of the error.
    pub fn message(&self) -> (r: String)
        ensures
            r@ == self.text(),
    {
        let mut s = String::new();
        match *self {
            ArtifactError::MissingPrefix => push_str(&mut s, "artifact reference must start with sha256:"),
            ArtifactError::InvalidDigest => push_str(&mut s, "invalid SHA-256 artifact digest"),
        }
        s
    }
}

/// The digest named by a reference: what follows `sha256:`.
pub open spec fn parse_ref_spec(r: Seq<char>) -> Result<Seq<char>, ArtifactError> {
    if has_prefix(r, ref_prefix()) {
        Ok(r.skip(7))
    } else {
        Err(ArtifactError::MissingPrefix)
    }
}

/// An ASCII hexadecimal digit, in either case.
pub open spec fn is_hex_digit(c: char) -> bool {
    ||| '0' <= c <= '9'
    ||| 'a' <= c <= 'f'
    ||| 'A' <= c <= 'F'
}

/// Exactly 64 hexadecimal characters.
pub open spec fn valid_digest(d: Seq<char>) -> bool {
    d.len() == 64 && forall|i: int| 0 <= i < d.len() ==> is_hex_digit(#[trigger] d[i])
}

/// Whether a character is an ASCII hexadecimal digit.
pub fn hex_digit_char(c: char) -> (r: bool)
    ensures
        r == is_hex_digit(c),
{
    ('0' <= c && c <= '9') || ('a' <= c && c <= 'f') || ('A' <= c && c <= 'F')
}

/// Whether `s` is exactly `length` hexadecimal characters.
pub fn all_hex(s: &str, length: usize) -> (r: bool)
    ensures
        r == (s@.len() == length && forall|i: int| 0 <= i < s@.len() ==> is_hex_digit(#[trigger] s@[i])),
{
    let c = chars_of(s);
    if c.len() != length {
        return false;
    }
    let mut i: usize = 0;
    while i < c.len()
        invariant
            c@ == s@,
            i <= c@.len(),
            forall|k: int| 0 <= k < i ==> is_hex_digit(#[trigger] c@[k]),
        decreases c@.len() - i,
    {
        if !hex_digit_char(c[i]) {
            return false;
        }
        i = i + 1;
    }
    true
}

/// Splits the digest out of an artifact reference.
pub fn parse_ref(artifact_ref: &str) -> (r: Result<String, ArtifactError>)
    ensures
        match parse_ref_spec(artifact_ref@) {
            Ok(d) => r matches Ok(s) && s@ == d,
            Err(e) => r == Err::<String, ArtifactError>(e),
        },
{
    proof {
        reveal_strlit("sha256:");
        assert("sha256:"@ =~= ref_prefix());
    }
    if !starts_with(artifact_ref, "sha256:") {
        return Err(ArtifactError::MissingPrefix);
    }
    let c = chars_of(artifact_ref);
    let mut d: Vec<char> = Vec::new();
    let mut i: usize = 7;
    while i < c.len()
        invariant
            7 <= i <= c@.len(),
            d@ == c@.subrange(7, i as int),
        decreases c@.len() - i,
    {
        d.push(c[i]);
        assert(d@ =~= c@.subrange(7, i + 1));
        i = i + 1;
    }
    assert(d@ =~= artifact_ref@.skip(7));
    Ok(string_from_chars(d.as_slice()))
}

/// Accepts exactly 64 hexadecimal characters.
pub fn validate_digest(digest: &str) -> (r: Result<(), ArtifactError>)
    ensures
        r is Ok <==> valid_digest(digest@),
        r is Err ==> r == Err::<(), ArtifactError>(ArtifactError::InvalidDigest),
{
    if all_hex(digest, 64) {
        Ok(())
    } else {
        Err(ArtifactError::InvalidDigest)
    }
}

/// The reference that names some content: `sha256:` and the lower-case hex digest.
pub open spec fn artifact_reference_spec(bytes: Seq<u8>) -> Seq<char> {
    ref_prefix() + sha256_hex(bytes)
}

/// A content reference reads back as the content's digest: `sha256:` followed by the
/// lower-case hexadecimal SHA-256 digest, two digits per digest byte.
pub proof fn law_reference_reads_back(bytes: Seq<u8>)
    ensures
        parse_ref_spec(artifact_reference_spec(bytes)) == Ok::<Seq<char>, ArtifactError>(sha256_hex(bytes)),
        sha256_hex(bytes).len() == 2 * sha256_digest(bytes).len(),
        forall|i: int| 0 <= i < sha256_hex(bytes).len() ==> is_hex_digit(#[trigger] sha256_hex(bytes)[i]),
{
    let r = artifact_reference_spec(bytes);
    assert(ref_prefix().len() == 7);
    assert(r.take(7) =~= ref_prefix());
    assert(r.skip(7) =~= sha256_hex(bytes));
    crate::digest::law_hex_encoding(sha256_digest(bytes));
    assert forall|i: int| 0 <= i < sha256_hex(bytes).len() implies is_hex_digit(#[trigger] sha256_hex(bytes)[i]) by {
        assert(('0' <= hex_lower(sha256_digest(bytes))[i] <= '9') || ('a' <= hex_lower(sha256_digest(bytes))[i] <= 'f'));
    }
}

/// The reference that names some content.
pub fn artifact_reference(bytes: &[u8]) -> (r: String)
    ensures
        r@ == artifact_reference_spec(bytes@),
{
    let mut s = String::new();
    proof {
        reveal_strlit("sha256:");
    }
    push_str(&mut s, "sha256:");
    let h = sha256_hex_string(bytes);
    push_str(&mut s, h.as_str());
    s
}

/// Whether `bytes` hash to `digest`.
pub fn content_matches(bytes: &[u8], digest: &str) -> (r: bool)
    ensures
        r == (sha256_hex(bytes@) == digest@),
{
    let h = sha256_hex_string(bytes);
    str_equal(h.as_str(), digest)
}

/// A content-addressed store rooted at a directory.
#[derive(Clone, Debug)]
pub struct ArtifactStore {
    root: String,
}

/// The file that holds the artifact with a given digest: `<root>/sha256/<first two>/<digest>`.
pub open spec fn digest_path(root: Seq<char>, digest: Seq<char>) -> Seq<char> {
    path_join(path_join(path_join(root, seq!['s', 'h', 'a', '2', '5', '6']), digest.take(2)), digest)
}

impl ArtifactStore {
    pub closed spec fn root_view(&self) -> Seq<char> {
        self.root@
    }

    /// A store whose files live under `root`.
    pub fn with_root(root: &str) -> (r: Self)
        ensures
            r.root_view() == root@,
    {
        let mut s = String::new();
        push_str(&mut s, root);
        ArtifactStore { root: s }
    }

    /// The directory the store lives in.
    pub fn root(&self) -> (r: String)
        ensures
            r@ == self.root_view(),
    {
        let mut s = String::new();
        push_str(&mut s, self.root.as_str());
        s
    }

    /// The file of a digest, after checking that it is one.
    pub fn path_for_digest(&self, digest: &str) -> (r: Result<String, ArtifactError>)
        ensures
            valid_digest(digest@) ==> (r matches Ok(p) && p@ == digest_path(self.root_view(), digest@)),
            !valid_digest(digest@) ==> r == Err::<String, ArtifactError>(ArtifactError::InvalidDigest),
    {
        validate_digest(digest)?;
        let c = chars_of(digest);
        let two = string_from_chars(&[c[0], c[1]]);
        assert(two@ =~= digest@.take(2));
        proof {
            reveal_strlit("sha256");
            assert("sha256"@ =~= seq!['s', 'h', 'a', '2', '5', '6']);
        }
        let a = join(self.root.as_str(), "sha256");
        let b = join(a.as_str(), two.as_str());
        Ok(join(b.as_str(), digest))
    }

    /// The file of the artifact a reference names.
    pub fn path(&self, artifact_ref: &str) -> (r: Result<String, ArtifactError>)
        ensures
            match parse_ref_spec(artifact_ref@) {
                Err(e) => r == Err::<String, ArtifactError>(e),
                Ok(d) => if valid_digest(d) {
                    r matches Ok(p) && p@ == digest_path(self.root_view(), d)
                } else {
                    r == Err::<String, ArtifactError>(ArtifactError::InvalidDigest)
                },
            },
    {
        let digest = parse_ref(artifact_ref)?;
        self.path_for_digest(digest.as_str())
    }
}

} // verus!
