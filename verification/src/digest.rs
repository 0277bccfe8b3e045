//! SHA-256 content addressing and lower-case hexadecimal encoding.
use vstd::prelude::*;
use sha2::Digest;

verus! {

/// The SHA-256 digest of a byte sequence, as computed by the `sha2` crate.
pub uninterp spec fn sha256_digest(data: Seq<u8>) -> Seq<u8>;

/// Calls `sha2::Sha256::digest`. The contract claims that the result is the
/// named digest of the input and that a SHA-256 digest has 32 bytes.
#[verifier::external_body]
pub fn sha256(data: &[u8]) -> (d: Vec<u8>)
    ensures
        d@ == sha256_digest(data@),
        d@.len() == 32,
{
    sha2::Sha256::digest(data).to_vec()
}

/// The lower-case hexadecimal digit for a value below 16.
pub open spec fn hex_digit(v: nat) -> char {
    if v < 10 {
        ((48 + v) as u32) as char
    } else {
        ((87 + v) as u32) as char
    }
}

/// Lower-case hexadecimal encoding, two digits per byte, most significant nibble first.
pub open spec fn hex_lower(bytes: Seq<u8>) -> Seq<char>
    decreases bytes.len(),
{
    if bytes.len() == 0 {
        Seq::empty()
    } else {
        hex_lower(bytes.drop_last()) + seq![
            hex_digit((bytes.last() / 16) as nat),
            hex_digit((bytes.last() % 16) as nat),
        ]
    }
}

/// The value of a lower-case hexadecimal digit.
pub open spec fn hex_value(c: char) -> int {
    if '0' <= c <= '9' {
        c as int - '0' as int
    } else {
        c as int - 'a' as int + 10
    }
}

/// Hexadecimal encoding writes two lower-case digits per byte, the high nibble first, so
/// that each byte is read back from its two digits.
pub proof fn law_hex_encoding(bytes: Seq<u8>)
    ensures
        hex_lower(bytes).len() == 2 * bytes.len(),
        forall|i: int| 0 <= i < hex_lower(bytes).len() ==> ('0' <= #[trigger] hex_lower(bytes)[i] <= '9') || ('a'
            <= hex_lower(bytes)[i] <= 'f'),
        forall|i: int| 0 <= i < bytes.len() ==> 16 * hex_value(hex_lower(bytes)[2 * i]) + hex_value(
            hex_lower(bytes)[2 * i + 1],
        ) == #[trigger] bytes[i],
    decreases bytes.len(),
{
    if bytes.len() > 0 {
        let rest = bytes.drop_last();
        law_hex_encoding(rest);
        let b = bytes.last();
        let hi = (b / 16) as nat;
        let lo = (b % 16) as nat;
        let h = hex_lower(bytes);
        assert(h == hex_lower(rest) + seq![hex_digit(hi), hex_digit(lo)]);
        assert(hex_value(hex_digit(hi)) == hi);
        assert(hex_value(hex_digit(lo)) == lo);
        assert forall|i: int| 0 <= i < h.len() implies ('0' <= #[trigger] h[i] <= '9') || ('a' <= h[i] <= 'f') by {
            if i < hex_lower(rest).len() {
                assert(h[i] == hex_lower(rest)[i]);
            }
        }
        assert forall|i: int| 0 <= i < bytes.len() implies 16 * hex_value(h[2 * i]) + hex_value(h[2 * i + 1])
            == #[trigger] bytes[i] by {
            if i < rest.len() {
                assert(h[2 * i] == hex_lower(rest)[2 * i]);
                assert(h[2 * i + 1] == hex_lower(rest)[2 * i + 1]);
                assert(bytes[i] == rest[i]);
            }
        }
    }
}

fn hex_digit_exec(v: u8) -> (c: char)
    requires
        v < 16,
    ensures
        c == hex_digit(v as nat),
{
    if v < 10 {
        (48u8 + v) as char
    } else {
        (87u8 + v) as char
    }
}

/// Lower-case hexadecimal encoding of bytes.
pub fn hex_encode(bytes: &[u8]) -> (s: String)
    ensures
        s@ == hex_lower(bytes@),
{
    let mut s = String::new();
    for i in 0..bytes.len()
        invariant
            s@ == hex_lower(bytes@.take(i as int)),
    {
        let b = bytes[i];
        crate::text::push_char(&mut s, hex_digit_exec(b / 16));
        crate::text::push_char(&mut s, hex_digit_exec(b % 16));
        assert(bytes@.take(i + 1).drop_last() =~= bytes@.take(i as int));
        assert(s@ =~= hex_lower(bytes@.take(i + 1)));
    }
    assert(bytes@.take(bytes@.len() as int) =~= bytes@);
    s
}

/// The hexadecimal SHA-256 digest of bytes.
pub open spec fn sha256_hex(data: Seq<u8>) -> Seq<char> {
    hex_lower(sha256_digest(data))
}

/// Lower-case hexadecimal SHA-256 of bytes.
pub fn sha256_hex_string(data: &[u8]) -> (s: String)
    ensures
        s@ == sha256_hex(data@),
{
    let d = sha256(data);
    hex_encode(d.as_slice())
}

/// The hexadecimal encoding has two characters per byte.
pub proof fn lemma_hex_lower_len(bytes: Seq<u8>)
    ensures
        hex_lower(bytes).len() == 2 * bytes.len(),
    decreases bytes.len(),
{
    if bytes.len() > 0 {
        lemma_hex_lower_len(bytes.drop_last());
    }
}

} // verus!
