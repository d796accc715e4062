use sha2::Digest;
use vstd::prelude::*;

use crate::text::{digit_char, digit_str};

verus! {

/// The SHA-256 digest of `data`.
pub uninterp spec fn sha256(data: Seq<u8>) -> Seq<u8>;

/// Computes the SHA-256 digest through `sha2::Sha256::digest` (the `Digest`
/// trait of the `digest` crate). The result is `sha256` of the input, and it is
/// 32 bytes long (the hasher's output size, `U32`).
#[verifier::external_body]
fn sha256_digest(data: &[u8]) -> (d: Vec<u8>)
    ensures
        d@ == sha256(data@),
        d@.len() == 32,
{
    sha2::Sha256::digest(data).to_vec()
}

/// Bytes in lower-case hexadecimal, two digits per byte.
pub open spec fn spec_hex_bytes(bytes: Seq<u8>) -> Seq<char>
    decreases bytes.len(),
{
    if bytes.len() == 0 {
        Seq::empty()
    } else {
        spec_hex_bytes(bytes.drop_last()) + seq![
            digit_char((bytes.last() / 16) as nat),
            digit_char((bytes.last() % 16) as nat),
        ]
    }
}

/// The content hash the manifest records for an image: `sha256:` and the
/// digest of its bytes in lower-case hexadecimal.
pub open spec fn spec_content_hash(data: Seq<u8>) -> Seq<char> {
    "sha256:"@ + spec_hex_bytes(sha256(data))
}

/// Writes bytes in lower-case hexadecimal, two digits per byte.
pub fn format_hex_bytes(bytes: &[u8]) -> (s: String)
    ensures
        s@ == spec_hex_bytes(bytes@),
{
    let mut s = String::new();
    for i in 0..bytes.len()
        invariant
            s@ == spec_hex_bytes(bytes@.take(i as int)),
    {
        let b = bytes[i];
        s.append(digit_str((b / 16) as u128));
        s.append(digit_str((b % 16) as u128));
        assert(bytes@.take(i + 1).drop_last() =~= bytes@.take(i as int));
        assert(s@ =~= spec_hex_bytes(bytes@.take(i + 1)));
    }
    assert(bytes@.take(bytes.len() as int) =~= bytes@);
    s
}

/// The content hash of an image's bytes: `sha256:` and the hex digest.
pub fn content_hash(data: &[u8]) -> (s: String)
    ensures
        s@ == spec_content_hash(data@),
{
    let digest = sha256_digest(data);
    let hex = format_hex_bytes(digest.as_slice());
    let mut s = String::from_str("sha256:");
    s.append(hex.as_str());
    s
}

} // verus!

verus! {

/// Reads lower-case hexadecimal text back into bytes, two digits per byte.
pub open spec fn decode_hex_bytes(s: Seq<char>) -> Seq<u8>
    decreases s.len(),
{
    if s.len() < 2 {
        Seq::empty()
    } else {
        decode_hex_bytes(s.take(s.len() - 2)).push(
            (crate::text::digit_value(s[s.len() - 2]) * 16 + crate::text::digit_value(
                s[s.len() - 1],
            )) as u8,
        )
    }
}

proof fn lemma_decode_hex_bytes(bytes: Seq<u8>)
    ensures
        decode_hex_bytes(spec_hex_bytes(bytes)) == bytes,
        spec_hex_bytes(bytes).len() == 2 * bytes.len(),
    decreases bytes.len(),
{
    if bytes.len() > 0 {
        let b = bytes.last();
        let s = spec_hex_bytes(bytes);
        let prev = spec_hex_bytes(bytes.drop_last());
        lemma_decode_hex_bytes(bytes.drop_last());
        assert(s.take(s.len() - 2) =~= prev);
        let hi = (b / 16) as nat;
        let lo = (b % 16) as nat;
        assert(crate::text::digit_value(crate::text::digit_char(hi)) == hi);
        assert(crate::text::digit_value(crate::text::digit_char(lo)) == lo);
        assert(hi * 16 + lo == b);
        assert(bytes =~= bytes.drop_last().push(b));
    }
}

/// A content hash names the digest of the whole image: it is `sha256:`
/// followed by two hex digits per digest byte that read back as exactly
/// `sha256(data)`.
pub proof fn lemma_content_hash_names_digest(data: Seq<u8>)
    ensures
        spec_content_hash(data).len() == 7 + 2 * sha256(data).len(),
        spec_content_hash(data).take(7) == "sha256:"@,
        decode_hex_bytes(spec_content_hash(data).skip(7)) == sha256(data),
{
    reveal_strlit("sha256:");
    lemma_decode_hex_bytes(sha256(data));
    let h = spec_content_hash(data);
    assert(h.take(7) =~= "sha256:"@);
    assert(h.skip(7) =~= spec_hex_bytes(sha256(data)));
}

} // verus!
