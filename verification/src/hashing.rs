//! Cryptographic verification of fetched repository databases: a database
//! artifact is accepted only when the lowercase hex SHA-512 digest of its
//! bytes equals, byte for byte, the digest fetched from the sidecar hash
//! resource.

use vstd::prelude::*;
use crate::text::bytes_eq;

verus! {

/// The SHA-512 digest of a byte sequence, as computed by the `ring` crate.
pub uninterp spec fn sha512_of(data: Seq<u8>) -> Seq<u8>;

/// The ASCII code of the lowercase hex digit for a value below 16.
pub open spec fn hex_digit(n: u8) -> u8 {
    if n < 10 {
        (48 + n) as u8
    } else {
        (87 + n) as u8
    }
}

/// Lowercase hex encoding: two digits per byte, high nibble first.
pub open spec fn hex_of(data: Seq<u8>) -> Seq<u8>
    decreases data.len(),
{
    if data.len() == 0 {
        Seq::empty()
    } else {
        seq![hex_digit(data[0] / 16), hex_digit(data[0] % 16)] + hex_of(data.skip(1))
    }
}

/// Relies on `ring::digest::digest` with the SHA-512 algorithm: the digest is
/// a function of the input bytes alone, 64 bytes long.
#[verifier::external_body]
pub(crate) fn sha512(data: &Vec<u8>) -> (r: Vec<u8>)
    ensures
        r@ == sha512_of(data@),
        r@.len() == 64,
{
    ring::digest::digest(&ring::digest::SHA512, data.as_slice()).as_ref().to_vec()
}

/// Relies on `hex::encode`: encodes bytes as lowercase hex, two digits per
/// byte, high nibble first.
#[verifier::external_body]
pub(crate) fn hex_lower(data: &Vec<u8>) -> (r: Vec<u8>)
    ensures
        r@ == hex_of(data@),
{
    hex::encode(data.as_slice()).into_bytes()
}

/// A payload satisfies a claimed digest exactly when the lowercase hex
/// SHA-512 of the payload equals the digest byte for byte (case-sensitive:
/// an uppercase digest never matches).
pub open spec fn artifact_matches(payload: Seq<u8>, digest: Seq<u8>) -> bool {
    hex_of(sha512_of(payload)) == digest
}

/// Decides whether a fetched database payload matches the digest fetched
/// from its sidecar hash resource.
pub fn verify_artifact(payload: &Vec<u8>, digest: &Vec<u8>) -> (r: bool)
    ensures
        r <==> artifact_matches(payload@, digest@),
{
    let d = sha512(payload);
    let h = hex_lower(&d);
    bytes_eq(h.as_slice(), digest.as_slice())
}

} // verus!
