//! The content digest used for archive verification, behind a trusted
//! wrapper around the `sha2` crate. The digest is named, not restated:
//! `sha256_of` stands for the SHA-256 digest of a byte sequence.

use vstd::prelude::*;

verus! {

/// The SHA-256 digest of `data`: a function of the bytes alone.
pub uninterp spec fn sha256_of(data: Seq<u8>) -> Seq<u8>;

/// Relies on sha2::Sha256: the digest is a function of the input bytes
/// alone, and is always 32 bytes long.
#[verifier::external_body]
pub fn sha256(data: &[u8]) -> (r: Vec<u8>)
    ensures
        r@ == sha256_of(data@),
        r@.len() == 32,
{
    let digest = <sha2::Sha256 as sha2::Digest>::digest(data);
    digest.to_vec()
}

} // verus!
