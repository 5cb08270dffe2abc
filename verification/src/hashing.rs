//! SHA-1 digests, computed by the `sha1` crate.

use sha1::{Digest, Sha1};
use vstd::prelude::*;

verus! {

/// The SHA-1 digest of a byte sequence: a fixed function of the input bytes
/// alone, left without an explicit definition here.
pub uninterp spec fn sha1_of(data: Seq<u8>) -> Seq<u8>;

/// Relies on `sha1::Sha1` through `digest::Digest::digest`: the digest
/// depends on the input bytes alone and is always 20 bytes long.
#[verifier::external_body]
pub(crate) fn sha1_digest(data: &Vec<u8>) -> (r: Vec<u8>)
    ensures
        r@ == sha1_of(data@),
        r@.len() == 20,
{
    Sha1::digest(data.as_slice()).to_vec()
}

} // verus!
