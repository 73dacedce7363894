//! The hash primitive behind address and UUID derivation.

use vstd::prelude::*;

use sha2::Digest;

verus! {

/// The SHA-256 digest of a byte string.  Stated only by name: it is a pure
/// function of the input, computed by an outside implementation.
pub uninterp spec fn sha256_of(data: Seq<u8>) -> Seq<u8>;

/// Relies on sha2::Sha256: the 32-byte digest depends on the input bytes
/// alone.
#[verifier::external_body]
pub fn sha256(data: &Vec<u8>) -> (r: Vec<u8>)
    ensures
        r@ == sha256_of(data@),
        r@.len() == 32,
{
    sha2::Sha256::digest(data.as_slice()).to_vec()
}

/// Two rounds of SHA-256, as address derivation uses it.
pub fn sha256_twice(data: &Vec<u8>) -> (r: Vec<u8>)
    ensures
        r@ == sha256_of(sha256_of(data@)),
        r@.len() == 32,
{
    let once = sha256(data);
    sha256(&once)
}

} // verus!
