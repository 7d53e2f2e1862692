//! Selector derivation: the first four bytes of the Keccak-256 digest of an
//! operation's canonical signature.

use vstd::prelude::*;
use crate::bytes::copy_range;

verus! {

/// The Keccak-256 digest of `input`, named but not spelled out: it is a
/// function of the input bytes alone.
pub uninterp spec fn keccak_of(input: Seq<u8>) -> Seq<u8>;

/// Relies on `ethers::utils::keccak256`: the 32-byte Keccak-256 digest of the
/// input, depending on the input bytes alone.
#[verifier::external_body]
fn keccak256_digest(input: &[u8]) -> (r: Vec<u8>)
    ensures
        r@ == keccak_of(input@),
        r@.len() == 32,
{
    ethers::utils::keccak256(input).to_vec()
}

/// The four-byte selector derived from a canonical signature.
pub open spec fn spec_selector_of(sig: Seq<u8>) -> Seq<u8> {
    keccak_of(sig).subrange(0, 4)
}

/// Computes the selector of a canonical signature: the first four bytes of
/// its Keccak-256 digest.
pub fn selector_of_signature(sig: &[u8]) -> (r: Vec<u8>)
    ensures
        r@ == spec_selector_of(sig@),
        r@.len() == 4,
{
    let digest = keccak256_digest(sig);
    copy_range(digest.as_slice(), 0, 4)
}

} // verus!
