//! Message digests, reduced modulo the group order.

use crate::crypto::uint::U256;
use crate::curves::secp256k1::{group_order, Secp256k1Params};
use crate::integer::be_value;
use sha2::Digest;
use vstd::prelude::*;

verus! {

/// The 32 bytes of the SHA-256 digest of a message.
pub uninterp spec fn sha256_digest(message: Seq<u8>) -> Seq<u8>;

/// `Sha256::digest`: the SHA-256 digest of the message.
#[verifier::external_body]
fn sha256(message: &[u8]) -> (r: [u8; 32])
    ensures
        r@ == sha256_digest(message@),
{
    sha2::Sha256::digest(message).into()
}

/// The SHA-256 digest of the message, read as a big-endian integer and
/// reduced modulo the group order.
pub fn hash_message(message: &[u8]) -> (r: U256)
    ensures
        r.value() == be_value(sha256_digest(message@)) % group_order(),
{
    let h = U256::from_be_bytes(sha256(message));
    let order = Secp256k1Params::order();
    h.rem(&order)
}

} // verus!
