//! Deterministic nonces from a private key and a message digest, by
//! HMAC-SHA256.

use crate::crypto::scalar::Scalar;
use crate::crypto::uint::U256;
use crate::curves::secp256k1::{group_order, Secp256k1Params};
use crate::errors::EcdsaError;
use crate::integer::be_value;
use hmac::Mac;
use vstd::prelude::*;

verus! {

/// How many candidates are tried before the search for a nonce gives up.
pub const NONCE_ATTEMPTS: u32 = 4096;

/// The 32 bytes of the HMAC-SHA256 tag of a message under a key.
pub uninterp spec fn hmac_sha256_tag(key: Seq<u8>, message: Seq<u8>) -> Seq<u8>;

/// The key `K` and the value `V` with which the search for a nonce starts.
/// `V` is 32 bytes of one and `K` 32 bytes of zero at first; `K` and `V` are
/// then renewed twice, with the marker bytes zero and one.
pub open spec fn nonce_seed(private_key: Seq<u8>, digest: Seq<u8>) -> (Seq<u8>, Seq<u8>) {
    let v0 = Seq::new(32, |i: int| 1u8);
    let k0 = Seq::new(32, |i: int| 0u8);
    let k1 = hmac_sha256_tag(k0, v0 + seq![0u8] + private_key + digest);
    let v1 = hmac_sha256_tag(k1, v0);
    let k2 = hmac_sha256_tag(k1, v1 + seq![1u8] + private_key + digest);
    let v2 = hmac_sha256_tag(k2, v1);
    (k2, v2)
}

/// The first candidate, among at most `attempts`, that lies in
/// `[1, order - 1]`. Each candidate is the tag of `V` under `K`; after one
/// that is refused, `K` and `V` are renewed.
pub open spec fn nonce_search(k: Seq<u8>, v: Seq<u8>, attempts: nat) -> Option<Seq<u8>>
    decreases attempts,
{
    if attempts == 0 {
        None
    } else {
        let candidate = hmac_sha256_tag(k, v);
        if 0 < be_value(candidate) < group_order() {
            Some(candidate)
        } else {
            let k2 = hmac_sha256_tag(k, candidate + seq![0u8]);
            let v2 = hmac_sha256_tag(k2, candidate);
            nonce_search(k2, v2, (attempts - 1) as nat)
        }
    }
}

/// The bytes of the nonce for a private key and a digest, if the search
/// finds one.
pub open spec fn deterministic_nonce(private_key: Seq<u8>, digest: Seq<u8>) -> Option<Seq<u8>> {
    let (k, v) = nonce_seed(private_key, digest);
    nonce_search(k, v, NONCE_ATTEMPTS as nat)
}

/// `Hmac<Sha256>`: the tag of the message under the key. Any length of key
/// is taken.
#[verifier::external_body]
fn hmac_sha256(key: &[u8], message: &[u8]) -> (r: [u8; 32])
    ensures
        r@ == hmac_sha256_tag(key@, message@),
{
    let mut mac = hmac::Hmac::<sha2::Sha256>::new_from_slice(key).unwrap();
    mac.update(message);
    mac.finalize().into_bytes().into()
}

/// The bytes `v`, the marker, the private key and the digest in a row.
fn seed_message(v: &[u8; 32], marker: u8, private_key: &[u8], digest: &[u8]) -> (m: Vec<u8>)
    ensures
        m@ == v@ + seq![marker] + private_key@ + digest@,
{
    let mut m: Vec<u8> = Vec::new();
    m.extend_from_slice(v.as_slice());
    m.push(marker);
    m.extend_from_slice(private_key);
    m.extend_from_slice(digest);
    proof {
        assert(m@ =~= v@ + seq![marker] + private_key@ + digest@);
    }
    m
}

/// The bytes `v` followed by a zero byte.
fn retry_message(v: &[u8; 32]) -> (m: Vec<u8>)
    ensures
        m@ == v@ + seq![0u8],
{
    let mut m: Vec<u8> = Vec::new();
    m.extend_from_slice(v.as_slice());
    m.push(0u8);
    proof {
        assert(m@ =~= v@ + seq![0u8]);
    }
    m
}

/// The nonce for a private key and a message digest, both as big-endian
/// bytes: the same for the same two inputs, and in `[1, order - 1]`.
/// `InvalidNonce` where none of the candidates that are tried lies in that
/// range.
pub fn generate_deterministic_nonce(private_key: &[u8], message_hash: &[u8]) -> (r: Result<
    Scalar,
    EcdsaError,
>)
    ensures
        match deterministic_nonce(private_key@, message_hash@) {
            Some(bytes) => r is Ok && r->Ok_0@ == bytes && r->Ok_0.wf() && r->Ok_0.value() != 0,
            None => r == Err::<Scalar, EcdsaError>(EcdsaError::InvalidNonce),
        },
{
    let order = Secp256k1Params::order();

    let mut v: [u8; 32] = [0x01u8; 32];
    let mut k: [u8; 32] = [0x00u8; 32];
    proof {
        assert(v@ =~= Seq::new(32, |i: int| 1u8));
        assert(k@ =~= Seq::new(32, |i: int| 0u8));
    }

    k = hmac_sha256(k.as_slice(), seed_message(&v, 0x00, private_key, message_hash).as_slice());
    v = hmac_sha256(k.as_slice(), v.as_slice());
    k = hmac_sha256(k.as_slice(), seed_message(&v, 0x01, private_key, message_hash).as_slice());
    v = hmac_sha256(k.as_slice(), v.as_slice());

    let mut attempts: u32 = 0;
    while attempts < NONCE_ATTEMPTS
        invariant
            attempts <= NONCE_ATTEMPTS,
            order.value() == group_order(),
            nonce_search(k@, v@, (NONCE_ATTEMPTS - attempts) as nat) == deterministic_nonce(
                private_key@,
                message_hash@,
            ),
        decreases NONCE_ATTEMPTS - attempts,
    {
        v = hmac_sha256(k.as_slice(), v.as_slice());

        let candidate = U256::from_be_bytes(v);
        if !candidate.is_zero() && candidate.lt(&order) {
            return match Scalar::from_repr(&v) {
                Some(nonce) => Ok(nonce),
                None => Err(EcdsaError::InvalidNonce),
            };
        }
        k = hmac_sha256(k.as_slice(), retry_message(&v).as_slice());
        v = hmac_sha256(k.as_slice(), v.as_slice());
        attempts += 1;
    }
    Err(EcdsaError::InvalidNonce)
}

} // verus!
