//! ECDSA signatures over secp256k1, with deterministic nonces and the lower
//! of the two possible second halves.

use crate::crypto::keys::PrivateKey;
use crate::crypto::rfc6979::{deterministic_nonce, generate_deterministic_nonce};
use crate::crypto::scalar::{inverse_mod, Scalar};
use crate::crypto::uint::{two_to_256, U256};
use crate::curves::secp256k1::{
    affine_x, generator_multiple, group_order, point_multiple, point_sum, CurvePoint,
    Secp256k1Params,
};
use crate::errors::EcdsaError;
use crate::integer::be_value;
use vstd::arithmetic::div_mod::{
    lemma_add_mod_noop_right, lemma_mul_mod_noop_right, lemma_small_mod,
};
use vstd::prelude::*;

verus! {

/// A signature: two numbers, each in `[1, order - 1]` when it comes from
/// `sign`.
#[derive(Debug, PartialEq, Eq)]
pub struct Signature {
    pub r: U256,
    pub s: U256,
}

impl Clone for Signature {
    fn clone(&self) -> (r: Self)
        ensures
            r == *self,
    {
        Signature { r: self.r, s: self.s }
    }
}

/// The lower of `s` and `order - s`.
pub open spec fn low_s(s: nat) -> nat {
    if s > group_order() / 2 {
        (group_order() - s) as nat
    } else {
        s
    }
}

/// The two halves of the signature that the private key `d`, the digest `h`,
/// the nonce `k` and the point `k * G` give: `r` is the first coordinate of
/// the point modulo the order, `s` is `(h + r * d) / k` modulo the order,
/// replaced by `order - s` where it lies in the upper half.
pub open spec fn signature_parts(d: nat, h: nat, k: nat, nonce_point: Seq<u8>) -> Result<
    (nat, nat),
    EcdsaError,
> {
    if k == 0 {
        Err(EcdsaError::InvalidNonce)
    } else {
        match affine_x(nonce_point) {
            None => Err(EcdsaError::InvalidR),
            Some(x) => {
                let r = x % group_order();
                let s = ((inverse_mod(k as int, group_order() as int) * (h + r * d))
                    % (group_order() as int)) as nat;
                if r == 0 {
                    Err(EcdsaError::InvalidR)
                } else if s == 0 {
                    Err(EcdsaError::InvalidNonce)
                } else {
                    Ok((r, low_s(s)))
                }
            },
        }
    }
}

/// What signing the digest with the private key gives, both as big-endian
/// bytes.
pub open spec fn signing_outcome(private_key: Seq<u8>, digest: Seq<u8>) -> Result<
    (nat, nat),
    EcdsaError,
> {
    if be_value(digest) >= group_order() {
        Err(EcdsaError::InvalidHash)
    } else {
        match deterministic_nonce(private_key, digest) {
            None => Err(EcdsaError::InvalidNonce),
            Some(k) => signature_parts(
                be_value(private_key),
                be_value(digest),
                be_value(k),
                generator_multiple(be_value(k)),
            ),
        }
    }
}

/// Whether the point has a first coordinate that is `r` modulo the order.
/// The identity has none.
pub open spec fn point_matches(point: Seq<u8>, r: nat) -> bool {
    match affine_x(point) {
        Some(x) => x % group_order() == r,
        None => false,
    }
}

/// Whether the point `u1 * G + u2 * Q` exists and matches `r`.
pub open spec fn combination_matches(u1: nat, u2: nat, public_key: Seq<u8>, r: nat) -> bool {
    match (point_multiple(public_key, u2), generator_multiple(u1)) {
        (Some(second), first) => match point_sum(first, second) {
            Some(sum) => point_matches(sum, r),
            None => false,
        },
        _ => false,
    }
}

/// Whether `(r, s)` is a valid signature of the digest `h` under the public
/// key: both halves lie in `[1, order - 1]`, the digest lies below the order,
/// and with `w` the inverse of `s`, the point `(h * w) * G + (r * w) * Q`
/// matches `r`.
pub open spec fn signature_valid(public_key: Seq<u8>, h: nat, r: nat, s: nat) -> bool {
    &&& 0 < r < group_order()
    &&& 0 < s < group_order()
    &&& h < group_order()
    &&& {
        let w = inverse_mod(s as int, group_order() as int);
        let u1 = ((h * w) % (group_order() as int)) as nat;
        let u2 = ((r * w) % (group_order() as int)) as nat;
        combination_matches(u1, u2, public_key, r)
    }
}

/// The signature that a private key, a digest and a nonce give, once the
/// multiple of the generator by the nonce is at hand. `InvalidNonce` where
/// the nonce is zero or the second half comes out as zero, `InvalidR` where
/// the point is the identity or the first half comes out as zero.
pub fn signature_from_nonce(
    private_key: &Scalar,
    digest: &Scalar,
    nonce: &Scalar,
    nonce_point: &CurvePoint,
) -> (r: Result<Signature, EcdsaError>)
    requires
        private_key.wf(),
        digest.wf(),
        nonce.wf(),
    ensures
        match signature_parts(private_key.value(), digest.value(), nonce.value(), nonce_point@) {
            Ok((first, second)) => r is Ok && r->Ok_0.r.value() == first && r->Ok_0.s.value()
                == second,
            Err(e) => r == Err::<Signature, EcdsaError>(e),
        },
        r is Ok ==> 0 < r->Ok_0.r.value() < group_order(),
        r is Ok ==> 0 < r->Ok_0.s.value() <= group_order() / 2,
{
    let order = Secp256k1Params::order();

    let k_inv = match nonce.invert() {
        Some(inverse) => inverse,
        None => {
            return Err(EcdsaError::InvalidNonce);
        },
    };
    let r_raw = match nonce_point.x() {
        Some(x) => x,
        None => {
            return Err(EcdsaError::InvalidR);
        },
    };
    let r = r_raw.rem(&order);
    let r_scalar = match Scalar::from_repr(&r.to_be_bytes()) {
        Some(scalar) => scalar,
        None => {
            return Err(EcdsaError::InvalidR);
        },
    };
    let s_scalar = k_inv.mul(&digest.add(&r_scalar.mul(private_key)));
    let s_raw = s_scalar.to_uint();
    proof {
        lemma_second_half(
            k_inv.value() as int,
            digest.value() as int,
            r.value() as int,
            private_key.value() as int,
            group_order() as int,
        );
    }
    if r.is_zero() {
        return Err(EcdsaError::InvalidR);
    }
    if s_raw.is_zero() {
        return Err(EcdsaError::InvalidNonce);
    }
    let half_order = order.half();
    let s = if half_order.lt(&s_raw) {
        proof {
            lemma_small_mod((order.value() - s_raw.value()) as nat, two_to_256());
        }
        order.wrapping_sub(&s_raw)
    } else {
        s_raw
    };
    Ok(Signature { r, s })
}

/// Whether the point has a first coordinate that, reduced modulo the order,
/// is `r`.
pub fn matches_r(point: &CurvePoint, r: &U256) -> (ok: bool)
    ensures
        ok == point_matches(point@, r.value()),
{
    match point.x() {
        Some(x) => {
            let order = Secp256k1Params::order();
            x.rem(&order).same(r)
        },
        None => false,
    }
}

impl PrivateKey {
    /// Signs a digest with this key. The nonce is derived from the key and
    /// the digest alone, so the same two always give the same signature. The
    /// second half of the signature is never above half of the order.
    /// `InvalidHash` where the digest is not below the order; the other
    /// errors as `generate_deterministic_nonce` and `signature_from_nonce`
    /// give them.
    pub fn sign(&self, message_hash: &U256) -> (r: Result<Signature, EcdsaError>)
        requires
            self.wf(),
        ensures
            match signing_outcome(self@, message_hash@) {
                Ok((first, second)) => r is Ok && r->Ok_0.r.value() == first && r->Ok_0.s.value()
                    == second,
                Err(e) => r == Err::<Signature, EcdsaError>(e),
            },
            r is Ok ==> 0 < r->Ok_0.r.value() < group_order(),
            r is Ok ==> 0 < r->Ok_0.s.value() <= group_order() / 2,
    {
        let hash_bytes = message_hash.to_be_bytes();
        let h_scalar = match Scalar::from_repr(&hash_bytes) {
            Some(scalar) => scalar,
            None => {
                return Err(EcdsaError::InvalidHash);
            },
        };
        let privkey_bytes = self.as_u256().to_be_bytes();
        let k = generate_deterministic_nonce(privkey_bytes.as_slice(), hash_bytes.as_slice())?;
        let r_point = CurvePoint::generator_multiple(&k);
        signature_from_nonce(self.as_scalar(), &h_scalar, &k, &r_point)
    }
}

/// Whether the signature is valid for the digest under the public key.
/// Never fails: halves out of range, a digest that is not below the order
/// and a key that is no point of the curve all give `false`.
pub fn verify(public_key: &CurvePoint, message_hash: &U256, signature: &Signature) -> (ok: bool)
    ensures
        ok == signature_valid(
            public_key@,
            message_hash.value(),
            signature.r.value(),
            signature.s.value(),
        ),
{
    let order = Secp256k1Params::order();

    if signature.r.is_zero() || !signature.r.lt(&order) {
        return false;
    }
    if signature.s.is_zero() || !signature.s.lt(&order) {
        return false;
    }
    let s_scalar = match Scalar::from_repr(&signature.s.to_be_bytes()) {
        Some(scalar) => scalar,
        None => {
            return false;
        },
    };
    let r_scalar = match Scalar::from_repr(&signature.r.to_be_bytes()) {
        Some(scalar) => scalar,
        None => {
            return false;
        },
    };
    let h_scalar = match Scalar::from_repr(&message_hash.to_be_bytes()) {
        Some(scalar) => scalar,
        None => {
            return false;
        },
    };
    let w = match s_scalar.invert() {
        Some(inverse) => inverse,
        None => {
            return false;
        },
    };
    let u1 = h_scalar.mul(&w);
    let u2 = r_scalar.mul(&w);

    let first = CurvePoint::generator_multiple(&u1);
    let second = match public_key.mul(&u2) {
        Some(point) => point,
        None => {
            return false;
        },
    };
    match first.add(&second) {
        Some(sum) => matches_r(&sum, &signature.r),
        None => false,
    }
}

/// Reducing the inner product and the inner sum on the way does not change
/// `w * (h + r * d)` modulo `n`.
proof fn lemma_second_half(w: int, h: int, r: int, d: int, n: int)
    requires
        n > 0,
    ensures
        (w * ((h + (r * d) % n) % n)) % n == (w * (h + r * d)) % n,
{
    lemma_add_mod_noop_right(h, r * d, n);
    lemma_mul_mod_noop_right(w, h + (r * d) % n, n);
    lemma_mul_mod_noop_right(w, h + r * d, n);
}

} // verus!
