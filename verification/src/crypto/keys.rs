//! Private keys and the public keys that belong to them.

use crate::crypto::scalar::{random_nonzero_scalar, Scalar};
use crate::crypto::uint::U256;
use crate::curves::secp256k1::{generator_multiple, group_order, CurvePoint};
use crate::errors::EcdsaError;
use crate::integer::be_value;
use vstd::prelude::*;

verus! {

/// A private key: a scalar in `[1, order - 1]`.
#[derive(Debug)]
pub struct PrivateKey {
    scalar: Scalar,
}

/// A public key: the multiple of the generator by a private key.
#[derive(Debug, PartialEq, Eq)]
pub struct PublicKey {
    point: CurvePoint,
}

impl View for PrivateKey {
    type V = Seq<u8>;

    closed spec fn view(&self) -> Seq<u8> {
        self.scalar@
    }
}

impl View for PublicKey {
    type V = Seq<u8>;

    closed spec fn view(&self) -> Seq<u8> {
        self.point@
    }
}

impl Clone for PrivateKey {
    fn clone(&self) -> (r: Self)
        ensures
            r@ == self@,
    {
        PrivateKey { scalar: self.scalar }
    }
}

impl Clone for PublicKey {
    fn clone(&self) -> (r: Self)
        ensures
            r@ == self@,
    {
        PublicKey { point: self.point.clone() }
    }
}

impl PrivateKey {
    /// The number of the key.
    pub open spec fn value(&self) -> nat {
        be_value(self@)
    }

    /// There are 32 bytes and the number lies in `[1, order - 1]`.
    pub open spec fn wf(&self) -> bool {
        self@.len() == 32 && 0 < self.value() < group_order()
    }

    /// A fresh key, drawn at random from `[1, order - 1]`.
    pub fn generate() -> (r: PrivateKey)
        ensures
            r.wf(),
    {
        PrivateKey { scalar: random_nonzero_scalar() }
    }

    /// The key with the given big-endian bytes, or `InvalidPrivateKey`
    /// where they denote zero or a number that is not below the group order.
    pub fn from_bytes(bytes: &[u8; 32]) -> (r: Result<PrivateKey, EcdsaError>)
        ensures
            0 < be_value(bytes@) < group_order() ==> r is Ok && r->Ok_0@ == bytes@
                && r->Ok_0.wf(),
            !(0 < be_value(bytes@) < group_order()) ==> r == Err::<PrivateKey, EcdsaError>(
                EcdsaError::InvalidPrivateKey,
            ),
    {
        match Scalar::from_repr(bytes) {
            Some(scalar) => {
                if scalar.is_zero() {
                    Err(EcdsaError::InvalidPrivateKey)
                } else {
                    Ok(PrivateKey { scalar })
                }
            },
            None => Err(EcdsaError::InvalidPrivateKey),
        }
    }

    /// The public key: the multiple of the generator by this key.
    pub fn public_key(&self) -> (r: PublicKey)
        requires
            self.wf(),
        ensures
            r@ == generator_multiple(self.value()),
    {
        PublicKey { point: CurvePoint::generator_multiple(&self.scalar) }
    }

    /// The key as an unsigned 256-bit integer.
    pub fn as_u256(&self) -> (r: U256)
        ensures
            r@ == self@,
    {
        self.scalar.to_uint()
    }

    /// The key as a scalar.
    pub fn as_scalar(&self) -> (r: &Scalar)
        ensures
            r@ == self@,
    {
        &self.scalar
    }
}

impl PublicKey {
    /// The point of the key.
    pub fn as_point(&self) -> (r: &CurvePoint)
        ensures
            r@ == self@,
    {
        &self.point
    }
}

} // verus!
