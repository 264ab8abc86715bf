//! Integers modulo the group order of secp256k1, held as 32 big-endian bytes
//! and computed with by `k256`.

use crate::crypto::uint::U256;
use crate::curves::secp256k1::group_order;
use crate::integer::be_value;
use k256::elliptic_curve::PrimeField;
use vstd::arithmetic::div_mod::{
    lemma_mul_mod_noop_left, lemma_mul_mod_noop_right, lemma_small_mod,
};
use vstd::prelude::*;

verus! {

/// `w` lies in `[0, n)` and its product with `k` leaves the remainder one.
pub open spec fn inverts(w: int, k: int, n: int) -> bool {
    0 <= w < n && (w * k) % n == 1
}

/// The inverse of `k` modulo `n`: the number in `[0, n)` whose product with
/// `k` leaves the remainder one. There is at most one.
pub open spec fn inverse_mod(k: int, n: int) -> int {
    choose|w: int| #[trigger] inverts(w, k, n)
}

/// A scalar of secp256k1: an integer below the group order.
#[derive(Debug, Clone, Copy, PartialEq, Eq)]
pub struct Scalar {
    bytes: [u8; 32],
}

impl View for Scalar {
    type V = Seq<u8>;

    closed spec fn view(&self) -> Seq<u8> {
        self.bytes@
    }
}

/// `Scalar::from_repr`: the scalar with the given big-endian bytes, if they
/// denote a number below the group order.
#[verifier::external_body]
fn scalar_from_repr(bytes: &[u8; 32]) -> (r: Option<Scalar>)
    ensures
        r is Some <==> be_value(bytes@) < group_order(),
        r is Some ==> r->Some_0@ == bytes@,
{
    let s: Option<k256::Scalar> = k256::Scalar::from_repr((*bytes).into()).into();
    s.map(|s| Scalar { bytes: s.to_bytes().into() })
}

/// `+` on `Scalar`: the sum modulo the group order.
#[verifier::external_body]
fn scalar_add(a: &Scalar, b: &Scalar) -> (r: Scalar)
    requires
        a.wf(),
        b.wf(),
    ensures
        r.wf(),
        r.value() == (a.value() + b.value()) % group_order(),
{
    let x = k256::Scalar::from_repr(a.bytes.into()).unwrap();
    let y = k256::Scalar::from_repr(b.bytes.into()).unwrap();
    Scalar { bytes: (x + y).to_bytes().into() }
}

/// `*` on `Scalar`: the product modulo the group order.
#[verifier::external_body]
fn scalar_mul(a: &Scalar, b: &Scalar) -> (r: Scalar)
    requires
        a.wf(),
        b.wf(),
    ensures
        r.wf(),
        r.value() == (a.value() * b.value()) % group_order(),
{
    let x = k256::Scalar::from_repr(a.bytes.into()).unwrap();
    let y = k256::Scalar::from_repr(b.bytes.into()).unwrap();
    Scalar { bytes: (x * y).to_bytes().into() }
}

/// `Scalar::invert`: nothing for zero; for another scalar the one whose
/// product with it is one modulo the group order.
#[verifier::external_body]
fn scalar_invert(a: &Scalar) -> (r: Option<Scalar>)
    requires
        a.wf(),
    ensures
        r is Some <==> a.value() != 0,
        r is Some ==> r->Some_0.wf() && (r->Some_0.value() * a.value()) % group_order() == 1,
{
    let x = k256::Scalar::from_repr(a.bytes.into()).unwrap();
    let inverse: Option<k256::Scalar> = x.invert().into();
    inverse.map(|s| Scalar { bytes: s.to_bytes().into() })
}

/// `NonZeroScalar::random` on the random number generator of the operating
/// system: a scalar that is not zero. Which one is left open. Where the
/// operating system hands out no random bytes, the outside function does
/// not return.
#[verifier::external_body]
pub(crate) fn random_nonzero_scalar() -> (r: Scalar)
    ensures
        r.wf(),
        r.value() != 0,
{
    Scalar { bytes: k256::NonZeroScalar::random(&mut rand_core::OsRng).to_bytes().into() }
}

impl Scalar {
    /// The number that the bytes denote.
    pub open spec fn value(&self) -> nat {
        be_value(self@)
    }

    /// There are 32 bytes and the number is below the group order.
    pub open spec fn wf(&self) -> bool {
        self@.len() == 32 && self.value() < group_order()
    }

    /// The scalar with the given big-endian bytes, if they denote a number
    /// below the group order.
    pub fn from_repr(bytes: &[u8; 32]) -> (r: Option<Scalar>)
        ensures
            r is Some <==> be_value(bytes@) < group_order(),
            r is Some ==> r->Some_0@ == bytes@ && r->Some_0.wf(),
    {
        scalar_from_repr(bytes)
    }

    /// The big-endian bytes.
    pub fn to_bytes(&self) -> (r: [u8; 32])
        ensures
            r@ == self@,
    {
        self.bytes
    }

    /// The scalar as an unsigned 256-bit integer.
    pub fn to_uint(&self) -> (r: U256)
        ensures
            r@ == self@,
    {
        U256 { bytes: self.bytes }
    }

    /// Whether the scalar is zero.
    pub fn is_zero(&self) -> (r: bool)
        ensures
            r == (self.value() == 0),
    {
        self.to_uint().is_zero()
    }

    /// The sum modulo the group order.
    pub fn add(&self, other: &Scalar) -> (r: Scalar)
        requires
            self.wf(),
            other.wf(),
        ensures
            r.wf(),
            r.value() == (self.value() + other.value()) % group_order(),
    {
        scalar_add(self, other)
    }

    /// The product modulo the group order.
    pub fn mul(&self, other: &Scalar) -> (r: Scalar)
        requires
            self.wf(),
            other.wf(),
        ensures
            r.wf(),
            r.value() == (self.value() * other.value()) % group_order(),
    {
        scalar_mul(self, other)
    }

    /// The inverse modulo the group order; nothing for zero.
    pub fn invert(&self) -> (r: Option<Scalar>)
        requires
            self.wf(),
        ensures
            r is Some <==> self.value() != 0,
            r is Some ==> r->Some_0.wf() && r->Some_0.value() == inverse_mod(
                self.value() as int,
                group_order() as int,
            ),
    {
        let r = scalar_invert(self);
        proof {
            if r is Some {
                lemma_inverse_unique(
                    self.value() as int,
                    group_order() as int,
                    r->Some_0.value() as int,
                );
            }
        }
        r
    }
}

/// A number in `[0, n)` whose product with `k` leaves the remainder one is
/// the inverse of `k` modulo `n`: no other number of that range does so.
pub proof fn lemma_inverse_unique(k: int, n: int, w: int)
    requires
        n > 1,
        inverts(w, k, n),
    ensures
        inverse_mod(k, n) == w,
{
    let v = inverse_mod(k, n);
    assert(inverts(v, k, n));
    // v == v * (w * k) == (v * k) * w == w, all modulo n
    lemma_mul_mod_noop_right(v, w * k, n);
    assert((v * 1) % n == (v * (w * k)) % n);
    lemma_mul_mod_noop_right(w, v * k, n);
    assert((w * 1) % n == (w * (v * k)) % n);
    assert(v * (w * k) == w * (v * k)) by (nonlinear_arith);
    lemma_small_mod(v as nat, n as nat);
    lemma_small_mod(w as nat, n as nat);
}

} // verus!
