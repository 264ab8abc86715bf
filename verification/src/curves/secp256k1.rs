//! The curve secp256k1: its field prime, its group order, its generator, and
//! its points in their SEC1 encoding. The group operations are those of
//! `k256`.

use crate::crypto::scalar::Scalar;
use crate::crypto::uint::U256;
use crate::integer::{be_value, Integer};
use k256::elliptic_curve::bigint::Encoding;
use k256::elliptic_curve::ops::MulByGenerator;
use k256::elliptic_curve::sec1::{FromEncodedPoint, ToEncodedPoint};
use k256::elliptic_curve::{Curve, PrimeField};
use vstd::prelude::*;

verus! {

/// The order of the group that the generator spans.
pub open spec fn group_order() -> nat {
    0xFFFFFFFF_FFFFFFFF_FFFFFFFF_FFFFFFFE_BAAEDCE6_AF48A03B_BFD25E8C_D0364141nat
}

/// The prime of the field that the curve is defined over.
pub open spec fn field_prime() -> nat {
    0xFFFFFFFF_FFFFFFFF_FFFFFFFF_FFFFFFFF_FFFFFFFF_FFFFFFFF_FFFFFFFE_FFFFFC2Fnat
}

/// The uncompressed SEC1 encoding of the generator: the tag `0x04`, then
/// the two coordinates.
pub open spec fn generator_encoding() -> Seq<u8> {
    seq![
        0x04u8,
        0x79, 0xbe, 0x66, 0x7e, 0xf9, 0xdc, 0xbb, 0xac,
        0x55, 0xa0, 0x62, 0x95, 0xce, 0x87, 0x0b, 0x07,
        0x02, 0x9b, 0xfc, 0xdb, 0x2d, 0xce, 0x28, 0xd9,
        0x59, 0xf2, 0x81, 0x5b, 0x16, 0xf8, 0x17, 0x98,
        0x48, 0x3a, 0xda, 0x77, 0x26, 0xa3, 0xc4, 0x65,
        0x5d, 0xa4, 0xfb, 0xfc, 0x0e, 0x11, 0x08, 0xa8,
        0xfd, 0x17, 0xb4, 0x48, 0xa6, 0x85, 0x54, 0x19,
        0x9c, 0x47, 0xd0, 0x8f, 0xfb, 0x10, 0xd4, 0xb8,
    ]
}

/// The uncompressed SEC1 encoding of the product of the generator and a
/// scalar.
pub uninterp spec fn generator_multiple(scalar: nat) -> Seq<u8>;

/// The SEC1 encoding of the product of a point, given in its SEC1 encoding,
/// and a scalar; nothing where the bytes are no encoding of a point of the
/// curve.
pub uninterp spec fn point_multiple(point: Seq<u8>, scalar: nat) -> Option<Seq<u8>>;

/// The SEC1 encoding of the sum of two points, given in their SEC1
/// encodings; nothing where either is no encoding of a point of the curve.
pub uninterp spec fn point_sum(p: Seq<u8>, q: Seq<u8>) -> Option<Seq<u8>>;

/// The first coordinate that a SEC1 encoding holds: the 32 bytes after the
/// tag of an uncompressed or compressed point. The encoding of the identity
/// holds none.
pub open spec fn affine_x(encoded: Seq<u8>) -> Option<nat> {
    if (encoded.len() == 65 && encoded[0] == 4) || (encoded.len() == 33 && (encoded[0] == 2
        || encoded[0] == 3)) {
        Some(be_value(encoded.subrange(1, 33)))
    } else {
        None
    }
}

/// A point of secp256k1 in its SEC1 encoding. Any bytes may stand here;
/// whether they encode a point of the curve shows when the point is used.
#[derive(Debug, PartialEq, Eq)]
pub struct CurvePoint {
    pub encoded: Vec<u8>,
}

impl View for CurvePoint {
    type V = Seq<u8>;

    open spec fn view(&self) -> Seq<u8> {
        self.encoded@
    }
}

impl Clone for CurvePoint {
    fn clone(&self) -> (r: Self)
        ensures
            r@ == self@,
    {
        CurvePoint { encoded: self.encoded.clone() }
    }
}

/// `Secp256k1::ORDER`: the group order.
#[verifier::external_body]
fn curve_order() -> (r: U256)
    ensures
        r.value() == group_order(),
{
    U256 { bytes: k256::Secp256k1::ORDER.to_be_bytes() }
}

/// `ProjectivePoint::GENERATOR`: the generator, encoded uncompressed.
#[verifier::external_body]
fn curve_generator() -> (r: CurvePoint)
    ensures
        r@ == generator_encoding(),
{
    let g = k256::ProjectivePoint::GENERATOR.to_affine();
    CurvePoint { encoded: g.to_encoded_point(false).as_bytes().to_vec() }
}

/// `ProjectivePoint::mul_by_generator`: the multiple of the generator,
/// encoded uncompressed.
#[verifier::external_body]
fn generator_mul(scalar: &Scalar) -> (r: CurvePoint)
    requires
        scalar.wf(),
    ensures
        r@ == generator_multiple(scalar.value()),
{
    let k = k256::Scalar::from_repr(scalar.to_bytes().into()).unwrap();
    let product = k256::ProjectivePoint::mul_by_generator(&k).to_affine();
    CurvePoint { encoded: product.to_encoded_point(false).as_bytes().to_vec() }
}

/// `*` of a `ProjectivePoint` and a `Scalar`: the multiple of the point,
/// encoded uncompressed. Nothing comes back where the bytes do not decode
/// to a point of the curve.
#[verifier::external_body]
fn point_mul(point: &CurvePoint, scalar: &Scalar) -> (r: Option<CurvePoint>)
    requires
        scalar.wf(),
    ensures
        r is Some <==> point_multiple(point@, scalar.value()) is Some,
        r is Some ==> r->Some_0@ == point_multiple(point@, scalar.value())->Some_0,
{
    let encoded = k256::EncodedPoint::from_bytes(&point.encoded).ok()?;
    let affine: Option<k256::AffinePoint> = k256::AffinePoint::from_encoded_point(&encoded).into();
    let k = k256::Scalar::from_repr(scalar.to_bytes().into()).unwrap();
    let product = (k256::ProjectivePoint::from(affine?) * k).to_affine();
    Some(CurvePoint { encoded: product.to_encoded_point(false).as_bytes().to_vec() })
}

/// `+` of two `ProjectivePoint`s: their sum, encoded uncompressed. Nothing
/// comes back where either does not decode to a point of the curve.
#[verifier::external_body]
fn point_add(p: &CurvePoint, q: &CurvePoint) -> (r: Option<CurvePoint>)
    ensures
        r is Some <==> point_sum(p@, q@) is Some,
        r is Some ==> r->Some_0@ == point_sum(p@, q@)->Some_0,
{
    let first = k256::EncodedPoint::from_bytes(&p.encoded).ok()?;
    let second = k256::EncodedPoint::from_bytes(&q.encoded).ok()?;
    let a: Option<k256::AffinePoint> = k256::AffinePoint::from_encoded_point(&first).into();
    let b: Option<k256::AffinePoint> = k256::AffinePoint::from_encoded_point(&second).into();
    let sum = (k256::ProjectivePoint::from(a?) + k256::ProjectivePoint::from(b?)).to_affine();
    Some(CurvePoint { encoded: sum.to_encoded_point(false).as_bytes().to_vec() })
}

impl CurvePoint {
    /// The point with the given SEC1 encoding.
    pub fn from_sec1_bytes(bytes: &[u8]) -> (r: CurvePoint)
        ensures
            r@ == bytes@,
    {
        let mut encoded: Vec<u8> = Vec::new();
        encoded.extend_from_slice(bytes);
        CurvePoint { encoded }
    }

    /// The multiple of the generator by `scalar`.
    pub fn generator_multiple(scalar: &Scalar) -> (r: CurvePoint)
        requires
            scalar.wf(),
        ensures
            r@ == generator_multiple(scalar.value()),
    {
        generator_mul(scalar)
    }

    /// The multiple `scalar * self`, or nothing where `self` is no point of
    /// the curve.
    pub fn mul(&self, scalar: &Scalar) -> (r: Option<CurvePoint>)
        requires
            scalar.wf(),
        ensures
            r is Some <==> point_multiple(self@, scalar.value()) is Some,
            r is Some ==> r->Some_0@ == point_multiple(self@, scalar.value())->Some_0,
    {
        point_mul(self, scalar)
    }

    /// The sum `self + other`, or nothing where either is no point of the
    /// curve.
    pub fn add(&self, other: &CurvePoint) -> (r: Option<CurvePoint>)
        ensures
            r is Some <==> point_sum(self@, other@) is Some,
            r is Some ==> r->Some_0@ == point_sum(self@, other@)->Some_0,
    {
        point_add(self, other)
    }

    /// The first coordinate, if the encoding holds one: the identity has
    /// none.
    pub fn x(&self) -> (r: Option<U256>)
        ensures
            r is Some <==> affine_x(self@) is Some,
            r is Some ==> r->Some_0.value() == affine_x(self@)->Some_0,
    {
        let n = self.encoded.len();
        if n == 0 {
            return None;
        }
        let tag = self.encoded[0];
        if (n == 65 && tag == 4) || (n == 33 && (tag == 2 || tag == 3)) {
            let mut bytes = [0u8; 32];
            let mut i: usize = 0;
            while i < 32
                invariant
                    i <= 32,
                    self.encoded@.len() >= 33,
                    forall|j: int| 0 <= j < i ==> bytes@[j] == self.encoded@[j + 1],
                decreases 32 - i,
            {
                bytes[i] = self.encoded[i + 1];
                i += 1;
            }
            assert(bytes@ =~= self.encoded@.subrange(1, 33));
            Some(U256 { bytes })
        } else {
            None
        }
    }
}

/// The constants of secp256k1.
pub struct Secp256k1Params;

impl Secp256k1Params {
    /// The order of the group that the generator spans.
    pub fn order() -> (r: U256)
        ensures
            r.value() == group_order(),
    {
        curve_order()
    }

    /// The prime of the field: two to the power 256, less two to the power
    /// 32, less 977.
    pub fn field_prime() -> (r: Integer)
        ensures
            r@ == field_prime(),
    {
        let bytes: [u8; 32] = [
            0xff, 0xff, 0xff, 0xff, 0xff, 0xff, 0xff, 0xff,
            0xff, 0xff, 0xff, 0xff, 0xff, 0xff, 0xff, 0xff,
            0xff, 0xff, 0xff, 0xff, 0xff, 0xff, 0xff, 0xff,
            0xff, 0xff, 0xff, 0xfe, 0xff, 0xff, 0xfc, 0x2f,
        ];
        proof {
            reveal_with_fuel(be_value, 33);
            assert(be_value(bytes@) == field_prime());
        }
        Integer::from_bytes_be(bytes.as_slice())
    }

    /// The generator.
    pub fn generator() -> (r: CurvePoint)
        ensures
            r@ == generator_encoding(),
    {
        curve_generator()
    }
}

} // verus!
