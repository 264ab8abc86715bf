//! The errors that the arithmetic and the signature scheme report.

use crate::integer::Integer;
use vstd::prelude::*;

verus! {

/// Why a field element could not be built or combined.
#[derive(Debug, PartialEq)]
pub enum FieldError {
    /// The modulus is not greater than one.
    InvalidPrime(Integer),
    /// The two operands have different moduli.
    DifferentFields,
}

/// Why a curve point could not be built or combined.
#[derive(Debug, PartialEq)]
pub enum PointError {
    /// The coordinates do not satisfy the curve equation.
    NotOnCurve { x: String, y: String },
    /// Only the first coordinate was given.
    InvalidXOnly { x: String },
    /// Only the second coordinate was given.
    InvalidYOnly { y: String },
    /// The two points lie on different curves.
    DifferentCurves,
    /// An operation of the field failed.
    FieldError(FieldError),
}

/// Why a key could not be read or a signature not made.
#[derive(Debug, PartialEq)]
pub enum EcdsaError {
    /// The scalar is zero, not below the group order, or unreadable.
    InvalidPrivateKey,
    /// No usable nonce was found.
    InvalidNonce,
    /// The digest is not below the group order.
    InvalidHash,
    /// The first half of the signature came out as zero.
    InvalidR,
    /// The modulus is unusable.
    InvalidModulus,
    /// An operation of the field failed.
    FieldError(FieldError),
}

} // verus!
