//! Unsigned 256-bit integers, held as 32 big-endian bytes and computed with
//! by `crypto_bigint`, as `k256` hands it on.

use crate::integer::be_value;
use k256::elliptic_curve::bigint::Encoding;
use vstd::prelude::*;

verus! {

/// Two to the power 256: one more than the largest `U256`.
pub open spec fn two_to_256() -> nat {
    0x1_0000000000000000_0000000000000000_0000000000000000_0000000000000000nat
}

/// An unsigned integer below two to the power 256.
#[derive(Debug, Clone, Copy, PartialEq, Eq)]
pub struct U256 {
    pub bytes: [u8; 32],
}

impl View for U256 {
    type V = Seq<u8>;

    open spec fn view(&self) -> Seq<u8> {
        self.bytes@
    }
}

/// `%` of a `Uint` by a `NonZero`: the remainder. A zero divisor has no
/// `NonZero`, which `requires` leaves out.
#[verifier::external_body]
fn uint_rem(a: &U256, m: &U256) -> (r: U256)
    requires
        m.value() != 0,
    ensures
        r.value() == a.value() % m.value(),
{
    let x = k256::U256::from_be_bytes(a.bytes);
    let y = k256::elliptic_curve::bigint::NonZero::new(k256::U256::from_be_bytes(m.bytes)).unwrap();
    U256 { bytes: (x % y).to_be_bytes() }
}

/// `>>` of a `Uint`, by one bit: half of the integer, rounded down.
#[verifier::external_body]
fn uint_shr1(a: &U256) -> (r: U256)
    ensures
        r.value() == a.value() / 2,
{
    U256 { bytes: (k256::U256::from_be_bytes(a.bytes) >> 1usize).to_be_bytes() }
}

/// `<` on `Uint`: whether the first integer is the smaller number.
#[verifier::external_body]
fn uint_lt(a: &U256, b: &U256) -> (r: bool)
    ensures
        r == (a.value() < b.value()),
{
    k256::U256::from_be_bytes(a.bytes) < k256::U256::from_be_bytes(b.bytes)
}

/// `==` on `Uint`: whether the two integers are the same number.
#[verifier::external_body]
fn uint_eq(a: &U256, b: &U256) -> (r: bool)
    ensures
        r == (a.value() == b.value()),
{
    k256::U256::from_be_bytes(a.bytes) == k256::U256::from_be_bytes(b.bytes)
}

/// `Uint::wrapping_sub`: the difference modulo two to the power 256.
#[verifier::external_body]
fn uint_wrapping_sub(a: &U256, b: &U256) -> (r: U256)
    ensures
        r.value() == (a.value() - b.value()) % (two_to_256() as int),
{
    let x = k256::U256::from_be_bytes(a.bytes);
    let y = k256::U256::from_be_bytes(b.bytes);
    U256 { bytes: x.wrapping_sub(&y).to_be_bytes() }
}

impl U256 {
    /// The number that the bytes denote.
    pub open spec fn value(&self) -> nat {
        be_value(self.bytes@)
    }

    /// The integer with the given big-endian bytes.
    pub fn from_be_bytes(bytes: [u8; 32]) -> (r: U256)
        ensures
            r@ == bytes@,
    {
        U256 { bytes }
    }

    /// The integer with the given big-endian bytes, if there are 32 of them.
    pub fn from_be_slice(bytes: &[u8]) -> (r: Option<U256>)
        ensures
            r is Some <==> bytes@.len() == 32,
            r is Some ==> r->Some_0@ == bytes@,
    {
        if bytes.len() != 32 {
            return None;
        }
        let mut copy = [0u8; 32];
        let mut i: usize = 0;
        while i < 32
            invariant
                i <= 32,
                bytes@.len() == 32,
                forall|j: int| 0 <= j < i ==> copy@[j] == bytes@[j],
            decreases 32 - i,
        {
            copy[i] = bytes[i];
            i += 1;
        }
        assert(copy@ =~= bytes@);
        Some(U256 { bytes: copy })
    }

    /// The big-endian bytes.
    pub fn to_be_bytes(&self) -> (r: [u8; 32])
        ensures
            r@ == self@,
    {
        self.bytes
    }

    /// Zero.
    pub fn zero() -> (r: U256)
        ensures
            r.value() == 0,
    {
        let r = U256 { bytes: [0u8; 32] };
        proof {
            lemma_zero_bytes(r.bytes@);
        }
        r
    }

    /// Whether the integer is zero.
    pub fn is_zero(&self) -> (r: bool)
        ensures
            r == (self.value() == 0),
    {
        uint_eq(self, &U256::zero())
    }

    /// Whether `self` is less than `other`.
    pub fn lt(&self, other: &U256) -> (r: bool)
        ensures
            r == (self.value() < other.value()),
    {
        uint_lt(self, other)
    }

    /// Whether the two are the same number.
    pub fn same(&self, other: &U256) -> (r: bool)
        ensures
            r == (self.value() == other.value()),
    {
        uint_eq(self, other)
    }

    /// The remainder of `self` by a non-zero `modulus`.
    pub fn rem(&self, modulus: &U256) -> (r: U256)
        requires
            modulus.value() != 0,
        ensures
            r.value() == self.value() % modulus.value(),
    {
        uint_rem(self, modulus)
    }

    /// Half of `self`, rounded down.
    pub fn half(&self) -> (r: U256)
        ensures
            r.value() == self.value() / 2,
    {
        uint_shr1(self)
    }

    /// The difference `self - other` modulo two to the power 256.
    pub fn wrapping_sub(&self, other: &U256) -> (r: U256)
        ensures
            r.value() == (self.value() - other.value()) % (two_to_256() as int),
    {
        uint_wrapping_sub(self, other)
    }
}

/// Bytes that are all zero denote zero.
pub proof fn lemma_zero_bytes(s: Seq<u8>)
    requires
        forall|i: int| 0 <= i < s.len() ==> s[i] == 0u8,
    ensures
        be_value(s) == 0,
    decreases s.len(),
{
    if s.len() > 0 {
        lemma_zero_bytes(s.drop_last());
    }
}

} // verus!
