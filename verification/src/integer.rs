//! Arbitrary-precision signed integers.
//!
//! An [`Integer`] holds its value as big-endian two's-complement bytes, so
//! that contracts can speak of the mathematical integer it denotes. The
//! arithmetic itself is done by `num_bigint`; each call into it stands in a
//! small function whose contract is taken on trust.

use vstd::arithmetic::power::pow;
use vstd::prelude::*;
use vstd::std_specs::cmp::PartialEqSpecImpl;
use vstd::string::StringExecFns;

verus! {

/// The natural number that a big-endian byte string denotes.
pub open spec fn be_value(s: Seq<u8>) -> nat
    decreases s.len(),
{
    if s.len() == 0 {
        0
    } else {
        be_value(s.drop_last()) * 256 + s.last() as nat
    }
}

/// The integer that a big-endian two's-complement byte string denotes.
/// The empty string denotes zero.
pub open spec fn signed_value(s: Seq<u8>) -> int {
    if s.len() > 0 && s[0] >= 128 {
        be_value(s) - pow(256, s.len())
    } else {
        be_value(s) as int
    }
}

/// The remainder of `a` by `b` that carries the sign of `a`, as Rust's `%`
/// computes it on signed integers.
pub open spec fn truncated_rem(a: int, b: int) -> int {
    let m = if b < 0 { -b } else { b };
    if a >= 0 {
        a % m
    } else {
        -((-a) % m)
    }
}

/// The character of a decimal digit.
pub open spec fn digit_char(d: nat) -> char {
    if d == 0 {
        '0'
    } else if d == 1 {
        '1'
    } else if d == 2 {
        '2'
    } else if d == 3 {
        '3'
    } else if d == 4 {
        '4'
    } else if d == 5 {
        '5'
    } else if d == 6 {
        '6'
    } else if d == 7 {
        '7'
    } else if d == 8 {
        '8'
    } else {
        '9'
    }
}

/// The decimal digits of a natural number, without leading zeros.
pub open spec fn decimal_digits(n: nat) -> Seq<char>
    decreases n,
{
    if n < 10 {
        seq![digit_char(n)]
    } else {
        decimal_digits(n / 10).push(digit_char(n % 10))
    }
}

/// The decimal text of an integer, with a leading `-` if it is negative.
pub open spec fn decimal_text(v: int) -> Seq<char> {
    if v < 0 {
        seq!['-'] + decimal_digits((-v) as nat)
    } else {
        decimal_digits(v as nat)
    }
}

/// A signed integer of any size.
#[derive(Debug)]
pub struct Integer {
    bytes: Vec<u8>,
}

impl View for Integer {
    type V = int;

    closed spec fn view(&self) -> int {
        signed_value(self.bytes@)
    }
}

/// `BigInt::from(i64)`: the integer with the value of `v`.
#[verifier::external_body]
fn big_from_i64(v: i64) -> (r: Integer)
    ensures
        r@ == v,
{
    Integer { bytes: num_bigint::BigInt::from(v).to_signed_bytes_be() }
}

/// `+` on `BigInt`: the sum.
#[verifier::external_body]
fn big_add(a: &Integer, b: &Integer) -> (r: Integer)
    ensures
        r@ == a@ + b@,
{
    let x = num_bigint::BigInt::from_signed_bytes_be(&a.bytes);
    let y = num_bigint::BigInt::from_signed_bytes_be(&b.bytes);
    Integer { bytes: (x + y).to_signed_bytes_be() }
}

/// `-` on `BigInt`: the difference.
#[verifier::external_body]
fn big_sub(a: &Integer, b: &Integer) -> (r: Integer)
    ensures
        r@ == a@ - b@,
{
    let x = num_bigint::BigInt::from_signed_bytes_be(&a.bytes);
    let y = num_bigint::BigInt::from_signed_bytes_be(&b.bytes);
    Integer { bytes: (x - y).to_signed_bytes_be() }
}

/// `*` on `BigInt`: the product.
#[verifier::external_body]
fn big_mul(a: &Integer, b: &Integer) -> (r: Integer)
    ensures
        r@ == a@ * b@,
{
    let x = num_bigint::BigInt::from_signed_bytes_be(&a.bytes);
    let y = num_bigint::BigInt::from_signed_bytes_be(&b.bytes);
    Integer { bytes: (x * y).to_signed_bytes_be() }
}

/// `%` on `BigInt`: the remainder whose sign is that of the dividend. The
/// outside function panics on a zero divisor, which `requires` leaves out.
#[verifier::external_body]
fn big_rem(a: &Integer, b: &Integer) -> (r: Integer)
    requires
        b@ != 0,
    ensures
        r@ == truncated_rem(a@, b@),
{
    let x = num_bigint::BigInt::from_signed_bytes_be(&a.bytes);
    let y = num_bigint::BigInt::from_signed_bytes_be(&b.bytes);
    Integer { bytes: (x % y).to_signed_bytes_be() }
}

/// `BigInt::modpow`: the power reduced into `[0, modulus)`. The outside
/// function panics on a negative exponent and on a zero modulus; for a
/// negative modulus it rounds otherwise. `requires` leaves those out.
#[verifier::external_body]
fn big_modpow(base: &Integer, exponent: &Integer, modulus: &Integer) -> (r: Integer)
    requires
        exponent@ >= 0,
        modulus@ > 0,
    ensures
        r@ == pow(base@, exponent@ as nat) % modulus@,
{
    let b = num_bigint::BigInt::from_signed_bytes_be(&base.bytes);
    let e = num_bigint::BigInt::from_signed_bytes_be(&exponent.bytes);
    let m = num_bigint::BigInt::from_signed_bytes_be(&modulus.bytes);
    Integer { bytes: b.modpow(&e, &m).to_signed_bytes_be() }
}

/// `>>` on `BigInt`, by one bit: half of the integer, rounded down.
#[verifier::external_body]
fn big_shr1(a: &Integer) -> (r: Integer)
    ensures
        r@ == a@ / 2,
{
    let x = num_bigint::BigInt::from_signed_bytes_be(&a.bytes);
    Integer { bytes: (x >> 1u32).to_signed_bytes_be() }
}

/// `==` on `BigInt`: whether the two integers are the same number.
#[verifier::external_body]
fn big_eq(a: &Integer, b: &Integer) -> (r: bool)
    ensures
        r == (a@ == b@),
{
    let x = num_bigint::BigInt::from_signed_bytes_be(&a.bytes);
    let y = num_bigint::BigInt::from_signed_bytes_be(&b.bytes);
    x == y
}

/// `<` on `BigInt`: whether the first integer is the smaller number.
#[verifier::external_body]
fn big_lt(a: &Integer, b: &Integer) -> (r: bool)
    ensures
        r == (a@ < b@),
{
    let x = num_bigint::BigInt::from_signed_bytes_be(&a.bytes);
    let y = num_bigint::BigInt::from_signed_bytes_be(&b.bytes);
    x < y
}

/// `to_string` on `BigInt`: the decimal text of the integer.
#[verifier::external_body]
fn big_to_string(a: &Integer) -> (r: String)
    ensures
        r@ == decimal_text(a@),
{
    num_bigint::BigInt::from_signed_bytes_be(&a.bytes).to_string()
}

impl Clone for Integer {
    fn clone(&self) -> (r: Self)
        ensures
            r@ == self@,
    {
        Integer { bytes: self.bytes.clone() }
    }
}

impl PartialEq for Integer {
    fn eq(&self, other: &Self) -> (r: bool) {
        big_eq(self, other)
    }
}

impl Eq for Integer {

}

impl PartialEqSpecImpl for Integer {
    open spec fn obeys_eq_spec() -> bool {
        true
    }

    open spec fn eq_spec(&self, other: &Self) -> bool {
        self@ == other@
    }
}

impl Integer {
    /// The integer with the value of `v`.
    pub fn from_i64(v: i64) -> (r: Integer)
        ensures
            r@ == v,
    {
        big_from_i64(v)
    }

    /// The non-negative integer that the big-endian bytes denote.
    pub fn from_bytes_be(bytes: &[u8]) -> (r: Integer)
        ensures
            r@ == be_value(bytes@),
    {
        let mut padded: Vec<u8> = Vec::new();
        padded.push(0u8);
        padded.extend_from_slice(bytes);
        proof {
            assert(padded@ =~= seq![0u8] + bytes@);
            lemma_be_value_leading_zero(bytes@);
        }
        Integer { bytes: padded }
    }

    /// The sum `self + other`.
    pub fn add(&self, other: &Integer) -> (r: Integer)
        ensures
            r@ == self@ + other@,
    {
        big_add(self, other)
    }

    /// The difference `self - other`.
    pub fn sub(&self, other: &Integer) -> (r: Integer)
        ensures
            r@ == self@ - other@,
    {
        big_sub(self, other)
    }

    /// The product `self * other`.
    pub fn mul(&self, other: &Integer) -> (r: Integer)
        ensures
            r@ == self@ * other@,
    {
        big_mul(self, other)
    }

    /// The remainder of `self` by a non-zero `other`, with the sign of `self`.
    pub fn rem(&self, other: &Integer) -> (r: Integer)
        requires
            other@ != 0,
        ensures
            r@ == truncated_rem(self@, other@),
    {
        big_rem(self, other)
    }

    /// The least non-negative residue of `self` modulo a positive `modulus`.
    pub fn modulo(&self, modulus: &Integer) -> (r: Integer)
        requires
            modulus@ > 0,
        ensures
            r@ == self@ % modulus@,
    {
        let first = big_rem(self, modulus);
        let shifted = big_add(&first, modulus);
        let r = big_rem(&shifted, modulus);
        proof {
            lemma_reduce_shift_reduce(self@, modulus@);
        }
        r
    }

    /// `self` to the power of a non-negative `exponent`, modulo a positive
    /// `modulus`.
    pub fn modpow(&self, exponent: &Integer, modulus: &Integer) -> (r: Integer)
        requires
            exponent@ >= 0,
            modulus@ > 0,
        ensures
            r@ == pow(self@, exponent@ as nat) % modulus@,
    {
        big_modpow(self, exponent, modulus)
    }

    /// Half of `self`, rounded down.
    pub fn half(&self) -> (r: Integer)
        ensures
            r@ == self@ / 2,
    {
        big_shr1(self)
    }

    /// Whether `self` is less than `other`.
    pub fn lt(&self, other: &Integer) -> (r: bool)
        ensures
            r == (self@ < other@),
    {
        big_lt(self, other)
    }

    /// Whether `self` is at most `other`.
    pub fn le(&self, other: &Integer) -> (r: bool)
        ensures
            r == (self@ <= other@),
    {
        !big_lt(other, self)
    }

    /// Whether `self` is odd.
    pub fn is_odd(&self) -> (r: bool)
        ensures
            r == (self@ % 2 == 1),
    {
        let two = big_from_i64(2);
        let rest = self.modulo(&two);
        let one = big_from_i64(1);
        big_eq(&rest, &one)
    }

    /// The decimal text of `self`.
    pub fn to_text(&self) -> (r: String)
        ensures
            r@ == decimal_text(self@),
    {
        big_to_string(self)
    }
}

/// A zero byte in front does not change what big-endian bytes denote.
pub proof fn lemma_be_value_leading_zero(s: Seq<u8>)
    ensures
        be_value(seq![0u8] + s) == be_value(s),
        signed_value(seq![0u8] + s) == be_value(s),
    decreases s.len(),
{
    let t = seq![0u8] + s;
    if s.len() == 0 {
        assert(t.drop_last() =~= Seq::<u8>::empty());
        assert(be_value(t.drop_last()) == 0);
    } else {
        lemma_be_value_leading_zero(s.drop_last());
        assert(t.drop_last() =~= seq![0u8] + s.drop_last());
        assert(t.last() == s.last());
    }
    assert(t[0] == 0u8);
}

/// Reducing, adding the modulus and reducing again, each time with the
/// remainder that follows the dividend's sign, gives the least non-negative
/// residue.
pub proof fn lemma_reduce_shift_reduce(n: int, p: int)
    requires
        p > 0,
    ensures
        truncated_rem(truncated_rem(n, p) + p, p) == n % p,
        0 <= n % p < p,
{
    let first = truncated_rem(n, p);
    if n >= 0 {
        assert(first == n % p);
        assert(0 <= first < p) by (nonlinear_arith)
            requires
                first == n % p,
                p > 0,
        ;
        vstd::arithmetic::div_mod::lemma_mod_add_multiples_vanish(first, p);
        vstd::arithmetic::div_mod::lemma_small_mod(first as nat, p as nat);
    } else {
        let m = (-n) % p;
        assert(0 <= m < p) by (nonlinear_arith)
            requires
                m == (-n) % p,
                p > 0,
        ;
        assert(first == -m);
        assert(first + p > 0);
        vstd::arithmetic::div_mod::lemma_mod_add_multiples_vanish(first, p);
        // (first + p) % p == first % p == (-m) % p == n % p
        assert((-m) % p == n % p) by {
            lemma_neg_residue(n, p);
        }
    }
    assert(0 <= n % p < p) by (nonlinear_arith)
        requires
            p > 0,
    ;
}

/// Negating the residue of `-n` gives a number congruent to `n`.
proof fn lemma_neg_residue(n: int, p: int)
    requires
        p > 0,
    ensures
        (-((-n) % p)) % p == n % p,
{
    let m = (-n) % p;
    let q = (-n) / p;
    vstd::arithmetic::div_mod::lemma_fundamental_div_mod(-n, p);
    assert(-n == p * q + m);
    assert(-m == n + p * q);
    assert(p * q == q * p) by (nonlinear_arith);
    vstd::arithmetic::div_mod::lemma_mod_multiples_vanish(q, n, p);
}

} // verus!
