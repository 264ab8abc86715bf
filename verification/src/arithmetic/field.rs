//! Residues modulo a prime and their arithmetic.

use crate::errors::FieldError;
use crate::arithmetic::number_theory::{is_prime, lemma_fermat_little, lemma_pow_step};
use crate::integer::{decimal_text, lemma_reduce_shift_reduce, Integer};
use vstd::arithmetic::power::pow;
use vstd::prelude::*;
use vstd::std_specs::cmp::PartialEqSpecImpl;
use vstd::string::StringExecFns;

verus! {

/// The mathematical content of a field element: a value and its modulus.
pub struct Residue {
    pub value: int,
    pub modulus: int,
}

impl Residue {
    /// The modulus is greater than one and the value is reduced.
    pub open spec fn wf(self) -> bool {
        self.modulus > 1 && 0 <= self.value < self.modulus
    }
}

/// The residue of `n` modulo `p`.
pub open spec fn residue_of(n: int, p: int) -> Residue {
    Residue { value: n % p, modulus: p }
}

/// The sum of two residues of one field.
pub open spec fn field_add(a: Residue, b: Residue) -> Residue {
    residue_of(a.value + b.value, a.modulus)
}

/// The difference of two residues of one field.
pub open spec fn field_sub(a: Residue, b: Residue) -> Residue {
    residue_of(a.value - b.value, a.modulus)
}

/// The product of two residues of one field.
pub open spec fn field_mul(a: Residue, b: Residue) -> Residue {
    residue_of(a.value * b.value, a.modulus)
}

/// The residue multiplied by an integer.
pub open spec fn field_scale(a: Residue, k: int) -> Residue {
    residue_of(a.value * k, a.modulus)
}

/// The exponent that `field_pow` raises to: `e` reduced modulo `p - 1`.
pub open spec fn reduced_exponent(e: int, p: int) -> nat {
    (e % (p - 1)) as nat
}

/// The residue raised to the power `e`, the exponent being reduced modulo
/// `p - 1` first.
pub open spec fn field_pow(a: Residue, e: int) -> Residue {
    residue_of(pow(a.value, reduced_exponent(e, a.modulus)), a.modulus)
}

/// The residue raised to the power `p - 2`: its inverse where `p` is prime
/// and the residue is not zero.
pub open spec fn field_inverse(a: Residue) -> Residue {
    residue_of(pow(a.value, (a.modulus - 2) as nat), a.modulus)
}

/// The quotient of two residues of one field: the first times the inverse of
/// the second.
pub open spec fn field_div(a: Residue, b: Residue) -> Residue {
    residue_of(a.value * field_inverse(b).value, a.modulus)
}

/// The text of a residue: `FieldElement_`, the modulus, and the value in
/// round brackets.
pub open spec fn residue_text(a: Residue) -> Seq<char> {
    "FieldElement_"@ + decimal_text(a.modulus) + "("@ + decimal_text(a.value) + ")"@
}

/// An element of the integers modulo `prime`.
#[derive(Debug)]
pub struct FieldElement {
    num: Integer,
    prime: Integer,
}

impl View for FieldElement {
    type V = Residue;

    closed spec fn view(&self) -> Residue {
        Residue { value: self.num@, modulus: self.prime@ }
    }
}

impl Clone for FieldElement {
    fn clone(&self) -> (r: Self)
        ensures
            r@ == self@,
    {
        FieldElement { num: self.num.clone(), prime: self.prime.clone() }
    }
}

impl PartialEq for FieldElement {
    fn eq(&self, other: &Self) -> (r: bool) {
        self.num == other.num && self.prime == other.prime
    }
}

impl PartialEqSpecImpl for FieldElement {
    open spec fn obeys_eq_spec() -> bool {
        true
    }

    open spec fn eq_spec(&self, other: &Self) -> bool {
        self@ == other@
    }
}

impl FieldElement {
    /// The modulus is greater than one and the value lies in `[0, prime)`.
    pub open spec fn wf(&self) -> bool {
        self@.wf()
    }

    /// The residue of `num` modulo `prime`, for any `num`, negative ones too.
    /// Fails if `prime` is not greater than one. The value is reduced, shifted
    /// up by `prime` and reduced again, so that it lands in `[0, prime)`.
    /// Whether `prime` is a prime number is not checked.
    pub fn from(num: Integer, prime: Integer) -> (r: Result<FieldElement, FieldError>)
        ensures
            prime@ <= 1 ==> r == Err::<FieldElement, FieldError>(FieldError::InvalidPrime(prime)),
            prime@ > 1 ==> r is Ok && r->Ok_0@ == residue_of(num@, prime@) && r->Ok_0.wf(),
    {
        let one = Integer::from_i64(1);
        if prime.le(&one) {
            return Err(FieldError::InvalidPrime(prime));
        }
        let reduced = num.rem(&prime);
        let shifted = reduced.add(&prime);
        let normalized = shifted.rem(&prime);
        proof {
            lemma_reduce_shift_reduce(num@, prime@);
        }
        Ok(FieldElement { num: normalized, prime })
    }

    /// The value, in `[0, prime)`.
    pub fn num(&self) -> (r: &Integer)
        ensures
            r@ == self@.value,
    {
        &self.num
    }

    /// The modulus.
    pub fn prime(&self) -> (r: &Integer)
        ensures
            r@ == self@.modulus,
    {
        &self.prime
    }

    /// `self` to the power `exp`. The exponent is reduced modulo `prime - 1`
    /// before the exponentiation, whatever its size or sign.
    pub fn pow(&self, exp: &Integer) -> (r: FieldElement)
        requires
            self.wf(),
        ensures
            r@ == field_pow(self@, exp@),
            r.wf(),
    {
        let one = Integer::from_i64(1);
        let period = self.prime.sub(&one);
        let n = exp.modulo(&period);
        proof {
            lemma_reduce_shift_reduce(exp@, period@);
            lemma_reduce_shift_reduce(pow(self.num@, n@ as nat), self.prime@);
        }
        let num = self.num.modpow(&n, &self.prime);
        FieldElement { num, prime: self.prime.clone() }
    }

    /// Whether the value is odd.
    pub fn is_odd(&self) -> (r: bool)
        requires
            self.wf(),
        ensures
            r == (self@.value % 2 == 1),
    {
        self.num.is_odd()
    }

    /// The sum, or `DifferentFields` if the moduli differ.
    pub fn add(&self, rhs: &FieldElement) -> (r: Result<FieldElement, FieldError>)
        requires
            self.wf(),
            rhs.wf(),
        ensures
            self@.modulus != rhs@.modulus ==> r == Err::<FieldElement, FieldError>(
                FieldError::DifferentFields,
            ),
            self@.modulus == rhs@.modulus ==> r is Ok && r->Ok_0@ == field_add(self@, rhs@)
                && r->Ok_0.wf(),
    {
        if self.prime != rhs.prime {
            return Err(FieldError::DifferentFields);
        }
        let sum = self.num.add(&rhs.num);
        let num = sum.rem(&self.prime);
        proof {
            lemma_reduce_shift_reduce(sum@, self.prime@);
        }
        Ok(FieldElement { num, prime: self.prime.clone() })
    }

    /// The difference, or `DifferentFields` if the moduli differ. The modulus
    /// is added before the last reduction, so that no negative value is left.
    pub fn sub(&self, rhs: &FieldElement) -> (r: Result<FieldElement, FieldError>)
        requires
            self.wf(),
            rhs.wf(),
        ensures
            self@.modulus != rhs@.modulus ==> r == Err::<FieldElement, FieldError>(
                FieldError::DifferentFields,
            ),
            self@.modulus == rhs@.modulus ==> r is Ok && r->Ok_0@ == field_sub(self@, rhs@)
                && r->Ok_0.wf(),
    {
        if self.prime != rhs.prime {
            return Err(FieldError::DifferentFields);
        }
        let difference = self.num.sub(&rhs.num);
        let shifted = difference.rem(&self.prime).add(&self.prime);
        let num = shifted.rem(&self.prime);
        proof {
            lemma_reduce_shift_reduce(difference@, self.prime@);
        }
        Ok(FieldElement { num, prime: self.prime.clone() })
    }

    /// The product, or `DifferentFields` if the moduli differ.
    pub fn mul(&self, rhs: &FieldElement) -> (r: Result<FieldElement, FieldError>)
        requires
            self.wf(),
            rhs.wf(),
        ensures
            self@.modulus != rhs@.modulus ==> r == Err::<FieldElement, FieldError>(
                FieldError::DifferentFields,
            ),
            self@.modulus == rhs@.modulus ==> r is Ok && r->Ok_0@ == field_mul(self@, rhs@)
                && r->Ok_0.wf(),
    {
        if self.prime != rhs.prime {
            return Err(FieldError::DifferentFields);
        }
        let product = self.num.mul(&rhs.num);
        proof {
            assert(self.num@ * rhs.num@ >= 0) by (nonlinear_arith)
                requires
                    self.num@ >= 0,
                    rhs.num@ >= 0,
            ;
            lemma_reduce_shift_reduce(product@, self.prime@);
        }
        let num = product.rem(&self.prime);
        Ok(FieldElement { num, prime: self.prime.clone() })
    }

    /// The element multiplied by the integer `k`.
    pub fn scale(&self, k: &Integer) -> (r: FieldElement)
        requires
            self.wf(),
        ensures
            r@ == field_scale(self@, k@),
            r.wf(),
    {
        let product = self.num.mul(k);
        let num = product.modulo(&self.prime);
        proof {
            lemma_reduce_shift_reduce(product@, self.prime@);
        }
        FieldElement { num, prime: self.prime.clone() }
    }

    /// The quotient `self * rhs^(prime - 2)`, or `DifferentFields` if the
    /// moduli differ. Where `prime` is a prime number and `rhs` is not zero,
    /// the second factor is the inverse of `rhs`.
    pub fn div(&self, rhs: &FieldElement) -> (r: Result<FieldElement, FieldError>)
        requires
            self.wf(),
            rhs.wf(),
        ensures
            self@.modulus != rhs@.modulus ==> r == Err::<FieldElement, FieldError>(
                FieldError::DifferentFields,
            ),
            self@.modulus == rhs@.modulus ==> r is Ok && r->Ok_0@ == field_div(self@, rhs@)
                && r->Ok_0.wf(),
    {
        if self.prime != rhs.prime {
            return Err(FieldError::DifferentFields);
        }
        let two = Integer::from_i64(2);
        let exp = self.prime.sub(&two);
        let inverse = rhs.num.modpow(&exp, &self.prime);
        let product = self.num.mul(&inverse);
        proof {
            lemma_reduce_shift_reduce(pow(rhs.num@, exp@ as nat), self.prime@);
            assert(self.num@ * inverse@ >= 0) by (nonlinear_arith)
                requires
                    self.num@ >= 0,
                    inverse@ >= 0,
            ;
            lemma_reduce_shift_reduce(product@, self.prime@);
        }
        let num = product.rem(&self.prime);
        Ok(FieldElement { num, prime: self.prime.clone() })
    }

    /// The text `FieldElement_`, the modulus, and the value in round brackets.
    pub fn to_text(&self) -> (r: String)
        ensures
            r@ == residue_text(self@),
    {
        let mut text = String::from_str("FieldElement_");
        text.append(self.prime.to_text().as_str());
        text.append("(");
        text.append(self.num.to_text().as_str());
        text.append(")");
        text
    }
}

/// Raising to the power `e` and to the power `e + (p - 1)` gives the same
/// element, for every exponent `e`: only the residue of the exponent modulo
/// `p - 1` counts.
pub proof fn law_exponent_periodicity(a: Residue, e: int)
    requires
        a.wf(),
    ensures
        field_pow(a, e) == field_pow(a, e + (a.modulus - 1)),
{
    vstd::arithmetic::div_mod::lemma_mod_add_multiples_vanish(e, a.modulus - 1);
}

/// What `from` builds lies in `[0, p - 1]` and is congruent to the integer
/// it was built from, whatever the sign of that integer.
pub proof fn law_normalization(n: int, p: int)
    requires
        p > 1,
    ensures
        residue_of(n, p).wf(),
        (residue_of(n, p).value - n) % p == 0,
{
    lemma_reduce_shift_reduce(n, p);
    vstd::arithmetic::div_mod::lemma_fundamental_div_mod(n, p);
    let q = n / p;
    assert(n % p - n == p * (-q)) by (nonlinear_arith)
        requires
            n == p * q + n % p,
    ;
    vstd::arithmetic::div_mod::lemma_mod_multiples_basic(-q, p);
    assert(p * (-q) == (-q) * p) by (nonlinear_arith);
}

/// In a field of prime order, the product of an element that is not zero
/// and its power `p - 2` is one: that power is the inverse.
pub proof fn lemma_inverse(a: Residue)
    requires
        a.wf(),
        is_prime(a.modulus),
        a.value != 0,
    ensures
        field_mul(a, field_inverse(a)) == residue_of(1, a.modulus),
        residue_of(1, a.modulus).value == 1,
{
    let p = a.modulus;
    let low = pow(a.value, (p - 2) as nat);
    vstd::arithmetic::div_mod::lemma_small_mod(a.value as nat, p as nat);
    vstd::arithmetic::div_mod::lemma_small_mod(1, p as nat);
    lemma_fermat_little(a.value as nat, p as nat);
    lemma_pow_step(a.value, (p - 1) as nat);
    vstd::arithmetic::div_mod::lemma_mul_mod_noop_right(a.value, low, p);
}

/// In a field of prime order, an element that is not zero, divided by
/// itself, is one.
pub proof fn law_inverse_round_trip(a: Residue)
    requires
        a.wf(),
        is_prime(a.modulus),
        a.value != 0,
    ensures
        field_div(a, a) == (Residue { value: 1, modulus: a.modulus }),
{
    lemma_inverse(a);
}

/// In a field of prime order, dividing by an element that is not zero undoes
/// multiplying by it.
pub proof fn law_division_undoes_multiplication(a: Residue, b: Residue)
    requires
        a.wf(),
        b.wf(),
        a.modulus == b.modulus,
        is_prime(b.modulus),
        b.value != 0,
    ensures
        field_div(field_mul(a, b), b) == a,
{
    let p = a.modulus;
    let inverse = field_inverse(b).value;
    lemma_inverse(b);
    assert((b.value * inverse) % p == 1);
    // ((a * b) % p * inverse) % p == (a * (b * inverse)) % p == (a * 1) % p
    vstd::arithmetic::div_mod::lemma_mul_mod_noop_left(a.value * b.value, inverse, p);
    assert((a.value * b.value) * inverse == a.value * (b.value * inverse)) by (nonlinear_arith);
    vstd::arithmetic::div_mod::lemma_mul_mod_noop_right(a.value, b.value * inverse, p);
    assert(a.value * 1 == a.value);
    vstd::arithmetic::div_mod::lemma_small_mod(a.value as nat, p as nat);
}

} // verus!
