//! Prime numbers, binomial coefficients and Fermat's little theorem: what
//! makes the power `p - 2` an inverse modulo a prime `p`.

use vstd::arithmetic::div_mod::{
    lemma_add_mod_noop, lemma_fundamental_div_mod, lemma_mod_multiples_basic,
    lemma_mod_bound, lemma_mod_multiples_vanish, lemma_mod_pos_bound, lemma_mul_mod_noop_left,
    lemma_mul_mod_noop_right, lemma_small_mod, lemma_sub_mod_noop,
};
use vstd::arithmetic::power::{lemma0_pow, lemma_pow0, lemma_pow1, pow};
use vstd::prelude::*;

verus! {

/// `p` is greater than one and no number strictly between one and `p`
/// divides it.
pub open spec fn is_prime(p: int) -> bool {
    p > 1 && forall|d: int| 1 < d < p ==> #[trigger] (p % d) != 0
}

/// The number of ways to choose `k` things out of `n`, by Pascal's rule.
pub open spec fn binomial(n: nat, k: nat) -> nat
    decreases n,
{
    if k == 0 {
        1
    } else if n == 0 {
        0
    } else {
        binomial((n - 1) as nat, (k - 1) as nat) + binomial((n - 1) as nat, k)
    }
}

/// The sum of `binomial(n, k) * a^k` for `k` from zero to `m`.
pub open spec fn binomial_sum(a: int, n: nat, m: nat) -> int
    decreases m,
{
    if m == 0 {
        1
    } else {
        binomial_sum(a, n, (m - 1) as nat) + binomial(n, m) * pow(a, m)
    }
}

/// A power with a positive exponent is the base times the next lower power.
pub proof fn lemma_pow_step(b: int, e: nat)
    requires
        e > 0,
    ensures
        pow(b, e) == b * pow(b, (e - 1) as nat),
{
    reveal(pow);
}

/// A prime that divides a product divides one of the factors: here, with the
/// first factor strictly between zero and the prime, the second.
pub proof fn lemma_euclid_small(p: int, a: int, b: int)
    requires
        is_prime(p),
        0 < a < p,
        (a * b) % p == 0,
    ensures
        b % p == 0,
    decreases a,
{
    if a == 1 {
        assert(a * b == b) by (nonlinear_arith)
            requires
                a == 1,
        ;
    } else {
        let q = p / a;
        let r = p % a;
        lemma_fundamental_div_mod(p, a);
        lemma_mod_pos_bound(p, a);
        assert(r != 0);
        assert(r * b == p * b - q * (a * b)) by (nonlinear_arith)
            requires
                p == a * q + r,
        ;
        assert((p * b) % p == 0) by {
            lemma_mod_multiples_basic(b, p);
            assert(p * b == b * p) by (nonlinear_arith);
        }
        assert((q * (a * b)) % p == 0) by {
            lemma_mul_mod_noop_right(q, a * b, p);
            assert(q * 0 == 0);
            lemma_small_mod(0, p as nat);
        }
        assert((r * b) % p == 0) by {
            lemma_sub_mod_noop(p * b, q * (a * b), p);
            lemma_small_mod(0, p as nat);
        }
        lemma_euclid_small(p, r, b);
    }
}

/// A prime that divides a product divides the second factor where it does
/// not divide the first.
pub proof fn lemma_euclid(p: int, a: int, b: int)
    requires
        is_prime(p),
        a % p != 0,
        (a * b) % p == 0,
    ensures
        b % p == 0,
{
    lemma_mod_bound(a, p);
    lemma_mul_mod_noop_left(a, b, p);
    lemma_euclid_small(p, a % p, b);
}

/// There is no way to choose more than there is.
pub proof fn lemma_binomial_above(n: nat, k: nat)
    requires
        k > n,
    ensures
        binomial(n, k) == 0,
    decreases n,
{
    if n > 0 {
        lemma_binomial_above((n - 1) as nat, (k - 1) as nat);
        lemma_binomial_above((n - 1) as nat, k);
    }
}

/// There is one way to choose everything.
pub proof fn lemma_binomial_all(n: nat)
    ensures
        binomial(n, n) == 1,
    decreases n,
{
    if n > 0 {
        lemma_binomial_all((n - 1) as nat);
        lemma_binomial_above((n - 1) as nat, n);
    }
}

/// `k * binomial(n, k) == n * binomial(n - 1, k - 1)`.
pub proof fn lemma_absorption(n: nat, k: nat)
    requires
        n >= 1,
        k >= 1,
    ensures
        k * binomial(n, k) == n * binomial((n - 1) as nat, (k - 1) as nat),
    decreases n,
{
    let n1 = (n - 1) as nat;
    let k1 = (k - 1) as nat;
    let upper = binomial(n1, k1) as int;
    let lower = binomial(n1, k) as int;
    assert(binomial(n, k) == upper + lower);
    if n == 1 {
        if k == 1 {
            assert(binomial(0, 0) == 1);
            assert(binomial(0, 1) == 0);
        } else {
            lemma_binomial_above(0, k1);
            lemma_binomial_above(0, k);
        }
        assert(k * (upper + lower) == n * upper) by (nonlinear_arith)
            requires
                n == 1,
                (k == 1 && upper == 1 && lower == 0) || (upper == 0 && lower == 0),
        ;
    } else {
        // k * lower == (n - 1) * binomial(n - 2, k - 1)
        lemma_absorption(n1, k);
        let n2 = (n1 - 1) as nat;
        let left = binomial(n2, k1) as int;
        assert(k * lower == n1 * left);
        if k == 1 {
            assert(upper == 1);
            assert(left == 1);
            assert(k * (upper + lower) == n * upper) by (nonlinear_arith)
                requires
                    k == 1,
                    upper == 1,
                    left == 1,
                    k * lower == n1 * left,
                    n1 == n - 1,
            ;
        } else {
            // (k - 1) * upper == (n - 1) * binomial(n - 2, k - 2)
            lemma_absorption(n1, k1);
            let k2 = (k1 - 1) as nat;
            let far = binomial(n2, k2) as int;
            assert(k1 * upper == n1 * far);
            assert(upper == far + left);
            assert(k * (upper + lower) == n * upper) by (nonlinear_arith)
                requires
                    k1 == k - 1,
                    n1 == n - 1,
                    k1 * upper == n1 * far,
                    k * lower == n1 * left,
                    upper == far + left,
            ;
        }
    }
}

/// A prime divides each binomial coefficient of its row but the two at the
/// ends.
pub proof fn lemma_prime_divides_binomial(p: nat, k: nat)
    requires
        is_prime(p as int),
        0 < k < p,
    ensures
        binomial(p, k) % p == 0,
{
    lemma_absorption(p, k);
    let c = binomial((p - 1) as nat, (k - 1) as nat) as int;
    let b = binomial(p, k) as int;
    let pi = p as int;
    let ki = k as int;
    assert(ki * b == pi * c);
    assert((ki * b) % pi == 0) by {
        lemma_mod_multiples_basic(c, pi);
        assert(pi * c == c * pi) by (nonlinear_arith);
    }
    lemma_small_mod(k, p);
    lemma_euclid(pi, ki, b);
}

/// Pascal's rule, summed: the sums of row `n + 1` from the sums of row `n`.
pub proof fn lemma_pascal_sum(a: int, n: nat, m: nat)
    requires
        m >= 1,
    ensures
        binomial_sum(a, n + 1, m) == binomial_sum(a, n, m) + a * binomial_sum(
            a,
            n,
            (m - 1) as nat,
        ),
    decreases m,
{
    let m1 = (m - 1) as nat;
    let c_low = binomial(n, m1) as int;
    let c_same = binomial(n, m) as int;
    assert(binomial(n + 1, m) == c_low + c_same);
    lemma_pow_step(a, m);
    let high = pow(a, m);
    let low = pow(a, m1);
    if m == 1 {
        lemma_pow0(a);
        assert(binomial_sum(a, n + 1, 0) == 1);
        assert(binomial_sum(a, n, 0) == 1);
        assert(c_low == 1);
        assert(1 + (c_low + c_same) * high == (1 + c_same * high) + a * 1) by (nonlinear_arith)
            requires
                c_low == 1,
                high == a * low,
                low == 1,
        ;
    } else {
        lemma_pascal_sum(a, n, m1);
        let m2 = (m1 - 1) as nat;
        let s1 = binomial_sum(a, n, m1);
        let s2 = binomial_sum(a, n, m2);
        assert(binomial_sum(a, n + 1, m1) == s1 + a * s2);
        assert(s1 == s2 + c_low * low);
        assert((s1 + a * s2) + (c_low + c_same) * high == (s1 + c_same * high) + a * s1)
            by (nonlinear_arith)
            requires
                s1 == s2 + c_low * low,
                high == a * low,
        ;
    }
}

/// The binomial theorem for `a + 1`.
pub proof fn lemma_binomial_theorem(a: int, n: nat)
    ensures
        pow(a + 1, n) == binomial_sum(a, n, n),
    decreases n,
{
    if n == 0 {
        lemma_pow0(a + 1);
    } else {
        let n1 = (n - 1) as nat;
        lemma_binomial_theorem(a, n1);
        lemma_pow_step(a + 1, n);
        lemma_pascal_sum(a, n1, n);
        lemma_binomial_above(n1, n);
        let s = binomial_sum(a, n1, n1);
        assert(binomial_sum(a, n1, n) == s + binomial(n1, n) * pow(a, n));
        assert(binomial(n1, n) * pow(a, n) == 0) by (nonlinear_arith)
            requires
                binomial(n1, n) == 0,
        ;
        assert((a + 1) * s == s + a * s) by (nonlinear_arith);
    }
}

/// Modulo a prime, every sum of its row that stops before the last term is
/// one.
pub proof fn lemma_sum_mod_prime(a: int, p: nat, m: nat)
    requires
        is_prime(p as int),
        m < p,
    ensures
        binomial_sum(a, p, m) % (p as int) == 1,
    decreases m,
{
    lemma_small_mod(1, p);
    if m > 0 {
        let m1 = (m - 1) as nat;
        lemma_sum_mod_prime(a, p, m1);
        lemma_prime_divides_binomial(p, m);
        let c = binomial(p, m) as int;
        let term = c * pow(a, m);
        assert(term % (p as int) == 0) by {
            lemma_mul_mod_noop_left(c, pow(a, m), p as int);
            assert(0 * pow(a, m) == 0);
            lemma_small_mod(0, p);
        }
        lemma_add_mod_noop(binomial_sum(a, p, m1), term, p as int);
    }
}

/// Modulo a prime `p`, the power `p` of `a + 1` is the power `p` of `a`,
/// plus one.
pub proof fn lemma_power_of_successor(a: int, p: nat)
    requires
        is_prime(p as int),
    ensures
        pow(a + 1, p) % (p as int) == (pow(a, p) + 1) % (p as int),
{
    let p1 = (p - 1) as nat;
    lemma_binomial_theorem(a, p);
    lemma_binomial_all(p);
    lemma_sum_mod_prime(a, p, p1);
    let s = binomial_sum(a, p, p1);
    assert(binomial_sum(a, p, p) == s + binomial(p, p) * pow(a, p));
    assert(binomial(p, p) * pow(a, p) == pow(a, p)) by (nonlinear_arith)
        requires
            binomial(p, p) == 1,
    ;
    lemma_add_mod_noop(s, pow(a, p), p as int);
    lemma_add_mod_noop(1, pow(a, p), p as int);
    lemma_small_mod(1, p);
}

/// Modulo a prime `p`, the power `p` of a number is the number.
pub proof fn lemma_power_of_prime(a: nat, p: nat)
    requires
        is_prime(p as int),
    ensures
        pow(a as int, p) % (p as int) == a % p,
    decreases a,
{
    if a == 0 {
        lemma0_pow(p);
    } else {
        let a1 = (a - 1) as nat;
        lemma_power_of_prime(a1, p);
        lemma_power_of_successor(a1 as int, p);
        lemma_add_mod_noop(pow(a1 as int, p), 1, p as int);
        lemma_add_mod_noop(a1 as int, 1, p as int);
    }
}

/// Fermat's little theorem: modulo a prime `p`, the power `p - 1` of a number
/// that `p` does not divide is one.
pub proof fn lemma_fermat_little(a: nat, p: nat)
    requires
        is_prime(p as int),
        a % p != 0,
    ensures
        pow(a as int, (p - 1) as nat) % (p as int) == 1,
{
    let p1 = (p - 1) as nat;
    let x = pow(a as int, p1);
    lemma_power_of_prime(a, p);
    lemma_pow_step(a as int, p);
    assert(a * (x - 1) == a * x - a) by (nonlinear_arith);
    assert((a * (x - 1)) % (p as int) == 0) by {
        lemma_sub_mod_noop(a * x, a as int, p as int);
        lemma_small_mod(0, p);
    }
    lemma_euclid(p as int, a as int, x - 1);
    assert(x % (p as int) == 1) by {
        let t = (x - 1) / (p as int);
        lemma_fundamental_div_mod(x - 1, p as int);
        assert(x == 1 + (p as int) * t);
        assert((p as int) * t == t * (p as int)) by (nonlinear_arith);
        lemma_mod_multiples_vanish(t, 1, p as int);
        lemma_small_mod(1, p);
    }
}

} // verus!
