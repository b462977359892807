//! Modular arithmetic over the prime field `F_p` with `p = 2^61 - 1`.
//!
//! Field elements are `u128` values; every operation reduces its inputs
//! first, so any `u128` is accepted. Since `p < 2^61`, the product of two
//! reduced elements stays below `2^122` and never overflows a `u128`.

use vstd::prelude::*;
use vstd::arithmetic::div_mod::*;
use vstd::arithmetic::mul::*;
use vstd::arithmetic::power::*;

use crate::field_theory::{law_mul_inverse, law_div_then_mul};

verus! {

/// A field element, stored as a `u128` (reduced into `0..p` by every operation).
pub type F = u128;

/// The field modulus: the Mersenne prime `2^61 - 1`.
pub const P: F = 2_305_843_009_213_693_951;

/// The canonical representative of `a` in `0..p`.
pub open spec fn field_norm(a: int) -> int {
    a % (P as int)
}

/// `(a + b) mod p`.
pub open spec fn field_add(a: int, b: int) -> int {
    (a + b) % (P as int)
}

/// `(a - b) mod p`, in `0..p`.
pub open spec fn field_sub(a: int, b: int) -> int {
    (a - b) % (P as int)
}

/// `(a * b) mod p`.
pub open spec fn field_mul(a: int, b: int) -> int {
    (a * b) % (P as int)
}

/// `(-a) mod p`, in `0..p`.
pub open spec fn field_neg(a: int) -> int {
    (-a) % (P as int)
}

/// `a^e mod p`.
pub open spec fn field_pow(a: int, e: nat) -> int {
    pow(a, e) % (P as int)
}

/// The inverse `a^(p-2) mod p` that Fermat's little theorem gives (see
/// `law_mul_inverse` for `a * a^(p-2) = 1`).
pub open spec fn field_inv(a: int) -> int {
    field_pow(a, (P - 2) as nat)
}

/// Reduces an arbitrary `u128` into the field `0..p`.
pub fn fnorm(a: F) -> (r: F)
    ensures
        r == field_norm(a as int),
        r < P,
{
    a % P
}

/// Field addition: `(a + b) mod p`.
pub fn fadd(a: F, b: F) -> (r: F)
    ensures
        r == field_add(a as int, b as int),
        r < P,
{
    proof {
        lemma_add_mod_noop(a as int, b as int, P as int);
    }
    (fnorm(a) + fnorm(b)) % P
}

/// Field subtraction: `(a - b) mod p`, kept non-negative.
pub fn fsub(a: F, b: F) -> (r: F)
    ensures
        r == field_sub(a as int, b as int),
        r < P,
{
    let a = fnorm(a);
    let b = fnorm(b);
    proof {
        lemma_sub_mod_noop(a as int, b as int, P as int);
        lemma_mod_add_multiples_vanish(a - b, P as int);
    }
    (a + P - b) % P
}

/// Field multiplication: `(a * b) mod p`.
pub fn fmul(a: F, b: F) -> (r: F)
    ensures
        r == field_mul(a as int, b as int),
        r < P,
{
    let x = fnorm(a);
    let y = fnorm(b);
    proof {
        lemma_mul_mod_noop(a as int, b as int, P as int);
        lemma_mul_upper_bound(x as int, (P - 1) as int, y as int, (P - 1) as int);
        assert((P - 1) * (P - 1) <= u128::MAX);
    }
    (x * y) % P
}

/// The additive inverse: `(-a) mod p`.
pub fn fneg(a: F) -> (r: F)
    ensures
        r == field_neg(a as int),
        r < P,
{
    let a0 = a;
    let a = fnorm(a);
    proof {
        lemma_sub_mod_noop(0, a0 as int, P as int);
        lemma_mod_twice(a0 as int, P as int);
    }
    if a == 0 {
        0
    } else {
        proof {
            lemma_mod_add_multiples_vanish(-(a as int), P as int);
            lemma_small_mod((P - a) as nat, P as nat);
        }
        P - a
    }
}


/// One step of square-and-multiply preserves `acc * b^e (mod p)`.
proof fn lemma_square_multiply_step(acc: int, b: int, e: nat)
    requires
        e > 0,
    ensures
        (if e % 2 == 1 { field_mul(acc, b) } else { acc }) * pow(field_mul(b, b), e / 2) % (P as int)
            == acc * pow(b, e) % (P as int),
{
    let m = P as int;
    let half = e / 2;
    let acc2 = if e % 2 == 1 { field_mul(acc, b) } else { acc };
    // pow(b, e) == pow(b * b, e / 2) * b^(e % 2)
    lemma_pow_multiplies(b, 2, half);
    lemma_square_is_pow2(b);
    lemma_pow_adds(b, 2 * half, e % 2);
    lemma_pow1(b);
    lemma_pow0(b);
    assert(pow(b, e) == pow(b * b, half) * pow(b, (e % 2) as nat));
    // (b * b) mod p may replace b * b inside the power
    lemma_pow_mod_noop(b * b, half, m);
    lemma_mul_mod_noop_right(acc2, pow(b * b, half), m);
    lemma_mul_mod_noop_right(acc2, pow(field_mul(b, b), half), m);
    if e % 2 == 1 {
        lemma_mul_mod_noop_left(acc * b, pow(b * b, half), m);
        lemma_mul_is_associative(acc, b, pow(b * b, half));
        lemma_mul_is_commutative(b, pow(b * b, half));
        assert(pow(b, e) == pow(b * b, half) * b);
    } else {
        assert(pow(b, e) == pow(b * b, half));
    }
}

/// Modular exponentiation `base^exp mod p` by square-and-multiply.
pub fn fpow(base: F, exp: u128) -> (r: F)
    ensures
        r == field_pow(base as int, exp as nat),
        r < P,
{
    let ghost e0 = exp;
    let mut exp = exp;
    let mut result: F = 1;
    let mut b = fnorm(base);
    proof {
        lemma_pow_mod_noop(base as int, e0 as nat, P as int);
        lemma_mul_basics(pow(b as int, exp as nat));
    }
    while exp > 0
        invariant
            result < P,
            b < P,
            result * pow(b as int, exp as nat) % (P as int) == field_pow(base as int, e0 as nat),
        decreases exp,
    {
        proof {
            lemma_square_multiply_step(result as int, b as int, exp as nat);
        }
        if exp & 1 == 1 {
            assert(exp & 1 == exp % 2) by (bit_vector);
            result = fmul(result, b);
        } else {
            assert(exp & 1 == exp % 2) by (bit_vector);
        }
        b = fmul(b, b);
        assert(exp >> 1 == exp / 2) by (bit_vector);
        exp = exp >> 1;
    }
    proof {
        lemma_pow0(b as int);
        lemma_small_mod(result as nat, P as nat);
    }
    result
}

/// The multiplicative inverse via Fermat's little theorem, `a^(p-2) mod p`.
/// Returns `None` exactly when `a` is `0` in the field.
pub fn finv(a: F) -> (r: Option<F>)
    ensures
        r is None <==> field_norm(a as int) == 0,
        r matches Some(v) ==> v == field_inv(a as int) && v < P,
        r matches Some(v) ==> field_mul(a as int, v as int) == 1,
{
    let a0 = a;
    let a = fnorm(a);
    if a == 0 {
        None
    } else {
        proof {
            lemma_pow_mod_noop(a0 as int, (P - 2) as nat, P as int);
            law_mul_inverse(a0 as int);
        }
        Some(fpow(a, P - 2))
    }
}

/// Field division `a / b = a * b^(p-2)`. Returns `None` exactly when `b` is `0`
/// in the field.
pub fn fdiv(a: F, b: F) -> (r: Option<F>)
    ensures
        r is None <==> field_norm(b as int) == 0,
        r matches Some(v) ==> v == field_mul(a as int, field_inv(b as int)) && v < P,
        r matches Some(v) ==> field_mul(v as int, b as int) == field_norm(a as int),
{
    proof {
        if field_norm(b as int) != 0 {
            law_div_then_mul(a as int, b as int);
        }
    }
    match finv(b) {
        Some(inv) => Some(fmul(a, inv)),
        None => None,
    }
}


/// Zero is the additive identity: `a + 0 = a`.
pub proof fn law_add_zero(a: int)
    ensures
        field_add(a, 0) == field_norm(a),
{
}

/// One is the multiplicative identity: `a * 1 = a`.
pub proof fn law_mul_one(a: int)
    ensures
        field_mul(a, 1) == field_norm(a),
{
}

/// Every element has an additive inverse: `a + (-a) = 0`.
pub proof fn law_add_neg(a: int)
    ensures
        field_add(a, field_neg(a)) == 0,
{
    let m = P as int;
    lemma_add_mod_noop_right(a, -a, m);
    lemma_mod_self_0(m);
    assert(a + -a == 0);
    lemma_small_mod(0, m as nat);
}

/// Addition and multiplication are commutative.
pub proof fn law_commutative(a: int, b: int)
    ensures
        field_add(a, b) == field_add(b, a),
        field_mul(a, b) == field_mul(b, a),
{
    lemma_mul_is_commutative(a, b);
}

/// Addition and multiplication are associative.
pub proof fn law_associative(a: int, b: int, c: int)
    ensures
        field_add(field_add(a, b), c) == field_add(a, field_add(b, c)),
        field_mul(field_mul(a, b), c) == field_mul(a, field_mul(b, c)),
{
    let m = P as int;
    lemma_add_mod_noop(a + b, c, m);
    lemma_add_mod_noop(a, b + c, m);
    lemma_mod_twice(a, m);
    lemma_mod_twice(c, m);
    lemma_add_mod_noop_right(a, b + c, m);
    lemma_mul_mod_noop_left(a * b, c, m);
    lemma_mul_mod_noop_right(a, b * c, m);
    lemma_mul_is_associative(a, b, c);
}

/// Multiplication distributes over addition: `a * (b + c) = a*b + a*c`.
pub proof fn law_distributive(a: int, b: int, c: int)
    ensures
        field_mul(a, field_add(b, c)) == field_add(field_mul(a, b), field_mul(a, c)),
{
    let m = P as int;
    lemma_mul_mod_noop_right(a, b + c, m);
    lemma_mul_is_distributive_add(a, b, c);
    lemma_add_mod_noop(a * b, a * c, m);
}

/// Subtraction undoes addition: `(a - b) + b = a`.
pub proof fn law_sub_then_add(a: int, b: int)
    ensures
        field_add(field_sub(a, b), b) == field_norm(a),
{
    lemma_add_mod_noop(a - b, b, P as int);
    lemma_mod_twice(b, P as int);
}

/// Exponentiation is repeated multiplication: `a^0 = 1` and
/// `a^(e+1) = a^e * a`.
pub proof fn law_pow_repeated_mul(a: int, e: nat)
    ensures
        field_pow(a, 0) == 1,
        field_pow(a, e + 1) == field_mul(field_pow(a, e), a),
{
    let m = P as int;
    lemma_pow0(a);
    lemma_pow_adds(a, e, 1);
    lemma_pow1(a);
    lemma_mul_mod_noop_left(pow(a, e), a, m);
}

/// Zero raised to a positive power is zero.
pub proof fn law_zero_pow(e: nat)
    requires
        e > 0,
    ensures
        field_pow(0, e) == 0,
{
    lemma0_pow(e);
}

} // verus!
