use zk_fuzz_hunter::field::{fadd, fdiv, finv, fmul, fneg, fnorm, fpow, fsub, F, P};

// A handful of representative elements, including edge cases near `p`.
fn samples() -> Vec<F> {
    vec![0, 1, 2, 7, 42, 1000, P - 1, P - 2, P / 2, 123_456_789]
}

#[test]
fn additive_identity() {
    for &a in &samples() {
        assert_eq!(fadd(a, 0), fnorm(a), "a + 0 = a failed for {a}");
    }
}

#[test]
fn multiplicative_identity() {
    for &a in &samples() {
        assert_eq!(fmul(a, 1), fnorm(a), "a * 1 = a failed for {a}");
    }
}

#[test]
fn additive_inverse() {
    for &a in &samples() {
        assert_eq!(fadd(a, fneg(a)), 0, "a + (-a) = 0 failed for {a}");
    }
}

#[test]
fn multiplicative_inverse() {
    for &a in &samples() {
        match finv(a) {
            Some(inv) => assert_eq!(fmul(a, inv), 1, "a * inv(a) = 1 failed for {a}"),
            None => assert_eq!(a, 0, "only 0 should have no inverse"),
        }
    }
}

#[test]
fn zero_has_no_inverse() {
    assert_eq!(finv(0), None);
    assert_eq!(fdiv(5, 0), None);
}

#[test]
fn commutativity() {
    let pairs = [(3, 5), (P - 1, 9), (42, 1000), (123_456, 7)];
    for &(a, b) in &pairs {
        assert_eq!(fadd(a, b), fadd(b, a), "addition commutativity");
        assert_eq!(fmul(a, b), fmul(b, a), "multiplication commutativity");
    }
}

#[test]
fn distributivity() {
    // a * (b + c) == a*b + a*c
    let triples = [(3, 5, 7), (P - 1, 2, 9), (1000, 42, P - 3), (11, 13, 17)];
    for &(a, b, c) in &triples {
        let lhs = fmul(a, fadd(b, c));
        let rhs = fadd(fmul(a, b), fmul(a, c));
        assert_eq!(lhs, rhs, "distributivity failed for ({a},{b},{c})");
    }
}

#[test]
fn subtraction_is_inverse_of_addition() {
    let pairs = [(10, 3), (3, 10), (0, 1), (P - 1, P - 2)];
    for &(a, b) in &pairs {
        // (a - b) + b == a
        assert_eq!(fadd(fsub(a, b), b), fnorm(a), "sub/add roundtrip");
    }
}

#[test]
fn pow_matches_repeated_multiplication() {
    assert_eq!(fpow(3, 5), 243);
    assert_eq!(fpow(2, 10), 1024);
    assert_eq!(fpow(123_456, 0), 1);
    assert_eq!(fpow(0, 7), 0);
}

#[test]
fn fermat_little_theorem() {
    // For a != 0, a^(p-1) == 1.
    for &a in &[1, 2, 7, 42, P - 1] {
        assert_eq!(fpow(a, P - 1), 1, "Fermat failed for {a}");
    }
}

// ---- further cases ----

#[test]
fn modulus_is_mersenne_61() {
    assert_eq!(P, (1u128 << 61) - 1);
}

#[test]
fn norm_reduces_large_values() {
    assert_eq!(fnorm(P), 0);
    assert_eq!(fnorm(P + 5), 5);
    assert_eq!(fnorm(u128::MAX), u128::MAX % P);
}

#[test]
fn add_wraps_around_modulus() {
    assert_eq!(fadd(P - 1, 1), 0);
    assert_eq!(fadd(P - 1, P - 1), P - 2);
    assert_eq!(fadd(u128::MAX, u128::MAX), (2 * (u128::MAX % P)) % P);
}

#[test]
fn sub_stays_non_negative() {
    assert_eq!(fsub(3, 10), P - 7);
    assert_eq!(fsub(10, 3), 7);
    assert_eq!(fsub(0, 0), 0);
}

#[test]
fn mul_of_large_elements() {
    // (p - 1)^2 = 1 (mod p)
    assert_eq!(fmul(P - 1, P - 1), 1);
    assert_eq!(fmul(1 << 40, 1 << 40), (1u128 << 80) % P);
}

#[test]
fn neg_values() {
    assert_eq!(fneg(0), 0);
    assert_eq!(fneg(3), P - 3);
    assert_eq!(fneg(P), 0);
    assert_eq!(fneg(P + 1), P - 1);
}

#[test]
fn inverse_and_division_exact_values() {
    // 2 * 2^{-1} = 1 and 2^{-1} = (p + 1) / 2
    assert_eq!(finv(2), Some((P + 1) / 2));
    assert_eq!(finv(P), None);
    assert_eq!(fdiv(6, 3), Some(2));
    assert_eq!(fdiv(1, 2), Some((P + 1) / 2));
    assert_eq!(fdiv(5, P), None);
}

#[test]
fn pow_reduces_its_base() {
    assert_eq!(fpow(P + 2, 3), 8);
    // 2^61 = 1 (mod 2^61 - 1)
    assert_eq!(fpow(2, 61), 1);
}

#[test]
fn associativity() {
    let triples = [(3, 5, 7), (P - 1, P - 2, 9), (1000, 42, P - 3)];
    for &(a, b, c) in &triples {
        assert_eq!(fadd(fadd(a, b), c), fadd(a, fadd(b, c)));
        assert_eq!(fmul(fmul(a, b), c), fmul(a, fmul(b, c)));
    }
}

#[test]
fn no_zero_divisors_on_samples() {
    for &a in &[1, 2, 7, P - 1, 123_456_789] {
        for &b in &[1, 3, P - 2, 1u128 << 60] {
            assert_ne!(fmul(a, b), 0);
        }
    }
}

#[test]
fn division_undoes_multiplication() {
    for &(a, b) in &[(10, 3), (P - 1, 2), (0, 5), (123_456_789, P - 7)] {
        let q = fdiv(a, b).unwrap();
        assert_eq!(fmul(q, b), fnorm(a));
    }
}

#[test]
fn modulus_has_no_small_divisor() {
    for d in 2..200_000u128 {
        assert_ne!(P % d, 0, "{d} divides p");
    }
}
