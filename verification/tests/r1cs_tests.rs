use zk_fuzz_hunter::field::{fneg, P};
use zk_fuzz_hunter::r1cs::{
    under_constrained, under_constrained_witness, well_constrained, well_constrained_witness,
    Constraint, ConstraintSystem,
};

#[test]
fn well_constrained_honest_witness_satisfies() {
    let cs = well_constrained();
    assert!(cs.is_satisfied(&well_constrained_witness()));
}

#[test]
fn well_constrained_rejects_negated_x() {
    // -x (= p - 3) must fail: the bit-decomposition pins x to 3.
    let cs = well_constrained();
    let mut bad = well_constrained_witness();
    bad[1] = fneg(3); // x := -3
    assert!(!cs.is_satisfied(&bad), "negated x should not satisfy");
}

#[test]
fn well_constrained_rejects_wrong_y() {
    let cs = well_constrained();
    let mut bad = well_constrained_witness();
    bad[2] = 10; // y := 10, but 3*3 = 9
    assert!(!cs.is_satisfied(&bad));
}

#[test]
fn well_constrained_rejects_non_boolean_bit() {
    let cs = well_constrained();
    let mut bad = well_constrained_witness();
    bad[3] = 2; // b0 must be 0 or 1
    assert!(!cs.is_satisfied(&bad));
}

#[test]
fn under_constrained_honest_witness_satisfies() {
    let cs = under_constrained();
    assert!(cs.is_satisfied(&under_constrained_witness()));
}

#[test]
fn under_constrained_also_accepts_negated_x() {
    // The forgeable alias: -x squares to the same y.
    let cs = under_constrained();
    let forged = vec![1, fneg(3), 9]; // x := -3, y := 9
    assert!(
        cs.is_satisfied(&forged),
        "under-constrained system must (wrongly) accept -x"
    );
    assert_ne!(fneg(3), 3);
    assert_eq!(fneg(3), P - 3);
}

#[test]
fn under_constrained_rejects_bad_square() {
    let cs = under_constrained();
    let bad = vec![1, 4, 9]; // 4*4 = 16 != 9
    assert!(!cs.is_satisfied(&bad));
}

#[test]
fn wrong_constant_wire_invalidates_system() {
    let cs = under_constrained();
    let mut bad = under_constrained_witness();
    bad[0] = 2; // constant wire must be 1
    assert!(!cs.is_satisfied(&bad));
}

#[test]
fn private_indices_excludes_public_and_constant() {
    let cs = under_constrained();
    assert_eq!(cs.private_indices(), vec![1]); // only x
    let cs2 = well_constrained();
    assert_eq!(cs2.private_indices(), vec![1, 3, 4, 5]); // x + 3 bits
}

// ---- further cases ----

#[test]
fn wrong_witness_length_is_rejected() {
    let cs = under_constrained();
    assert!(!cs.is_satisfied(&[1, 3]));
    assert!(!cs.is_satisfied(&[1, 3, 9, 0]));
    assert!(!cs.is_satisfied(&[]));
}

#[test]
fn well_constrained_structure() {
    let cs = well_constrained();
    assert_eq!(cs.num_signals, 6);
    assert_eq!(cs.public_indices, vec![2]);
    assert_eq!(cs.constraints.len(), 5);
    assert_eq!(cs.constraints[1].b, vec![(3, 1), (0, P - 1)]);
    assert_eq!(cs.name, "well_constrained (x*x=y, x pinned by bit-decomposition)");
}

#[test]
fn under_constrained_structure() {
    let cs = under_constrained();
    assert_eq!(cs.num_signals, 3);
    assert_eq!(cs.public_indices, vec![2]);
    assert_eq!(cs.constraints.len(), 1);
    assert_eq!(cs.name, "under_constrained (only x*x=y — x and -x both satisfy)");
}

#[test]
fn constraint_linear_combinations_and_out_of_range_terms() {
    // (2·w1 + 3·w7) * (w0) = w2 ; index 7 is out of range and contributes nothing.
    let c = Constraint { a: vec![(1, 2), (7, 3)], b: vec![(0, 1)], c: vec![(2, 1)] };
    assert!(c.is_satisfied(&[1, 5, 10]));
    assert!(!c.is_satisfied(&[1, 5, 11]));
    // Coefficients are taken modulo p.
    let d = Constraint { a: vec![(1, P + 2)], b: vec![(0, 1)], c: vec![(2, 1)] };
    assert!(d.is_satisfied(&[1, 5, 10]));
    // An empty combination is zero.
    let e = Constraint { a: vec![], b: vec![(1, 1)], c: vec![] };
    assert!(e.is_satisfied(&[1, 5]));
}

#[test]
fn private_indices_with_no_public_and_all_public() {
    let cs = ConstraintSystem {
        name: "t".to_string(),
        num_signals: 4,
        constraints: vec![],
        public_indices: vec![],
    };
    assert_eq!(cs.private_indices(), vec![1, 2, 3]);
    let cs2 = ConstraintSystem {
        name: "t".to_string(),
        num_signals: 4,
        constraints: vec![],
        public_indices: vec![3, 1, 2, 9],
    };
    assert_eq!(cs2.private_indices(), Vec::<usize>::new());
    let cs3 = ConstraintSystem {
        name: "t".to_string(),
        num_signals: 0,
        constraints: vec![],
        public_indices: vec![],
    };
    assert_eq!(cs3.private_indices(), Vec::<usize>::new());
}

#[test]
fn well_constrained_checks_field_values_not_integers() {
    // A bit equal to p is 0 in the field: the system accepts it.
    let cs = well_constrained();
    assert!(cs.is_satisfied(&[1, 3, 9, 1, 1, P]));
    assert!(cs.is_satisfied(&[1, 3 + P, 9, 1, 1, 0]));
    // Any other x is rejected for y = 9, e.g. the other square root.
    assert!(!cs.is_satisfied(&[1, P - 3, 9, 1, 1, 0]));
}
