use zk_fuzz_hunter::field::P;
use zk_fuzz_hunter::fuzzer::{apply_random_draws, hunt};
use zk_fuzz_hunter::r1cs::{
    under_constrained, under_constrained_witness, well_constrained, well_constrained_witness,
    Constraint, ConstraintSystem,
};

#[test]
fn finds_collision_in_under_constrained_system() {
    let cs = under_constrained();
    let honest = under_constrained_witness();
    let report = hunt(&cs, &honest, 100_000, 0xF1E1D);

    assert!(
        report.under_constrained,
        "fuzzer MUST flag the under-constrained x*x=y system"
    );
    let (h, forged) = report
        .witness_collision
        .expect("expected a colliding witness pair");
    assert_eq!(h[2], forged[2], "public y must match");
    assert_ne!(h[1], forged[1], "private x must differ");
    assert_eq!(forged[1], P - 3);
    assert_eq!(report.signals_flagged, vec![1]);
    assert!(cs.is_satisfied(&forged));
}

#[test]
fn finds_no_collision_in_well_constrained_system() {
    let cs = well_constrained();
    let honest = well_constrained_witness();
    let report = hunt(&cs, &honest, 200_000, 0xC0DE);

    assert!(
        !report.under_constrained,
        "fuzzer must NOT flag the properly-constrained system (no collision exists)"
    );
    assert!(report.witness_collision.is_none());
    assert!(report.signals_flagged.is_empty());
}

// ---- further cases ----

#[test]
fn first_structured_candidate_is_reported_first() {
    let cs = under_constrained();
    let report = hunt(&cs, &under_constrained_witness(), 10, 1);
    // The negation of x is the very first candidate.
    assert_eq!(report.iterations, 1);
    assert_eq!(report.witness_collision.unwrap().1, vec![1, P - 3, 9]);
}

#[test]
fn clean_report_counts_the_larger_budget() {
    let cs = well_constrained();
    let honest = well_constrained_witness();
    // 4 private signals: 4 * 7 single mutations + copies between differing values.
    // Honest private values: x=3, b0=1, b1=1, b2=0 -> ordered pairs with different values:
    // (x,b0),(x,b1),(x,b2),(b0,x),(b0,b2),(b1,x),(b1,b2),(b2,x),(b2,b0),(b2,b1) = 10.
    let report = hunt(&cs, &honest, 5, 7);
    assert!(!report.under_constrained);
    assert_eq!(report.iterations, 38);
    let report = hunt(&cs, &honest, 1000, 7);
    assert_eq!(report.iterations, 1000);
}

#[test]
fn unconstrained_signal_is_flagged_by_negation() {
    // w = [1, x, z] with the single constraint z * 1 = z: any x is accepted.
    let cs = ConstraintSystem {
        name: "free x".to_string(),
        num_signals: 3,
        constraints: vec![Constraint { a: vec![(2, 1)], b: vec![(0, 1)], c: vec![(2, 1)] }],
        public_indices: vec![2],
    };
    let honest = vec![1, 5, 7];
    let report = hunt(&cs, &honest, 10, 3);
    assert!(report.under_constrained);
    // Negation comes first and already works.
    assert_eq!(report.witness_collision.unwrap().1, vec![1, P - 5, 7]);
    assert_eq!(report.signals_flagged, vec![1]);
}

#[test]
fn boolean_signal_alias_is_found_by_perturbation() {
    // w = [1, a, b] with only a * a = a: a is boolean but not pinned.
    let cs = ConstraintSystem {
        name: "boolean a".to_string(),
        num_signals: 3,
        constraints: vec![Constraint { a: vec![(1, 1)], b: vec![(1, 1)], c: vec![(1, 1)] }],
        public_indices: vec![],
    };
    // a = 1, b = 0. Candidates in order for a: -1, 1 + 1, 1 - 1; the third (a = 0) satisfies.
    let honest = vec![1, 1, 0];
    let report = hunt(&cs, &honest, 10, 3);
    assert!(report.under_constrained);
    assert_eq!(report.iterations, 3);
    assert_eq!(report.witness_collision.unwrap().1, vec![1, 0, 0]);
    assert_eq!(report.signals_flagged, vec![1]);
}

#[test]
fn non_canonical_honest_witness_is_forged_by_its_canonical_form() {
    // The honest bit b2 is stored as p (= 0 in the field); its negation 0 differs as an integer.
    let cs = well_constrained();
    let honest = vec![1, 3, 9, 1, 1, P];
    let report = hunt(&cs, &honest, 10, 5);
    assert!(report.under_constrained);
    let (h, forged) = report.witness_collision.unwrap();
    assert_eq!(h, honest);
    assert_eq!(forged, vec![1, 3, 9, 1, 1, 0]);
    assert_eq!(report.signals_flagged, vec![5]);
}

#[test]
fn random_draws_replace_signals_whose_coin_is_set() {
    let honest = [1, 5, 7, 9];
    assert_eq!(apply_random_draws(&honest, &[1, 3], &[true, false], &[42, 99]), vec![1, 42, 7, 9]);
    assert_eq!(apply_random_draws(&honest, &[1, 3], &[false, true], &[42, 99]), vec![1, 5, 7, 99]);
    assert_eq!(apply_random_draws(&honest, &[1, 3], &[false, false], &[42, 99]), honest.to_vec());
    // A later position overrides an earlier one for the same signal.
    assert_eq!(apply_random_draws(&honest, &[2, 2], &[true, true], &[3, 4]), vec![1, 5, 4, 9]);
    assert_eq!(apply_random_draws(&honest, &[], &[], &[]), honest.to_vec());
}
