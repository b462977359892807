//! A minimal rank-1 constraint system over the prime field of [`crate::field`].
//!
//! Each constraint has the form `(A·w) * (B·w) = (C·w)` where `w` is the
//! witness vector (public and private signals) and `A`, `B`, `C` are sparse
//! linear combinations over it. By convention `w[0] == 1` (the constant wire),
//! so a linear combination encodes constants by referencing index 0.

use vstd::prelude::*;
use vstd::arithmetic::div_mod::*;
use vstd::arithmetic::mul::*;

use crate::field::{fadd, fmul, fneg, F, P, field_norm, field_mul, field_neg};
use crate::field_theory::law_no_zero_divisors;

verus! {

/// A sparse linear combination `Σ coeff·w[index]`, stored as `(index, coeff)`
/// pairs.
pub type Lc = Vec<(usize, F)>;

/// A single rank-1 constraint: `(A·w) * (B·w) = (C·w)`.
#[derive(Debug, Clone, PartialEq, Eq)]
pub struct Constraint {
    pub a: Lc,
    pub b: Lc,
    pub c: Lc,
}

/// The mathematical content of a [`Constraint`]: its three linear combinations.
#[verifier::ext_equal]
pub struct ConstraintModel {
    pub a: Seq<(usize, u128)>,
    pub b: Seq<(usize, u128)>,
    pub c: Seq<(usize, u128)>,
}

impl View for Constraint {
    type V = ConstraintModel;

    open spec fn view(&self) -> ConstraintModel {
        ConstraintModel { a: self.a@, b: self.b@, c: self.c@ }
    }
}

/// A constraint system: the constraints plus the witness indices that are
/// public (fixed by the verifier) rather than private (the prover's secret).
#[derive(Debug, Clone)]
pub struct ConstraintSystem {
    /// Human-readable label for diagnostics.
    pub name: String,
    /// Number of signals in the witness, including `w[0] == 1`.
    pub num_signals: usize,
    /// The constraints to satisfy.
    pub constraints: Vec<Constraint>,
    /// Witness indices that are public inputs/outputs. Index `0` (the constant
    /// wire) is always implicitly public.
    pub public_indices: Vec<usize>,
}

/// The mathematical content of a [`ConstraintSystem`] (its label aside).
#[verifier::ext_equal]
pub struct SystemModel {
    pub num_signals: nat,
    pub constraints: Seq<ConstraintModel>,
    pub public_indices: Seq<usize>,
}

impl View for ConstraintSystem {
    type V = SystemModel;

    open spec fn view(&self) -> SystemModel {
        SystemModel {
            num_signals: self.num_signals as nat,
            constraints: self.constraints@.map_values(|c: Constraint| c@),
            public_indices: self.public_indices@,
        }
    }
}

/// The contribution `coeff·w[index]` of one term; an index outside the
/// witness contributes nothing.
pub open spec fn term_value(t: (usize, u128), w: Seq<u128>) -> int {
    if (t.0 as int) < w.len() {
        t.1 * w[t.0 as int]
    } else {
        0
    }
}

/// The integer sum `Σ coeff·w[index]` of a linear combination.
pub open spec fn lc_sum(lc: Seq<(usize, u128)>, w: Seq<u128>) -> int
    decreases lc.len(),
{
    if lc.len() == 0 {
        0
    } else {
        lc_sum(lc.drop_last(), w) + term_value(lc.last(), w)
    }
}

/// The value of a linear combination in the field.
pub open spec fn lc_value(lc: Seq<(usize, u128)>, w: Seq<u128>) -> int {
    field_norm(lc_sum(lc, w))
}

/// `(A·w) * (B·w) = (C·w)` holds in the field.
pub open spec fn constraint_holds(c: ConstraintModel, w: Seq<u128>) -> bool {
    field_mul(lc_value(c.a, w), lc_value(c.b, w)) == lc_value(c.c, w)
}

/// `w` is a satisfying witness: it has one entry per signal (at least the
/// constant wire), the constant wire is `1`, and every constraint holds.
pub open spec fn system_satisfied(s: SystemModel, w: Seq<u128>) -> bool {
    &&& w.len() == s.num_signals
    &&& w.len() > 0
    &&& w[0] == 1
    &&& forall|k: int| 0 <= k < s.constraints.len() ==> constraint_holds(#[trigger] s.constraints[k], w)
}

/// Signal `i` is private: neither the constant wire nor a public index.
pub open spec fn is_private(s: SystemModel, i: int) -> bool {
    &&& 1 <= i < s.num_signals
    &&& !s.public_indices.contains(i as usize)
}

/// The private indices below `n`, in increasing order.
pub open spec fn private_upto(s: SystemModel, n: nat) -> Seq<usize>
    decreases n,
{
    if n <= 1 {
        Seq::empty()
    } else {
        let prev = private_upto(s, (n - 1) as nat);
        if s.public_indices.contains((n - 1) as usize) {
            prev
        } else {
            prev.push((n - 1) as usize)
        }
    }
}

/// The private indices of a system, in increasing order.
pub open spec fn private_seq(s: SystemModel) -> Seq<usize> {
    private_upto(s, s.num_signals)
}

/// `private_upto` lists exactly the private indices below `n`, strictly increasing.
pub proof fn lemma_private_upto(s: SystemModel, n: nat)
    requires
        n <= s.num_signals,
        s.num_signals <= usize::MAX + 1,
    ensures
        forall|j: int| 0 <= j < private_upto(s, n).len() ==> is_private(s, #[trigger] private_upto(s, n)[j] as int)
            && private_upto(s, n)[j] < n,
        forall|i: int| is_private(s, i) && i < n ==> #[trigger] private_upto(s, n).contains(i as usize),
        forall|j: int, k: int| 0 <= j < k < private_upto(s, n).len() ==> private_upto(s, n)[j] < private_upto(s, n)[k],
    decreases n,
{
    if n > 1 {
        lemma_private_upto(s, (n - 1) as nat);
        let prev = private_upto(s, (n - 1) as nat);
        let cur = private_upto(s, n);
        assert forall|i: int| is_private(s, i) && i < n implies #[trigger] cur.contains(i as usize) by {
            if i < n - 1 {
                assert(prev.contains(i as usize));
                let j = choose|j: int| 0 <= j < prev.len() && prev[j] == i as usize;
                if !s.public_indices.contains((n - 1) as usize) {
                    assert(cur == prev.push((n - 1) as usize));
                }
                assert(cur[j] == prev[j]);
                assert(cur[j] == i as usize);
            } else {
                assert(cur[cur.len() - 1] == i as usize);
            }
        }
    }
}

/// The private indices of a system: exactly the private signals, increasing.
pub proof fn lemma_private_seq(s: SystemModel)
    requires
        s.num_signals <= usize::MAX + 1,
    ensures
        forall|j: int| 0 <= j < private_seq(s).len() ==> is_private(s, #[trigger] private_seq(s)[j] as int),
        forall|i: int| is_private(s, i) ==> #[trigger] private_seq(s).contains(i as usize),
        forall|j: int, k: int| 0 <= j < k < private_seq(s).len() ==> private_seq(s)[j] < private_seq(s)[k],
{
    lemma_private_upto(s, s.num_signals);
}

/// Whether `v` holds `x`.
fn contains_index(v: &Vec<usize>, x: usize) -> (r: bool)
    ensures
        r == v@.contains(x),
{
    let mut k: usize = 0;
    while k < v.len()
        invariant
            k <= v.len(),
            forall|j: int| 0 <= j < k ==> v@[j] != x,
        decreases v.len() - k,
    {
        if v[k] == x {
            assert(v@[k as int] == x);
            return true;
        }
        k += 1;
    }
    false
}

impl Constraint {
    /// Evaluates a linear combination against a witness vector. Out-of-range
    /// indices contribute nothing.
    fn eval_lc(lc: &Lc, witness: &[F]) -> (r: F)
        ensures
            r == lc_value(lc@, witness@),
            r < P,
    {
        let mut acc: F = 0;
        let mut k: usize = 0;
        proof {
            assert(lc@.take(0) =~= Seq::<(usize, u128)>::empty());
        }
        while k < lc.len()
            invariant
                k <= lc.len(),
                acc < P,
                acc == lc_value(lc@.take(k as int), witness@),
            decreases lc.len() - k,
        {
            let (idx, coeff) = lc[k];
            proof {
                assert(lc@.take(k + 1).drop_last() =~= lc@.take(k as int));
                assert(lc@.take(k + 1).last() == lc@[k as int]);
                lemma_add_mod_noop(lc_sum(lc@.take(k as int), witness@), term_value(lc@[k as int], witness@), P as int);
                lemma_mod_twice(term_value(lc@[k as int], witness@), P as int);
            }
            if idx < witness.len() {
                let w = witness[idx];
                acc = fadd(acc, fmul(coeff, w));
            } else {
                proof {
                    lemma_small_mod(acc as nat, P as nat);
                }
            }
            k += 1;
        }
        proof {
            assert(lc@.take(lc@.len() as int) =~= lc@);
        }
        acc
    }

    /// Returns `true` iff this constraint holds for `witness`.
    pub fn is_satisfied(&self, witness: &[F]) -> (r: bool)
        ensures
            r == constraint_holds(self@, witness@),
    {
        let a = Self::eval_lc(&self.a, witness);
        let b = Self::eval_lc(&self.b, witness);
        let c = Self::eval_lc(&self.c, witness);
        proof {
            lemma_small_mod(a as nat, P as nat);
            lemma_small_mod(b as nat, P as nat);
        }
        fmul(a, b) == c
    }
}

impl ConstraintSystem {
    /// Returns `true` iff the witness has one entry per signal, the constant
    /// wire is pinned to `1`, and every constraint holds.
    pub fn is_satisfied(&self, witness: &[F]) -> (r: bool)
        requires
            self.num_signals > 0 || witness@.len() > 0,
        ensures
            r == system_satisfied(self@, witness@),
    {
        if witness.len() != self.num_signals {
            return false;
        }
        if witness[0] != 1 {
            return false;
        }
        let mut k: usize = 0;
        while k < self.constraints.len()
            invariant
                k <= self.constraints.len(),
                forall|j: int| 0 <= j < k ==> constraint_holds(#[trigger] self@.constraints[j], witness@),
            decreases self.constraints.len() - k,
        {
            if !self.constraints[k].is_satisfied(witness) {
                assert(self@.constraints[k as int] == self.constraints@[k as int]@);
                return false;
            }
            k += 1;
        }
        true
    }

    /// The witness indices the fuzzer may mutate: every index in
    /// `1..num_signals` that is not public, in increasing order.
    pub fn private_indices(&self) -> (r: Vec<usize>)
        ensures
            r@ == private_seq(self@),
            forall|j: int| 0 <= j < r@.len() ==> is_private(self@, #[trigger] r@[j] as int),
            forall|i: int| is_private(self@, i) ==> #[trigger] r@.contains(i as usize),
            forall|j: int, k: int| 0 <= j < k < r@.len() ==> r@[j] < r@[k],
    {
        let mut out: Vec<usize> = Vec::new();
        let mut i: usize = 1;
        if self.num_signals == 0 {
            proof {
                lemma_private_seq(self@);
            }
            return out;
        }
        while i < self.num_signals
            invariant
                1 <= i <= self.num_signals,
                out@ == private_upto(self@, i as nat),
            decreases self.num_signals - i,
        {
            if !contains_index(&self.public_indices, i) {
                out.push(i);
            }
            i += 1;
        }
        proof {
            lemma_private_seq(self@);
            assert(out@ == private_seq(self@));
            assert forall|j: int| 0 <= j < out@.len() implies is_private(self@, #[trigger] out@[j] as int) by {
                assert(out@[j] == private_seq(self@)[j]);
            }
        }
        out
    }
}


/// The booleanity constraint `bit * (bit - 1) = 0`.
pub open spec fn bool_constraint_model(bit: usize) -> ConstraintModel {
    ConstraintModel {
        a: seq![(bit, 1u128)],
        b: seq![(bit, 1u128), (0usize, (P - 1) as u128)],
        c: Seq::empty(),
    }
}

/// The well-constrained sample: `w = [1, x, y, b0, b1, b2]` with `x * x = y`,
/// three booleanity constraints and `(b0 + 2·b1 + 4·b2) * 1 = x`; `y` public.
pub open spec fn well_constrained_model() -> SystemModel {
    SystemModel {
        num_signals: 6,
        constraints: seq![
            ConstraintModel { a: seq![(1usize, 1u128)], b: seq![(1usize, 1u128)], c: seq![(2usize, 1u128)] },
            bool_constraint_model(3),
            bool_constraint_model(4),
            bool_constraint_model(5),
            ConstraintModel {
                a: seq![(3usize, 1u128), (4usize, 2u128), (5usize, 4u128)],
                b: seq![(0usize, 1u128)],
                c: seq![(1usize, 1u128)],
            },
        ],
        public_indices: seq![2usize],
    }
}

/// The honest witness of the well-constrained sample: `x = 3`, `y = 9`, bits `1,1,0`.
pub open spec fn well_constrained_witness_model() -> Seq<u128> {
    seq![1u128, 3, 9, 1, 1, 0]
}

/// The under-constrained sample: `w = [1, x, y]` with only `x * x = y`; `y` public.
pub open spec fn under_constrained_model() -> SystemModel {
    SystemModel {
        num_signals: 3,
        constraints: seq![
            ConstraintModel { a: seq![(1usize, 1u128)], b: seq![(1usize, 1u128)], c: seq![(2usize, 1u128)] },
        ],
        public_indices: seq![2usize],
    }
}

/// The honest witness of the under-constrained sample: `x = 3`, `y = 9`.
pub open spec fn under_constrained_witness_model() -> Seq<u128> {
    seq![1u128, 3, 9]
}

/// `bit * (bit - 1) = 0`, i.e. `A = bit`, `B = bit - 1`, `C = 0`.
fn bool_constraint(bit: usize) -> (r: Constraint)
    ensures
        r@ == bool_constraint_model(bit),
{
    let minus_one = fneg(1);
    assert(minus_one == P - 1);
    Constraint { a: vec![(bit, 1)], b: vec![(bit, 1), (0, minus_one)], c: vec![] }
}

/// Builds the well-constrained sample system (`x` pinned by its 3-bit
/// decomposition, so `-x` cannot alias it).
pub fn well_constrained() -> (r: ConstraintSystem)
    ensures
        r@ == well_constrained_model(),
        r.name@ == "well_constrained (x*x=y, x pinned by bit-decomposition)"@,
{
    let one: usize = 0;
    let x: usize = 1;
    let b0: usize = 3;
    let b1: usize = 4;
    let b2: usize = 5;
    let constraints = vec![
        Constraint { a: vec![(x, 1)], b: vec![(x, 1)], c: vec![(2, 1)] },
        bool_constraint(b0),
        bool_constraint(b1),
        bool_constraint(b2),
        Constraint { a: vec![(b0, 1), (b1, 2), (b2, 4)], b: vec![(one, 1)], c: vec![(x, 1)] },
    ];
    let r = ConstraintSystem {
        name: "well_constrained (x*x=y, x pinned by bit-decomposition)".to_string(),
        num_signals: 6,
        constraints,
        public_indices: vec![2],
    };
    proof {
        broadcast use vstd::string::group_string_axioms;
        assert(r@.constraints =~~= well_constrained_model().constraints);
    }
    r
}

/// The honest witness for [`well_constrained`]: `x = 3`, `y = 9`, bits `1,1,0`.
pub fn well_constrained_witness() -> (r: Vec<F>)
    ensures
        r@ == well_constrained_witness_model(),
{
    vec![1, 3, 9, 1, 1, 0]
}

/// Builds the under-constrained sample system: only `x * x = y`, so both `x`
/// and `-x` satisfy it for the same public `y`.
pub fn under_constrained() -> (r: ConstraintSystem)
    ensures
        r@ == under_constrained_model(),
        r.name@ == "under_constrained (only x*x=y — x and -x both satisfy)"@,
{
    let x: usize = 1;
    let y: usize = 2;
    let constraints = vec![Constraint { a: vec![(x, 1)], b: vec![(x, 1)], c: vec![(y, 1)] }];
    let r = ConstraintSystem {
        name: "under_constrained (only x*x=y — x and -x both satisfy)".to_string(),
        num_signals: 3,
        constraints,
        public_indices: vec![2],
    };
    proof {
        broadcast use vstd::string::group_string_axioms;
        assert(r@.constraints =~~= under_constrained_model().constraints);
    }
    r
}

/// The honest witness for [`under_constrained`]: `x = 3`, `y = 9`.
pub fn under_constrained_witness() -> (r: Vec<F>)
    ensures
        r@ == under_constrained_witness_model(),
{
    vec![1, 3, 9]
}


/// A linear combination with a single term evaluates to that term.
pub proof fn lemma_lc_sum_single(t: (usize, u128), w: Seq<u128>)
    ensures
        lc_sum(seq![t], w) == term_value(t, w),
{
    assert(seq![t].drop_last() =~= Seq::<(usize, u128)>::empty());
    assert(lc_sum(Seq::<(usize, u128)>::empty(), w) == 0);
    assert(seq![t].last() == t);
}

/// The forgeable alias of the under-constrained sample: negating `x` in any
/// satisfying witness gives another satisfying witness with the same public `y`.
pub proof fn law_under_constrained_negation_alias(w: Seq<u128>)
    requires
        system_satisfied(under_constrained_model(), w),
    ensures
        system_satisfied(under_constrained_model(), w.update(1, field_neg(w[1] as int) as u128)),
{
    let m = P as int;
    let s = under_constrained_model();
    let c = s.constraints[0];
    let x = w[1] as int;
    let n = field_neg(x);
    let w2 = w.update(1, n as u128);
    assert(constraint_holds(c, w));
    lemma_lc_sum_single((1usize, 1u128), w);
    lemma_lc_sum_single((2usize, 1u128), w);
    lemma_lc_sum_single((1usize, 1u128), w2);
    lemma_lc_sum_single((2usize, 1u128), w2);
    lemma_mod_twice(-x, m);
    lemma_mul_mod_noop(-x, -x, m);
    lemma_mul_mod_noop(x, x, m);
    lemma_mul_cancels_negatives(x, x);
    assert(c.a == seq![(1usize, 1u128)]);
    assert(c.c == seq![(2usize, 1u128)]);
    assert(w2[1] as int == n);
    assert(lc_value(c.a, w2) == n);
    assert(lc_value(c.c, w2) == lc_value(c.c, w));
    assert(w.len() == 3);
    lemma_mul_basics(x);
    assert(term_value((1usize, 1u128), w) == x);
    assert(lc_sum(c.a, w) == x);
    assert(lc_value(c.a, w) == x % m);
    assert(field_mul(n, n) == field_mul(x % m, x % m));
    assert(constraint_holds(c, w2));
    assert forall|k: int| 0 <= k < s.constraints.len() implies constraint_holds(#[trigger] s.constraints[k], w2) by {
        assert(k == 0);
    }
}

/// A two-term linear combination evaluates to the sum of its terms.
proof fn lemma_lc_sum_two(t1: (usize, u128), t2: (usize, u128), w: Seq<u128>)
    ensures
        lc_sum(seq![t1, t2], w) == term_value(t1, w) + term_value(t2, w),
{
    assert(seq![t1, t2].drop_last() =~= seq![t1]);
    assert(seq![t1, t2].last() == t2);
    lemma_lc_sum_single(t1, w);
}

/// A three-term linear combination evaluates to the sum of its terms.
proof fn lemma_lc_sum_three(t1: (usize, u128), t2: (usize, u128), t3: (usize, u128), w: Seq<u128>)
    ensures
        lc_sum(seq![t1, t2, t3], w) == term_value(t1, w) + term_value(t2, w) + term_value(t3, w),
{
    assert(seq![t1, t2, t3].drop_last() =~= seq![t1, t2]);
    assert(seq![t1, t2, t3].last() == t3);
    lemma_lc_sum_two(t1, t2, w);
}

/// In a witness whose constant wire is `1`, the booleanity constraint on
/// signal `i` forces `w[i]` to be `0` or `1` in the field.
proof fn lemma_bool_constraint(i: usize, w: Seq<u128>)
    requires
        0 < i < w.len(),
        w[0] == 1,
        constraint_holds(bool_constraint_model(i), w),
    ensures
        field_norm(w[i as int] as int) == 0 || field_norm(w[i as int] as int) == 1,
{
    let m = P as int;
    let c = bool_constraint_model(i);
    let v = w[i as int] as int;
    lemma_lc_sum_single((i, 1u128), w);
    lemma_lc_sum_two((i, 1u128), (0usize, (P - 1) as u128), w);
    lemma_mul_basics(v);
    assert(lc_sum(c.a, w) == v);
    assert(lc_sum(c.b, w) == v + (P - 1));
    assert(lc_sum(c.c, w) == 0);
    lemma_mod_add_multiples_vanish(v - 1, m);
    assert(lc_value(c.b, w) == field_norm(v - 1));
    lemma_mul_mod_noop(v, v - 1, m);
    if field_norm(v) != 0 && field_norm(v - 1) != 0 {
        law_no_zero_divisors(v, v - 1);
        assert(false);
    }
    if field_norm(v - 1) == 0 {
        lemma_sub_mod_noop(v, 1, m);
        lemma_small_mod(1, P as nat);
        assert((field_norm(v) - 1) % m == 0);
        lemma_mod_bound(v, m);
        if field_norm(v) == 0 {
            assert((-1int) % m == m - 1);
        } else {
            lemma_small_mod((field_norm(v) - 1) as nat, P as nat);
        }
    }
}

/// The shape of every satisfying witness of the well-constrained sample, in
/// the field: the bits are `0` or `1`, `x = b0 + 2·b1 + 4·b2` and `y = x²`.
proof fn lemma_well_constrained_solution(w: Seq<u128>)
    requires
        system_satisfied(well_constrained_model(), w),
    ensures
        field_norm(w[3] as int) == 0 || field_norm(w[3] as int) == 1,
        field_norm(w[4] as int) == 0 || field_norm(w[4] as int) == 1,
        field_norm(w[5] as int) == 0 || field_norm(w[5] as int) == 1,
        field_norm(w[1] as int) == field_norm(w[3] as int) + 2 * field_norm(w[4] as int) + 4 * field_norm(w[5] as int),
        field_norm(w[2] as int) == field_norm(w[1] as int) * field_norm(w[1] as int),
{
    let m = P as int;
    let s = well_constrained_model();
    assert(constraint_holds(s.constraints[0], w));
    assert(constraint_holds(s.constraints[1], w));
    assert(constraint_holds(s.constraints[2], w));
    assert(constraint_holds(s.constraints[3], w));
    assert(constraint_holds(s.constraints[4], w));
    lemma_bool_constraint(3, w);
    lemma_bool_constraint(4, w);
    lemma_bool_constraint(5, w);
    let x = w[1] as int;
    let y = w[2] as int;
    let w3 = w[3] as int;
    let w4 = w[4] as int;
    let w5 = w[5] as int;
    lemma_mul_basics(x);
    lemma_mul_basics(y);
    lemma_mul_basics(w3);
    lemma_mul_basics(1);
    lemma_lc_sum_single((1usize, 1u128), w);
    lemma_lc_sum_single((2usize, 1u128), w);
    lemma_lc_sum_single((0usize, 1u128), w);
    lemma_lc_sum_three((3usize, 1u128), (4usize, 2u128), (5usize, 4u128), w);
    // Constraint 5: (b0 + 2·b1 + 4·b2) * 1 = x.
    let b0 = field_norm(w3);
    let b1 = field_norm(w4);
    let b2 = field_norm(w5);
    lemma_fundamental_div_mod(w3, m);
    lemma_fundamental_div_mod(w4, m);
    lemma_fundamental_div_mod(w5, m);
    let q = w3 / m + 2 * (w4 / m) + 4 * (w5 / m);
    assert(w3 + 2 * w4 + 4 * w5 == q * m + (b0 + 2 * b1 + 4 * b2)) by (nonlinear_arith)
        requires
            w3 == m * (w3 / m) + b0,
            w4 == m * (w4 / m) + b1,
            w5 == m * (w5 / m) + b2,
            q == w3 / m + 2 * (w4 / m) + 4 * (w5 / m),
    ;
    lemma_fundamental_div_mod_converse_mod(w3 + 2 * w4 + 4 * w5, m, q, b0 + 2 * b1 + 4 * b2);
    let sum = b0 + 2 * b1 + 4 * b2;
    assert(lc_value(s.constraints[4].a, w) == sum);
    assert(lc_value(s.constraints[4].b, w) == 1);
    lemma_small_mod(sum as nat, P as nat);
    lemma_mul_basics(sum);
    assert(field_mul(sum, 1) == sum);
    assert(lc_value(s.constraints[4].c, w) == field_norm(x));
    assert(field_norm(x) == sum);
    // Constraint 1: x * x = y.
    let xr = field_norm(x);
    assert(lc_value(s.constraints[0].a, w) == xr);
    assert(lc_value(s.constraints[0].c, w) == field_norm(y));
    assert(xr * xr <= 49) by (nonlinear_arith)
        requires
            0 <= xr <= 7,
    ;
    lemma_small_mod((xr * xr) as nat, P as nat);
}

/// The well-constrained sample pins every signal: two satisfying witnesses
/// with the same public `y` (as a field element) agree on every signal as
/// field elements.
pub proof fn law_well_constrained_unique(w1: Seq<u128>, w2: Seq<u128>)
    requires
        system_satisfied(well_constrained_model(), w1),
        system_satisfied(well_constrained_model(), w2),
        field_norm(w1[2] as int) == field_norm(w2[2] as int),
    ensures
        forall|i: int| 0 <= i < 6 ==> field_norm(w1[i] as int) == field_norm(w2[i] as int),
{
    lemma_well_constrained_solution(w1);
    lemma_well_constrained_solution(w2);
    let x1 = field_norm(w1[1] as int);
    let x2 = field_norm(w2[1] as int);
    assert(x1 == x2) by (nonlinear_arith)
        requires
            0 <= x1 <= 7,
            0 <= x2 <= 7,
            x1 * x1 == x2 * x2,
    ;
    assert forall|i: int| 0 <= i < 6 implies field_norm(w1[i] as int) == field_norm(w2[i] as int) by {
        if i == 0 {
            assert(w1[0] == w2[0]);
        }
    }
}

/// A linear combination evaluates to the sum of its terms: the empty one is
/// `0`, and appending a term `(index, coeff)` adds `coeff·w[index]` (nothing
/// when `index` is outside the witness).
pub proof fn law_lc_sum_push(lc: Seq<(usize, u128)>, t: (usize, u128), w: Seq<u128>)
    ensures
        lc_sum(Seq::<(usize, u128)>::empty(), w) == 0,
        lc_sum(lc.push(t), w) == lc_sum(lc, w) + (if (t.0 as int) < w.len() { t.1 * w[t.0 as int] } else { 0 }),
{
    assert(lc.push(t).drop_last() =~= lc);
    assert(lc.push(t).last() == t);
}

/// A linear combination of two concatenated lists is the sum of both parts.
pub proof fn law_lc_sum_concat(l1: Seq<(usize, u128)>, l2: Seq<(usize, u128)>, w: Seq<u128>)
    ensures
        lc_sum(l1 + l2, w) == lc_sum(l1, w) + lc_sum(l2, w),
    decreases l2.len(),
{
    if l2.len() == 0 {
        assert(l1 + l2 =~= l1);
    } else {
        let rest = l2.drop_last();
        let t = l2.last();
        assert(l2 =~= rest.push(t));
        assert(l1 + l2 =~= (l1 + rest).push(t));
        law_lc_sum_concat(l1, rest, w);
        law_lc_sum_push(l1 + rest, t, w);
        law_lc_sum_push(rest, t, w);
    }
}

/// A constraint holds exactly when `(Σa)·(Σb) - Σc` is a multiple of `p`,
/// where each `Σ` is the integer sum of a linear combination's terms.
pub proof fn law_constraint_holds(c: ConstraintModel, w: Seq<u128>)
    ensures
        constraint_holds(c, w) <==> (lc_sum(c.a, w) * lc_sum(c.b, w) - lc_sum(c.c, w)) % (P as int) == 0,
{
    let m = P as int;
    let x = lc_sum(c.a, w);
    let y = lc_sum(c.b, w);
    let z = lc_sum(c.c, w);
    lemma_mul_mod_noop(x, y, m);
    lemma_sub_mod_noop(x * y, z, m);
    let d = (x * y) % m - z % m;
    lemma_mod_bound(x * y, m);
    lemma_mod_bound(z, m);
    if d % m == 0 {
        lemma_fundamental_div_mod(d, m);
        let q = d / m;
        assert(q == 0) by (nonlinear_arith)
            requires
                d == m * q,
                -m < d < m,
                m > 0,
        ;
    } else {
        if d == 0 {
            lemma_small_mod(0, m as nat);
        }
    }
}

/// A witness satisfies a system exactly when it has one entry per signal (at
/// least the constant wire), the constant wire is `1`, and every constraint of
/// the list holds.
pub proof fn law_system_satisfied(s: SystemModel, w: Seq<u128>)
    ensures
        system_satisfied(s, w) <==> {
            &&& w.len() == s.num_signals
            &&& w.len() > 0
            &&& w[0] == 1
            &&& forall|k: int| 0 <= k < s.constraints.len() ==> constraint_holds(#[trigger] s.constraints[k], w)
        },
        system_satisfied(s, w) ==> forall|k: int| 0 <= k < s.constraints.len()
            ==> constraint_holds(#[trigger] s.constraints[k], w),
{
}

/// Appending a constraint to a system keeps exactly the satisfying witnesses
/// of the old system that also satisfy the new constraint.
pub proof fn law_system_add_constraint(s: SystemModel, c: ConstraintModel, w: Seq<u128>)
    ensures
        system_satisfied(
            SystemModel { num_signals: s.num_signals, constraints: s.constraints.push(c), public_indices: s.public_indices },
            w,
        ) <==> system_satisfied(s, w) && constraint_holds(c, w),
{
    let s2 = SystemModel { num_signals: s.num_signals, constraints: s.constraints.push(c), public_indices: s.public_indices };
    if system_satisfied(s2, w) {
        assert(constraint_holds(s2.constraints[s.constraints.len() as int], w));
        assert forall|k: int| 0 <= k < s.constraints.len() implies constraint_holds(#[trigger] s.constraints[k], w) by {
            assert(constraint_holds(s2.constraints[k], w));
        }
    }
    if system_satisfied(s, w) && constraint_holds(c, w) {
        assert forall|k: int| 0 <= k < s2.constraints.len() implies constraint_holds(#[trigger] s2.constraints[k], w) by {
            if k < s.constraints.len() {
                assert(s2.constraints[k] == s.constraints[k]);
            }
        }
    }
}

/// The private indices of a system are exactly the indices in
/// `1..num_signals` that are not public, in strictly increasing order.
pub proof fn law_private_indices(s: SystemModel)
    requires
        s.num_signals <= usize::MAX + 1,
    ensures
        forall|i: usize| private_seq(s).contains(i)
            <==> (1 <= i < s.num_signals && !s.public_indices.contains(i)),
        forall|j: int, k: int| 0 <= j < k < private_seq(s).len() ==> private_seq(s)[j] < private_seq(s)[k],
{
    lemma_private_seq(s);
    assert forall|i: usize| private_seq(s).contains(i) implies (1 <= i < s.num_signals && !s.public_indices.contains(i)) by {
        let j = choose|j: int| 0 <= j < private_seq(s).len() && private_seq(s)[j] == i;
        assert(is_private(s, private_seq(s)[j] as int));
    }
    assert forall|i: usize| (1 <= i < s.num_signals && !s.public_indices.contains(i)) implies private_seq(s).contains(i) by {
        assert(is_private(s, i as int));
    }
}

} // verus!
