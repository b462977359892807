//! The under-constrained signal hunter.
//!
//! Given a constraint system and an honest witness that satisfies it, the
//! hunter holds the public signals (and the constant wire) fixed and searches
//! the private signals for a second, distinct witness that also satisfies
//! every constraint. Structured mutations come first (field negation, small
//! additive perturbations, cross-signal copies); seeded random field elements
//! follow within the iteration budget.

use vstd::prelude::*;
use vstd::slice::slice_to_vec;
use vstd::arithmetic::div_mod::*;
use rand::rngs::StdRng;
use rand::{Rng, SeedableRng};

use crate::field::{fadd, fneg, fsub, F, P, field_add, field_neg, field_sub, field_norm};
use crate::r1cs::{
    ConstraintSystem, SystemModel, system_satisfied, private_seq, private_upto, is_private, lemma_private_seq,
    well_constrained_model, under_constrained_model, law_well_constrained_unique,
    law_under_constrained_negation_alias,
};

verus! {

/// The view of a vector of witnesses.
pub open spec fn witnesses_view(v: Seq<Vec<u128>>) -> Seq<Seq<u128>> {
    v.map_values(|x: Vec<u128>| x@)
}

/// `w[i]` when `i` is in range, `None` otherwise.
pub open spec fn opt_at(w: Seq<u128>, i: int) -> Option<u128> {
    if 0 <= i < w.len() {
        Some(w[i])
    } else {
        None
    }
}

/// Every entry of `w` is a canonical field element (below `p`).
pub open spec fn is_reduced(w: Seq<u128>) -> bool {
    forall|i: int| 0 <= i < w.len() ==> w[i] < P
}

/// `w` with signal `i` set to `v`.
pub open spec fn with_signal(w: Seq<u128>, i: usize, v: int) -> Seq<u128> {
    w.update(i as int, v as u128)
}

/// The additive perturbations `w[i] + k` and `w[i] - k` for `k = 1..=n`, in order.
pub open spec fn perturbations(honest: Seq<u128>, i: usize, n: nat) -> Seq<Seq<u128>>
    decreases n,
{
    if n == 0 {
        Seq::empty()
    } else {
        let h = honest[i as int] as int;
        perturbations(honest, i, (n - 1) as nat)
            + seq![with_signal(honest, i, field_add(h, n as int)), with_signal(honest, i, field_sub(h, n as int))]
    }
}

/// The single-signal mutations of signal `i`: its negation, then `±1`, `±2`, `±3`.
pub open spec fn single_mutations(honest: Seq<u128>, i: usize) -> Seq<Seq<u128>> {
    seq![with_signal(honest, i, field_neg(honest[i as int] as int))] + perturbations(honest, i, 3)
}

/// The single-signal mutations of every index of `idxs`, in order.
pub open spec fn all_single_mutations(idxs: Seq<usize>, honest: Seq<u128>) -> Seq<Seq<u128>>
    decreases idxs.len(),
{
    if idxs.len() == 0 {
        Seq::empty()
    } else {
        all_single_mutations(idxs.drop_last(), honest) + single_mutations(honest, idxs.last())
    }
}

/// Copies into signal `i` of the honest value of each `j` of `js` that is a
/// different signal with a different honest value.
pub open spec fn copies_into(js: Seq<usize>, honest: Seq<u128>, i: usize) -> Seq<Seq<u128>>
    decreases js.len(),
{
    if js.len() == 0 {
        Seq::empty()
    } else {
        let j = js.last();
        let more = if i != j && honest[i as int] != honest[j as int] {
            seq![with_signal(honest, i, honest[j as int] as int)]
        } else {
            Seq::empty()
        };
        copies_into(js.drop_last(), honest, i) + more
    }
}

/// The cross-signal copies into each signal of `is`, from each signal of `js`.
pub open spec fn all_copies(is: Seq<usize>, js: Seq<usize>, honest: Seq<u128>) -> Seq<Seq<u128>>
    decreases is.len(),
{
    if is.len() == 0 {
        Seq::empty()
    } else {
        all_copies(is.drop_last(), js, honest) + copies_into(js, honest, is.last())
    }
}

/// The structured candidates tried before any random search, in order.
pub open spec fn structured_spec(s: SystemModel, honest: Seq<u128>) -> Seq<Seq<u128>> {
    all_single_mutations(private_seq(s), honest) + all_copies(private_seq(s), private_seq(s), honest)
}

/// Returns `honest` with signal `i` set to `v`.
fn mutated(honest: &[F], i: usize, v: F) -> (r: Vec<F>)
    requires
        i < honest@.len(),
    ensures
        r@ == with_signal(honest@, i, v as int),
        is_reduced(honest@) && v < P ==> is_reduced(r@),
{
    let mut w = slice_to_vec(honest);
    w.set(i, v);
    w
}

/// The structured candidate witnesses derived from the honest one: for each
/// private signal its negation and `±1, ±2, ±3` perturbations, then every
/// cross-signal copy between private signals with different honest values.
fn structured_candidates(cs: &ConstraintSystem, honest: &[F]) -> (r: Vec<Vec<F>>)
    requires
        forall|j: int| 0 <= j < private_seq(cs@).len() ==> (#[trigger] private_seq(cs@)[j] as int) < honest@.len(),
    ensures
        witnesses_view(r@) == structured_spec(cs@, honest@),
        forall|k: int| 0 <= k < r@.len() ==> (#[trigger] r@[k])@.len() == honest@.len(),
        is_reduced(honest@) ==> forall|k: int| 0 <= k < r@.len() ==> is_reduced((#[trigger] r@[k])@),
{
    let privs = cs.private_indices();
    let ghost ps = privs@;
    let mut out: Vec<Vec<F>> = Vec::new();

    // Single-signal mutations.
    let mut a: usize = 0;
    proof {
        assert(ps.take(0) =~= Seq::<usize>::empty());
        assert(witnesses_view(out@) =~= Seq::<Seq<u128>>::empty());
    }
    while a < privs.len()
        invariant
            a <= privs.len(),
            privs@ == ps,
            ps == private_seq(cs@),
            forall|j: int| 0 <= j < ps.len() ==> (#[trigger] ps[j] as int) < honest@.len(),
            witnesses_view(out@) == all_single_mutations(ps.take(a as int), honest@),
            forall|k: int| 0 <= k < out@.len() ==> (#[trigger] out@[k])@.len() == honest@.len(),
            is_reduced(honest@) ==> forall|k: int| 0 <= k < out@.len() ==> is_reduced((#[trigger] out@[k])@),
        decreases privs.len() - a,
    {
        let i = privs[a];
        assert((ps[a as int] as int) < honest@.len());
        let h = honest[i];
        let ghost before = witnesses_view(out@);
        out.push(mutated(honest, i, fneg(h)));
        let mut k: u128 = 1;
        proof {
            assert(witnesses_view(out@) =~= before + seq![with_signal(honest@, i, field_neg(h as int))]);
            assert(perturbations(honest@, i, 0) =~= Seq::<Seq<u128>>::empty());
        }
        while k <= 3
            invariant
                1 <= k <= 4,
                i < honest@.len(),
                h == honest@[i as int],
                witnesses_view(out@) == before + seq![with_signal(honest@, i, field_neg(h as int))]
                    + perturbations(honest@, i, (k - 1) as nat),
                forall|k: int| 0 <= k < out@.len() ==> (#[trigger] out@[k])@.len() == honest@.len(),
                is_reduced(honest@) ==> forall|k: int| 0 <= k < out@.len() ==> is_reduced((#[trigger] out@[k])@),
            decreases 4 - k,
        {
            let ghost mid = witnesses_view(out@);
            out.push(mutated(honest, i, fadd(h, k)));
            out.push(mutated(honest, i, fsub(h, k)));
            proof {
                assert(witnesses_view(out@) =~= mid + seq![
                    with_signal(honest@, i, field_add(h as int, k as int)),
                    with_signal(honest@, i, field_sub(h as int, k as int)),
                ]);
            }
            k += 1;
        }
        proof {
            assert(ps.take(a + 1).drop_last() =~= ps.take(a as int));
            assert(ps.take(a + 1).last() == i);
            assert(witnesses_view(out@) =~= all_single_mutations(ps.take(a + 1), honest@));
        }
        a += 1;
    }
    proof {
        assert(ps.take(ps.len() as int) =~= ps);
    }
    let ghost singles = witnesses_view(out@);

    // Cross-signal copies.
    let mut a: usize = 0;
    proof {
        assert(ps.take(0) =~= Seq::<usize>::empty());
        assert(singles + all_copies(ps.take(0), ps, honest@) =~= singles);
    }
    while a < privs.len()
        invariant
            a <= privs.len(),
            privs@ == ps,
            ps == private_seq(cs@),
            forall|j: int| 0 <= j < ps.len() ==> (#[trigger] ps[j] as int) < honest@.len(),
            witnesses_view(out@) == singles + all_copies(ps.take(a as int), ps, honest@),
            forall|k: int| 0 <= k < out@.len() ==> (#[trigger] out@[k])@.len() == honest@.len(),
            is_reduced(honest@) ==> forall|k: int| 0 <= k < out@.len() ==> is_reduced((#[trigger] out@[k])@),
        decreases privs.len() - a,
    {
        let i = privs[a];
        assert((ps[a as int] as int) < honest@.len());
        let ghost before = witnesses_view(out@);
        let mut b: usize = 0;
        proof {
            assert(ps.take(0) =~= Seq::<usize>::empty());
            assert(before + copies_into(ps.take(0), honest@, i) =~= before);
        }
        while b < privs.len()
            invariant
                b <= privs.len(),
                privs@ == ps,
                i < honest@.len(),
                forall|j: int| 0 <= j < ps.len() ==> (#[trigger] ps[j] as int) < honest@.len(),
                witnesses_view(out@) == before + copies_into(ps.take(b as int), honest@, i),
                forall|k: int| 0 <= k < out@.len() ==> (#[trigger] out@[k])@.len() == honest@.len(),
                is_reduced(honest@) ==> forall|k: int| 0 <= k < out@.len() ==> is_reduced((#[trigger] out@[k])@),
            decreases privs.len() - b,
        {
            let j = privs[b];
            assert((ps[b as int] as int) < honest@.len());
            let ghost mid = witnesses_view(out@);
            proof {
                assert(ps.take(b + 1).drop_last() =~= ps.take(b as int));
                assert(ps.take(b + 1).last() == j);
            }
            if i != j && honest[i] != honest[j] {
                out.push(mutated(honest, i, honest[j]));
                proof {
                    assert(witnesses_view(out@) =~= mid + seq![with_signal(honest@, i, honest@[j as int] as int)]);
                    assert(witnesses_view(out@) =~= before + copies_into(ps.take(b + 1), honest@, i));
                }
            } else {
                proof {
                    assert(witnesses_view(out@) =~= before + copies_into(ps.take(b + 1), honest@, i));
                }
            }
            b += 1;
        }
        proof {
            assert(ps.take(b as int) =~= ps);
            assert(ps.take(a + 1).drop_last() =~= ps.take(a as int));
            assert(ps.take(a + 1).last() == i);
            assert(witnesses_view(out@) =~= singles + all_copies(ps.take(a + 1), ps, honest@));
        }
        a += 1;
    }
    proof {
        assert(ps.take(ps.len() as int) =~= ps);
    }
    out
}


/// `cand` is a forging witness: it keeps the constant wire and every public
/// signal of `honest`, satisfies the system, and differs from `honest`.
pub open spec fn is_collision(s: SystemModel, honest: Seq<u128>, cand: Seq<u128>) -> bool {
    &&& cand.len() > 0
    &&& honest.len() > 0
    &&& cand[0] == honest[0]
    &&& forall|k: int| 0 <= k < s.public_indices.len()
            ==> opt_at(cand, #[trigger] s.public_indices[k] as int) == opt_at(honest, s.public_indices[k] as int)
    &&& system_satisfied(s, cand)
    &&& cand != honest
}

/// The indices of `idxs` at which `a` and `b` differ, in order.
pub open spec fn differing(idxs: Seq<usize>, a: Seq<u128>, b: Seq<u128>) -> Seq<usize>
    decreases idxs.len(),
{
    if idxs.len() == 0 {
        Seq::empty()
    } else {
        let i = idxs.last();
        let more = if opt_at(a, i as int) != opt_at(b, i as int) { seq![i] } else { Seq::empty() };
        differing(idxs.drop_last(), a, b) + more
    }
}

/// The private signals at which `cand` differs from `honest`, in increasing order.
pub open spec fn differing_private(s: SystemModel, honest: Seq<u128>, cand: Seq<u128>) -> Seq<usize> {
    differing(private_seq(s), honest, cand)
}

/// Structured candidate `k` is the first structured candidate that collides.
pub open spec fn first_structured_collision(s: SystemModel, honest: Seq<u128>, k: int) -> bool {
    &&& 0 <= k < structured_spec(s, honest).len()
    &&& is_collision(s, honest, structured_spec(s, honest)[k])
    &&& forall|j: int| 0 <= j < k ==> !is_collision(s, honest, #[trigger] structured_spec(s, honest)[j])
}

/// No structured candidate collides.
pub open spec fn no_structured_collision(s: SystemModel, honest: Seq<u128>) -> bool {
    forall|j: int| 0 <= j < structured_spec(s, honest).len()
        ==> !is_collision(s, honest, #[trigger] structured_spec(s, honest)[j])
}

/// The verdict for one system.
#[derive(Debug, Clone)]
pub struct Report {
    /// `true` if a distinct, satisfying alternate witness was found.
    pub under_constrained: bool,
    /// The colliding pair `(honest, forged)` when one was found.
    pub witness_collision: Option<(Vec<F>, Vec<F>)>,
    /// How many candidate witnesses were evaluated before stopping.
    pub iterations: u64,
    /// Private signal indices that differ in the colliding witness.
    pub signals_flagged: Vec<usize>,
}

impl Report {
    /// A clean bill of health: no collision found within the budget.
    fn ok(iterations: u64) -> (r: Self)
        ensures
            !r.under_constrained,
            r.witness_collision is None,
            r.iterations == iterations,
            r.signals_flagged@.len() == 0,
    {
        Report { under_constrained: false, witness_collision: None, iterations, signals_flagged: Vec::new() }
    }
}

/// Whether `a` and `b` agree at index `i` (both absent counts as agreeing).
fn same_at(a: &[F], b: &[F], i: usize) -> (r: bool)
    ensures
        r == (opt_at(a@, i as int) == opt_at(b@, i as int)),
{
    if i < a.len() && i < b.len() {
        a[i] == b[i]
    } else {
        i >= a.len() && i >= b.len()
    }
}

/// Whether two witnesses are equal.
fn same_witness(a: &[F], b: &[F]) -> (r: bool)
    ensures
        r == (a@ == b@),
{
    if a.len() != b.len() {
        return false;
    }
    let mut k: usize = 0;
    while k < a.len()
        invariant
            a@.len() == b@.len(),
            k <= a.len(),
            forall|j: int| 0 <= j < k ==> a@[j] == b@[j],
        decreases a.len() - k,
    {
        if a[k] != b[k] {
            return false;
        }
        k += 1;
    }
    assert(a@ =~= b@);
    true
}

/// Returns the private indices whose values differ between two witnesses.
fn diff_private(cs: &ConstraintSystem, honest: &[F], cand: &[F]) -> (r: Vec<usize>)
    ensures
        r@ == differing_private(cs@, honest@, cand@),
{
    let privs = cs.private_indices();
    let mut out: Vec<usize> = Vec::new();
    let mut k: usize = 0;
    proof {
        assert(privs@.take(0) =~= Seq::<usize>::empty());
    }
    while k < privs.len()
        invariant
            k <= privs.len(),
            out@ == differing(privs@.take(k as int), honest@, cand@),
        decreases privs.len() - k,
    {
        let i = privs[k];
        proof {
            assert(privs@.take(k + 1).drop_last() =~= privs@.take(k as int));
            assert(privs@.take(k + 1).last() == i);
        }
        if !same_at(honest, cand, i) {
            out.push(i);
        }
        k += 1;
    }
    proof {
        assert(privs@.take(privs@.len() as int) =~= privs@);
    }
    out
}

/// Checks one candidate: it must keep the constant wire and every public
/// signal of the honest witness, satisfy the system, and differ from the
/// honest witness. Returns a copy of the candidate when it collides.
fn check_candidate(cs: &ConstraintSystem, honest: &[F], cand: &[F]) -> (r: Option<Vec<F>>)
    requires
        cand@.len() > 0,
        honest@.len() > 0,
    ensures
        r is Some <==> is_collision(cs@, honest@, cand@),
        r matches Some(v) ==> v@ == cand@,
{
    if cand[0] != honest[0] {
        return None;
    }
    let mut k: usize = 0;
    while k < cs.public_indices.len()
        invariant
            k <= cs.public_indices.len(),
            forall|j: int| 0 <= j < k ==> opt_at(cand@, #[trigger] cs@.public_indices[j] as int)
                == opt_at(honest@, cs@.public_indices[j] as int),
        decreases cs.public_indices.len() - k,
    {
        let pi = cs.public_indices[k];
        if !same_at(cand, honest, pi) {
            assert(cs@.public_indices[k as int] == pi);
            return None;
        }
        k += 1;
    }
    if !cs.is_satisfied(cand) {
        return None;
    }
    if same_witness(cand, honest) {
        return None;
    }
    Some(slice_to_vec(cand))
}


/// The larger of two integers.
pub open spec fn larger_of(a: int, b: int) -> int {
    if a >= b { a } else { b }
}

/// rand's `StdRng`, the seeded pseudo-random generator of the random phase.
#[verifier::external_type_specification]
#[verifier::external_body]
pub struct ExStdRng(StdRng);

/// Calls rand's `SeedableRng::seed_from_u64` for `StdRng`. Nothing is stated
/// of the generator it returns.
#[verifier::external_body]
fn rng_from_seed(seed: u64) -> StdRng {
    StdRng::seed_from_u64(seed)
}

/// Calls rand's `Rng::gen_ratio(numerator, denominator)`: `true` with
/// probability `numerator / denominator` (it panics only on a zero denominator
/// or a numerator above it, which `requires` leaves out). Nothing is stated of
/// the outcome.
#[verifier::external_body]
fn rng_ratio(rng: &mut StdRng, numerator: u32, denominator: u32) -> bool
    requires
        0 < denominator,
        numerator <= denominator,
{
    rng.gen_ratio(numerator, denominator)
}

/// Calls rand's `Rng::gen_range(0..bound)`, which its documentation promises
/// lies in the half-open range (it panics only on an empty range, which
/// `requires` leaves out); that bound is all that is stated.
#[verifier::external_body]
fn rng_below(rng: &mut StdRng, bound: u128) -> (r: u128)
    requires
        bound > 0,
    ensures
        r < bound,
{
    rng.gen_range(0..bound)
}

/// The candidate built from random draws: `honest` with signal `privs[t]`
/// replaced by `values[t]` for each position `t` whose coin `coins[t]` is set,
/// later positions overriding earlier ones.
pub open spec fn random_candidate_spec(
    honest: Seq<u128>,
    privs: Seq<usize>,
    coins: Seq<bool>,
    values: Seq<u128>,
) -> Seq<u128>
    decreases privs.len(),
{
    if privs.len() == 0 {
        honest
    } else {
        let n = privs.len() - 1;
        let prev = random_candidate_spec(honest, privs.drop_last(), coins, values);
        if coins[n] {
            prev.update(privs[n] as int, values[n])
        } else {
            prev
        }
    }
}

/// Builds a random candidate from draws already made: a copy of `honest` in
/// which each signal `privs[t]` whose coin `coins[t]` is `true` takes the drawn
/// value `values[t]`.
pub fn apply_random_draws(honest: &[F], privs: &[usize], coins: &[bool], values: &[F]) -> (r: Vec<F>)
    requires
        coins@.len() == privs@.len(),
        values@.len() == privs@.len(),
        forall|j: int| 0 <= j < privs@.len() ==> (#[trigger] privs@[j] as int) < honest@.len(),
    ensures
        r@ == random_candidate_spec(honest@, privs@, coins@, values@),
        r@.len() == honest@.len(),
        is_reduced(honest@) && (forall|j: int| 0 <= j < values@.len() ==> #[trigger] values@[j] < P)
            ==> is_reduced(r@),
{
    let mut cand = slice_to_vec(honest);
    let mut t: usize = 0;
    proof {
        assert(privs@.take(0) =~= Seq::<usize>::empty());
    }
    while t < privs.len()
        invariant
            t <= privs@.len(),
            coins@.len() == privs@.len(),
            values@.len() == privs@.len(),
            forall|j: int| 0 <= j < privs@.len() ==> (#[trigger] privs@[j] as int) < honest@.len(),
            cand@ == random_candidate_spec(honest@, privs@.take(t as int), coins@, values@),
            cand@.len() == honest@.len(),
            is_reduced(honest@) && (forall|j: int| 0 <= j < values@.len() ==> #[trigger] values@[j] < P)
                ==> is_reduced(cand@),
        decreases privs.len() - t,
    {
        let i = privs[t];
        assert((privs@[t as int] as int) < honest@.len());
        proof {
            assert(privs@.take(t + 1).drop_last() =~= privs@.take(t as int));
            assert(privs@.take(t + 1)[t as int] == i);
        }
        if coins[t] {
            cand.set(i, values[t]);
        }
        t += 1;
    }
    proof {
        assert(privs@.take(privs@.len() as int) =~= privs@);
    }
    cand
}

/// Hunts for an under-constrained signal in `cs` given an `honest` witness.
///
/// Structured candidates are tried first, in order; the first that collides
/// is reported. Otherwise random candidates (each private signal replaced by
/// a random field element on a fair coin) are tried while fewer than
/// `iterations` candidates in all have been evaluated.
pub fn hunt(cs: &ConstraintSystem, honest: &[F], iterations: u64, seed: u64) -> (r: Report)
    requires
        system_satisfied(cs@, honest@),
    ensures
        r.under_constrained <==> r.witness_collision is Some,
        r.witness_collision matches Some(pair) ==> {
            &&& pair.0@ == honest@
            &&& is_collision(cs@, honest@, pair.1@)
            &&& r.signals_flagged@ == differing_private(cs@, honest@, pair.1@)
        },
        !r.under_constrained ==> r.signals_flagged@.len() == 0,
        r.under_constrained ==> r.signals_flagged@.len() > 0,
        forall|k: int| #[trigger] first_structured_collision(cs@, honest@, k) ==> {
            &&& r.under_constrained
            &&& r.iterations == k + 1
            &&& r.witness_collision matches Some(pair) && pair.1@ == structured_spec(cs@, honest@)[k]
        },
        no_structured_collision(cs@, honest@) && r.under_constrained ==>
            structured_spec(cs@, honest@).len() < r.iterations <= iterations,
        no_structured_collision(cs@, honest@) && !r.under_constrained ==>
            r.iterations == larger_of(structured_spec(cs@, honest@).len() as int, iterations as int),
        is_reduced(honest@) ==> (r.witness_collision matches Some(pair) ==> is_reduced(pair.1@)),
        no_structured_collision(cs@, honest@) ==> (r.witness_collision matches Some(pair) ==> exists|coins: Seq<bool>, values: Seq<u128>| {
            &&& coins.len() == private_seq(cs@).len()
            &&& values.len() == private_seq(cs@).len()
            &&& forall|j: int| 0 <= j < values.len() ==> #[trigger] values[j] < P
            &&& pair.1@ == #[trigger] random_candidate_spec(honest@, private_seq(cs@), coins, values)
        }),
{
    let mut evaluated: u64 = 0;

    // Phase 1: structured mutations.
    proof {
        lemma_private_seq(cs@);
        assert forall|j: int| 0 <= j < private_seq(cs@).len() implies
            (#[trigger] private_seq(cs@)[j] as int) < honest@.len() by {
            assert(is_private(cs@, private_seq(cs@)[j] as int));
        }
    }
    let cands = structured_candidates(cs, honest);
    let ghost sc = structured_spec(cs@, honest@);
    let mut k: usize = 0;
    while k < cands.len()
        invariant
            k <= cands.len(),
            evaluated == k,
            witnesses_view(cands@) == sc,
            sc == structured_spec(cs@, honest@),
            system_satisfied(cs@, honest@),
            forall|j: int| 0 <= j < cands@.len() ==> (#[trigger] cands@[j])@.len() == honest@.len(),
            is_reduced(honest@) ==> forall|j: int| 0 <= j < cands@.len() ==> is_reduced((#[trigger] cands@[j])@),
            forall|j: int| 0 <= j < k ==> !is_collision(cs@, honest@, #[trigger] sc[j]),
        decreases cands.len() - k,
    {
        evaluated += 1;
        let cand = &cands[k];
        assert(cand@ == sc[k as int]);
        if let Some(forged) = check_candidate(cs, honest, cand.as_slice()) {
            let flagged = diff_private(cs, honest, &forged);
            proof {
                law_collision_flags_a_private_signal(cs@, honest@, forged@);
            }
            let r = Report {
                under_constrained: true,
                witness_collision: Some((slice_to_vec(honest), forged)),
                iterations: evaluated,
                signals_flagged: flagged,
            };
            assert(first_structured_collision(cs@, honest@, k as int));
            assert forall|k2: int| #[trigger] first_structured_collision(cs@, honest@, k2) implies k2 == k by {
                if k2 < k {
                    assert(!is_collision(cs@, honest@, sc[k2]));
                } else if k2 > k {
                    assert(!is_collision(cs@, honest@, sc[k as int]));
                }
            }
            return r;
        }
        k += 1;
    }
    assert(no_structured_collision(cs@, honest@));
    assert forall|k2: int| #[trigger] first_structured_collision(cs@, honest@, k2) implies false by {
        assert(!is_collision(cs@, honest@, sc[k2]));
    }

    // Phase 2: seeded random exploration of the private signals.
    let privs = cs.private_indices();
    let mut rng = rng_from_seed(seed);
    while evaluated < iterations
        invariant
            sc.len() <= evaluated,
            evaluated <= larger_of(sc.len() as int, iterations as int),
            sc == structured_spec(cs@, honest@),
            no_structured_collision(cs@, honest@),
            system_satisfied(cs@, honest@),
            privs@ == private_seq(cs@),
            forall|j: int| 0 <= j < privs@.len() ==> is_private(cs@, #[trigger] privs@[j] as int),
        decreases iterations - evaluated,
    {
        evaluated += 1;
        // Draw a coin per private signal, and a value below p after each `true` coin.
        let mut coins: Vec<bool> = Vec::new();
        let mut values: Vec<F> = Vec::new();
        let mut t: usize = 0;
        while t < privs.len()
            invariant
                t <= privs@.len(),
                coins@.len() == t,
                values@.len() == t,
                forall|j: int| 0 <= j < values@.len() ==> #[trigger] values@[j] < P,
            decreases privs.len() - t,
        {
            let coin = rng_ratio(&mut rng, 1, 2);
            let value = if coin { rng_below(&mut rng, P) } else { 0 };
            coins.push(coin);
            values.push(value);
            t += 1;
        }
        assert forall|j: int| 0 <= j < privs@.len() implies (#[trigger] privs@[j] as int) < honest@.len() by {
            assert(is_private(cs@, privs@[j] as int));
        }
        let cand = apply_random_draws(honest, privs.as_slice(), coins.as_slice(), values.as_slice());
        if let Some(forged) = check_candidate(cs, honest, cand.as_slice()) {
            let flagged = diff_private(cs, honest, &forged);
            proof {
                law_collision_flags_a_private_signal(cs@, honest@, forged@);
            }
            assert(forged@ == random_candidate_spec(honest@, private_seq(cs@), coins@, values@));
            return Report {
                under_constrained: true,
                witness_collision: Some((slice_to_vec(honest), forged)),
                iterations: evaluated,
                signals_flagged: flagged,
            };
        }
    }

    Report::ok(evaluated)
}

/// The well-constrained sample admits no forgery: with a canonical satisfying
/// honest witness, no canonical candidate collides with it.
pub proof fn law_well_constrained_no_collision(honest: Seq<u128>, cand: Seq<u128>)
    requires
        system_satisfied(well_constrained_model(), honest),
        is_reduced(honest),
        is_reduced(cand),
    ensures
        !is_collision(well_constrained_model(), honest, cand),
{
    let s = well_constrained_model();
    if is_collision(s, honest, cand) {
        assert(s.public_indices[0] == 2);
        assert(opt_at(cand, 2) == opt_at(honest, 2));
        law_well_constrained_unique(cand, honest);
        assert forall|i: int| 0 <= i < 6 implies cand[i] == honest[i] by {
            assert(field_norm(cand[i] as int) == field_norm(honest[i] as int));
            lemma_small_mod(cand[i] as nat, P as nat);
            lemma_small_mod(honest[i] as nat, P as nat);
        }
        assert(cand =~= honest);
    }
}

/// The under-constrained sample is forged at once: for every satisfying
/// honest witness with `x != 0`, the hunter's first structured candidate —
/// `x` replaced by `-x` — is a forging witness.
pub proof fn law_under_constrained_first_candidate_forges(honest: Seq<u128>)
    requires
        system_satisfied(under_constrained_model(), honest),
        field_norm(honest[1] as int) != 0,
    ensures
        structured_spec(under_constrained_model(), honest)[0]
            == with_signal(honest, 1, field_neg(honest[1] as int)),
        first_structured_collision(under_constrained_model(), honest, 0),
{
    let s = under_constrained_model();
    let ps = private_seq(s);
    assert(private_upto(s, 1) =~= Seq::<usize>::empty());
    assert(s.public_indices.contains(2usize)) by {
        assert(s.public_indices[0] == 2);
    }
    assert(!s.public_indices.contains(1usize)) by {
        if s.public_indices.contains(1usize) {
            let j = choose|j: int| 0 <= j < s.public_indices.len() && s.public_indices[j] == 1usize;
            assert(s.public_indices.len() == 1);
        }
    }
    assert(private_upto(s, 2) =~= seq![1usize]);
    assert(ps =~= seq![1usize]);
    assert(seq![1usize].drop_last() =~= Seq::<usize>::empty());
    let singles = all_single_mutations(ps, honest);
    assert(ps.drop_last() =~= Seq::<usize>::empty());
    assert(ps.last() == 1usize);
    assert(all_single_mutations(Seq::<usize>::empty(), honest) =~= Seq::<Seq<u128>>::empty());
    assert(singles =~= Seq::<Seq<u128>>::empty() + single_mutations(honest, 1));
    let cand = with_signal(honest, 1, field_neg(honest[1] as int));
    assert(singles[0] == cand);
    assert(structured_spec(s, honest)[0] == cand);
    law_under_constrained_negation_alias(honest);
    let x = honest[1] as int;
    let m = P as int;
    lemma_fundamental_div_mod(x, m);
    lemma_mod_bound(-x, m);
    assert(cand[1] != honest[1]) by {
        lemma_sub_mod_noop(0, x, m);
        lemma_mod_self_0(m);
        assert(field_neg(x) == (0 - field_norm(x)) % m);
        lemma_mod_add_multiples_vanish(0 - field_norm(x), m);
        lemma_small_mod((m - field_norm(x)) as nat, P as nat);
        assert(field_neg(x) == m - field_norm(x));
    }
    assert(forall|k: int| 0 <= k < s.public_indices.len() ==> s.public_indices[k] == 2usize);
    assert(is_collision(s, honest, cand));
}

/// `differing` keeps exactly the listed indices at which the witnesses differ.
proof fn lemma_differing_contains(idxs: Seq<usize>, a: Seq<u128>, b: Seq<u128>, i: usize)
    requires
        idxs.contains(i),
        opt_at(a, i as int) != opt_at(b, i as int),
    ensures
        differing(idxs, a, b).contains(i),
    decreases idxs.len(),
{
    let last = idxs.last();
    let rest = idxs.drop_last();
    let more = if opt_at(a, last as int) != opt_at(b, last as int) { seq![last] } else { Seq::empty() };
    if last == i {
        assert(differing(idxs, a, b)[differing(idxs, a, b).len() - 1] == i);
    } else {
        let j = choose|j: int| 0 <= j < idxs.len() && idxs[j] == i;
        assert(rest[j] == i);
        lemma_differing_contains(rest, a, b, i);
        let k = choose|k: int| 0 <= k < differing(rest, a, b).len() && differing(rest, a, b)[k] == i;
        assert((differing(rest, a, b) + more)[k] == i);
    }
}

/// A forging witness differs from the honest one in at least one private
/// signal, so a reported collision always flags some signal.
pub proof fn law_collision_flags_a_private_signal(s: SystemModel, honest: Seq<u128>, cand: Seq<u128>)
    requires
        s.num_signals <= usize::MAX + 1,
        system_satisfied(s, honest),
        is_collision(s, honest, cand),
    ensures
        differing_private(s, honest, cand).len() > 0,
{
    assert(cand.len() == honest.len());
    let i = choose|i: int| 0 <= i < cand.len() && cand[i] != honest[i];
    assert(exists|i: int| 0 <= i < cand.len() && cand[i] != honest[i]) by {
        if forall|i: int| 0 <= i < cand.len() ==> cand[i] == honest[i] {
            assert(cand =~= honest);
        }
    }
    assert(i != 0);
    assert(!s.public_indices.contains(i as usize)) by {
        if s.public_indices.contains(i as usize) {
            let k = choose|k: int| 0 <= k < s.public_indices.len() && s.public_indices[k] == i as usize;
            assert(opt_at(cand, s.public_indices[k] as int) == opt_at(honest, s.public_indices[k] as int));
        }
    }
    assert(is_private(s, i));
    lemma_private_seq(s);
    lemma_differing_contains(private_seq(s), honest, cand, i as usize);
}

/// Layout of the perturbations: `2n` witnesses, the `k`-th pair being
/// `w[i] + k` then `w[i] - k`.
proof fn lemma_perturbations_layout(honest: Seq<u128>, i: usize, n: nat)
    ensures
        perturbations(honest, i, n).len() == 2 * n,
        forall|j: int| 0 <= j < 2 * n ==> #[trigger] perturbations(honest, i, n)[j] == (if j % 2 == 0 {
            with_signal(honest, i, field_add(honest[i as int] as int, j / 2 + 1))
        } else {
            with_signal(honest, i, field_sub(honest[i as int] as int, j / 2 + 1))
        }),
    decreases n,
{
    if n > 0 {
        lemma_perturbations_layout(honest, i, (n - 1) as nat);
        let prev = perturbations(honest, i, (n - 1) as nat);
        let cur = perturbations(honest, i, n);
        let h = honest[i as int] as int;
        let up = with_signal(honest, i, field_add(h, n as int));
        let down = with_signal(honest, i, field_sub(h, n as int));
        assert(cur == prev + seq![up, down]);
        assert forall|j: int| 0 <= j < 2 * n implies #[trigger] cur[j] == (if j % 2 == 0 {
            with_signal(honest, i, field_add(h, j / 2 + 1))
        } else {
            with_signal(honest, i, field_sub(h, j / 2 + 1))
        }) by {
            if j < 2 * n - 2 {
                assert(cur[j] == prev[j]);
            } else if j == 2 * n - 2 {
                assert(j % 2 == 0 && j / 2 + 1 == n);
                assert(cur[j] == up);
            } else {
                assert(j % 2 == 1 && j / 2 + 1 == n);
                assert(cur[j] == down);
            }
        }
    }
}

/// Layout of the single-signal mutations: seven per listed index, in order.
proof fn lemma_all_single_mutations_layout(idxs: Seq<usize>, honest: Seq<u128>)
    ensures
        all_single_mutations(idxs, honest).len() == 7 * idxs.len(),
        forall|t: int, r: int| 0 <= t < idxs.len() && 0 <= r < 7 ==>
            #[trigger] all_single_mutations(idxs, honest)[7 * t + r] == single_mutations(honest, idxs[t])[r],
    decreases idxs.len(),
{
    if idxs.len() > 0 {
        let rest = idxs.drop_last();
        lemma_all_single_mutations_layout(rest, honest);
        lemma_perturbations_layout(honest, idxs.last(), 3);
        let cur = all_single_mutations(idxs, honest);
        let prev = all_single_mutations(rest, honest);
        let last = single_mutations(honest, idxs.last());
        assert(last.len() == 7);
        assert forall|t: int, r: int| 0 <= t < idxs.len() && 0 <= r < 7 implies
            #[trigger] cur[7 * t + r] == single_mutations(honest, idxs[t])[r] by {
            if t < idxs.len() - 1 {
                assert(idxs[t] == rest[t]);
                assert(cur[7 * t + r] == prev[7 * t + r]);
            } else {
                assert(cur[7 * t + r] == last[r]);
            }
        }
    }
}

/// The single-signal structured candidates: for the `t`-th private signal `i`,
/// candidates `7t`, `7t + 2k - 1` and `7t + 2k` (for `k` in `1..=3`) are the
/// honest witness with `w[i]` replaced by `-w[i]`, `w[i] + k` and `w[i] - k`
/// modulo `p`.
pub proof fn law_structured_single_mutations(s: SystemModel, honest: Seq<u128>, t: int, k: int)
    requires
        0 <= t < private_seq(s).len(),
        1 <= k <= 3,
    ensures
        7 * private_seq(s).len() <= structured_spec(s, honest).len(),
        structured_spec(s, honest)[7 * t] == honest.update(
            private_seq(s)[t] as int,
            ((-(honest[private_seq(s)[t] as int] as int)) % (P as int)) as u128,
        ),
        structured_spec(s, honest)[7 * t + 2 * k - 1] == honest.update(
            private_seq(s)[t] as int,
            ((honest[private_seq(s)[t] as int] as int + k) % (P as int)) as u128,
        ),
        structured_spec(s, honest)[7 * t + 2 * k] == honest.update(
            private_seq(s)[t] as int,
            ((honest[private_seq(s)[t] as int] as int - k) % (P as int)) as u128,
        ),
{
    let ps = private_seq(s);
    let i = ps[t];
    lemma_all_single_mutations_layout(ps, honest);
    lemma_perturbations_layout(honest, i, 3);
    let singles = all_single_mutations(ps, honest);
    let sc = structured_spec(s, honest);
    let sm = single_mutations(honest, i);
    assert(sc[7 * t] == singles[7 * t + 0]);
    assert(sc[7 * t + 2 * k - 1] == singles[7 * t + (2 * k - 1)]);
    assert(sc[7 * t + 2 * k] == singles[7 * t + 2 * k]);
    assert(sm[0] == with_signal(honest, i, field_neg(honest[i as int] as int)));
    let pt = perturbations(honest, i, 3);
    assert(sm[2 * k - 1] == pt[2 * k - 2]);
    assert(sm[2 * k] == pt[2 * k - 1]);
    assert((2 * k - 2) % 2 == 0 && (2 * k - 2) / 2 + 1 == k);
    assert((2 * k - 1) % 2 == 1 && (2 * k - 1) / 2 + 1 == k);
}

/// `copies_into` contains the copy from every listed qualifying signal.
proof fn lemma_copies_into_contains(js: Seq<usize>, honest: Seq<u128>, i: usize, b: int)
    requires
        0 <= b < js.len(),
        i != js[b],
        honest[i as int] != honest[js[b] as int],
    ensures
        copies_into(js, honest, i).contains(with_signal(honest, i, honest[js[b] as int] as int)),
    decreases js.len(),
{
    let x = with_signal(honest, i, honest[js[b] as int] as int);
    let cur = copies_into(js, honest, i);
    if b == js.len() - 1 {
        assert(cur[cur.len() - 1] == x);
    } else {
        let rest = js.drop_last();
        assert(rest[b] == js[b]);
        lemma_copies_into_contains(rest, honest, i, b);
        let prev = copies_into(rest, honest, i);
        let q = choose|q: int| 0 <= q < prev.len() && prev[q] == x;
        assert(cur[q] == x);
    }
}

/// `all_copies` contains everything that a listed target's `copies_into` contains.
proof fn lemma_all_copies_contains(is: Seq<usize>, js: Seq<usize>, honest: Seq<u128>, a: int, x: Seq<u128>)
    requires
        0 <= a < is.len(),
        copies_into(js, honest, is[a]).contains(x),
    ensures
        all_copies(is, js, honest).contains(x),
    decreases is.len(),
{
    let cur = all_copies(is, js, honest);
    let rest = is.drop_last();
    let prev = all_copies(rest, js, honest);
    if a == is.len() - 1 {
        let c = copies_into(js, honest, is.last());
        let q = choose|q: int| 0 <= q < c.len() && c[q] == x;
        assert(cur[prev.len() + q] == x);
    } else {
        assert(rest[a] == is[a]);
        lemma_all_copies_contains(rest, js, honest, a, x);
        let q = choose|q: int| 0 <= q < prev.len() && prev[q] == x;
        assert(cur[q] == x);
    }
}

/// The cross-signal copies: for any two distinct private signals `i`, `j`
/// with different honest values, the structured candidates hold the honest
/// witness with `w[i]` set to the honest `w[j]` (a witness that differs from
/// the honest one).
pub proof fn law_structured_copies(s: SystemModel, honest: Seq<u128>, a: int, b: int)
    requires
        0 <= a < private_seq(s).len(),
        0 <= b < private_seq(s).len(),
        private_seq(s)[a] != private_seq(s)[b],
        (private_seq(s)[a] as int) < honest.len(),
        honest[private_seq(s)[a] as int] != honest[private_seq(s)[b] as int],
    ensures
        structured_spec(s, honest).contains(
            honest.update(private_seq(s)[a] as int, honest[private_seq(s)[b] as int]),
        ),
        honest.update(private_seq(s)[a] as int, honest[private_seq(s)[b] as int]) != honest,
{
    let ps = private_seq(s);
    let x = with_signal(honest, ps[a], honest[ps[b] as int] as int);
    assert(x == honest.update(ps[a] as int, honest[ps[b] as int]));
    lemma_copies_into_contains(ps, honest, ps[a], b);
    lemma_all_copies_contains(ps, ps, honest, a, x);
    let singles = all_single_mutations(ps, honest);
    let copies = all_copies(ps, ps, honest);
    let q = choose|q: int| 0 <= q < copies.len() && copies[q] == x;
    assert(structured_spec(s, honest)[singles.len() + q] == x);
    assert(x[ps[a] as int] != honest[ps[a] as int]);
}

/// `differing` holds exactly the listed indices at which the witnesses differ,
/// and keeps the listed order.
proof fn lemma_differing_members(idxs: Seq<usize>, a: Seq<u128>, b: Seq<u128>)
    ensures
        forall|i: usize| #[trigger] differing(idxs, a, b).contains(i)
            ==> idxs.contains(i) && opt_at(a, i as int) != opt_at(b, i as int),
        (forall|j: int, k: int| 0 <= j < k < idxs.len() ==> idxs[j] < idxs[k])
            ==> (forall|j: int, k: int| 0 <= j < k < differing(idxs, a, b).len()
                ==> differing(idxs, a, b)[j] < differing(idxs, a, b)[k]),
    decreases idxs.len(),
{
    if idxs.len() > 0 {
        let rest = idxs.drop_last();
        let last = idxs.last();
        lemma_differing_members(rest, a, b);
        let prev = differing(rest, a, b);
        let cur = differing(idxs, a, b);
        assert forall|i: usize| #[trigger] cur.contains(i) implies idxs.contains(i) && opt_at(a, i as int) != opt_at(b, i as int) by {
            let q = choose|q: int| 0 <= q < cur.len() && cur[q] == i;
            if q < prev.len() {
                assert(prev.contains(i));
                let r = choose|r: int| 0 <= r < rest.len() && rest[r] == i;
                assert(idxs[r] == i);
            } else {
                assert(i == last);
                assert(idxs[idxs.len() - 1] == i);
            }
        }
        if forall|j: int, k: int| 0 <= j < k < idxs.len() ==> idxs[j] < idxs[k] {
            assert forall|j: int, k: int| 0 <= j < k < rest.len() implies rest[j] < rest[k] by {
                assert(rest[j] == idxs[j] && rest[k] == idxs[k]);
            }
            assert forall|j: int, k: int| 0 <= j < k < cur.len() implies cur[j] < cur[k] by {
                if k < prev.len() {
                    assert(cur[j] == prev[j] && cur[k] == prev[k]);
                } else {
                    assert(cur[k] == last);
                    assert(cur[j] == prev[j]);
                    assert(prev.contains(prev[j]));
                    let r = choose|r: int| 0 <= r < rest.len() && rest[r] == prev[j];
                    assert(idxs[r] == prev[j]);
                    assert(idxs[idxs.len() - 1] == last);
                }
            }
        }
    }
}

/// The flagged signals of a collision are exactly the private signals (the
/// non-public indices in `1..num_signals`) at which the honest and forged
/// witnesses differ, in strictly increasing order.
pub proof fn law_flagged_signals(s: SystemModel, honest: Seq<u128>, cand: Seq<u128>)
    requires
        s.num_signals <= usize::MAX + 1,
        honest.len() == cand.len(),
    ensures
        forall|i: usize| #[trigger] differing_private(s, honest, cand).contains(i) <==> {
            &&& 1 <= i < s.num_signals
            &&& !s.public_indices.contains(i)
            &&& (i as int) < honest.len()
            &&& honest[i as int] != cand[i as int]
        },
        forall|j: int, k: int| 0 <= j < k < differing_private(s, honest, cand).len()
            ==> differing_private(s, honest, cand)[j] < differing_private(s, honest, cand)[k],
{
    let ps = private_seq(s);
    lemma_private_seq(s);
    lemma_differing_members(ps, honest, cand);
    assert forall|i: usize| #[trigger] differing_private(s, honest, cand).contains(i) <==> {
        &&& 1 <= i < s.num_signals
        &&& !s.public_indices.contains(i)
        &&& (i as int) < honest.len()
        &&& honest[i as int] != cand[i as int]
    } by {
        if differing_private(s, honest, cand).contains(i) {
            assert(ps.contains(i));
            let j = choose|j: int| 0 <= j < ps.len() && ps[j] == i;
            assert(is_private(s, ps[j] as int));
        }
        if 1 <= i < s.num_signals && !s.public_indices.contains(i) && (i as int) < honest.len()
            && honest[i as int] != cand[i as int] {
            assert(is_private(s, i as int));
            lemma_differing_contains(ps, honest, cand, i);
        }
    }
}

} // verus!
