# zk_fuzz_hunter

A hunter for under-constrained signals in rank-1 constraint systems (R1CS)
over the prime field `p = 2^61 - 1`, written in Verus.

Given a constraint system and an honest witness, the hunter keeps the public
signals fixed and looks for a second witness that satisfies every constraint
but differs in a private signal: field negation, small additive
perturbations and cross-signal copies first, then seeded random field
elements.

## Layout

- `src/field.rs` — modular arithmetic (`fadd`, `fsub`, `fmul`, `fneg`, `fpow`,
  `finv`, `fdiv`) with exact contracts, and the ring laws.
- `src/field_theory.rs` — `37` generates the multiplicative group (checked by
  square-and-multiply against the factorisation of `p - 1`); from it,
  Fermat's little theorem, inverses and the absence of zero divisors.
- `src/r1cs.rs` — constraints, systems, satisfaction, private indices, the two
  sample systems and their laws (the `-x` alias; uniqueness once `x` is
  pinned by its bits).
- `src/fuzzer.rs` — the hunter and its report; the structured phase is
  specified exactly, every reported collision is proved genuine.
- `src/config.rs` — configuration defaults and validation.
- `app/main.rs` — TOML loading, logging, and the command-line driver.

`tests/` runs the library on concrete inputs.
