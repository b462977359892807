//! Fuzzer configuration: how hard to fuzz (`iterations`), which RNG `seed`
//! to use for reproducibility, and which prime `field` to work over.
//!
//! Every setting has a default, so a minimal configuration still yields a
//! complete one; [`FuzzConfig::validate`] rejects a zero iteration budget.

use vstd::prelude::*;

use crate::field::{F, P};

verus! {

/// Which prime field the harness operates over.
#[derive(Debug, Clone, Copy, PartialEq, Eq)]
pub enum FieldChoice {
    /// `2^61 - 1`, the default u128-safe field.
    Mersenne61,
}

impl FieldChoice {
    /// The prime modulus for this field choice.
    pub fn modulus(self) -> (r: F)
        ensures
            r == P,
    {
        match self {
            FieldChoice::Mersenne61 => P,
        }
    }
}

/// Top-level fuzzer configuration.
#[derive(Debug, Clone)]
pub struct FuzzConfig {
    /// Random-search budget: how many candidate witnesses to try before
    /// declaring a system clean.
    pub iterations: u64,
    /// RNG seed, so every finding is reproducible.
    pub seed: u64,
    /// Which prime field to fuzz over.
    pub field: FieldChoice,
}

/// Why a configuration was rejected.
#[derive(Debug, Clone, Copy, PartialEq, Eq)]
pub enum ConfigError {
    /// The iteration budget is zero.
    ZeroIterations,
}

impl ConfigError {
    /// A human-readable description of the error.
    pub fn message(&self) -> (r: &'static str)
        ensures
            r@ == "iterations must be positive"@,
    {
        match self {
            ConfigError::ZeroIterations => "iterations must be positive",
        }
    }
}

/// The default iteration budget.
pub fn default_iterations() -> (r: u64)
    ensures
        r == 100_000,
{
    100_000
}

/// The default RNG seed.
pub fn default_seed() -> (r: u64)
    ensures
        r == 0xF1E1D,
{
    0xF1E1D
}

/// The default field.
pub fn default_field() -> (r: FieldChoice)
    ensures
        r == FieldChoice::Mersenne61,
{
    FieldChoice::Mersenne61
}

impl Default for FuzzConfig {
    fn default() -> (r: Self)
        ensures
            r.iterations == 100_000,
            r.seed == 0xF1E1D,
            r.field == FieldChoice::Mersenne61,
    {
        FuzzConfig { iterations: default_iterations(), seed: default_seed(), field: default_field() }
    }
}

impl FuzzConfig {
    /// Accepts a configuration exactly when its iteration budget is positive.
    pub fn validate(&self) -> (r: Result<(), ConfigError>)
        ensures
            r is Err <==> self.iterations == 0,
            r matches Err(e) ==> e == ConfigError::ZeroIterations,
    {
        if self.iterations == 0 {
            return Err(ConfigError::ZeroIterations);
        }
        Ok(())
    }
}

} // verus!
