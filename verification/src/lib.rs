//! An under-constrained-signal hunter for rank-1 constraint systems over
//! the Mersenne prime field `2^61 - 1`.

pub mod field;
pub mod r1cs;
pub mod fuzzer;
pub mod config;
pub mod field_theory;
