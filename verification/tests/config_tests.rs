use zk_fuzz_hunter::config::{default_field, default_iterations, default_seed, ConfigError, FieldChoice, FuzzConfig};
use zk_fuzz_hunter::field::P;

#[test]
fn field_choice_exposes_modulus() {
    let cfg = FuzzConfig::default();
    assert_eq!(cfg.field.modulus(), P);
}

#[test]
fn validate_rejects_zero_iterations() {
    let cfg = FuzzConfig {
        iterations: 0,
        seed: 1,
        field: FieldChoice::Mersenne61,
    };
    assert!(cfg.validate().is_err());
}

#[test]
fn default_config_is_valid() {
    assert!(FuzzConfig::default().validate().is_ok());
}

// ---- further cases ----

#[test]
fn defaults_have_documented_values() {
    assert_eq!(default_iterations(), 100_000);
    assert_eq!(default_seed(), 0xF1E1D);
    assert_eq!(default_field(), FieldChoice::Mersenne61);
    let cfg = FuzzConfig::default();
    assert_eq!(cfg.iterations, 100_000);
    assert_eq!(cfg.seed, 0xF1E1D);
}

#[test]
fn zero_iterations_error_is_named() {
    let cfg = FuzzConfig { iterations: 0, seed: 0, field: FieldChoice::Mersenne61 };
    let err = cfg.validate().unwrap_err();
    assert_eq!(err, ConfigError::ZeroIterations);
    assert_eq!(err.message(), "iterations must be positive");
    let ok = FuzzConfig { iterations: 1, seed: 0, field: FieldChoice::Mersenne61 };
    assert!(ok.validate().is_ok());
}
