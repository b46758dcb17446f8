use chisel::config::{
    config_not_found, config_path_candidates, Configuration, ModuleConfiguration, Ruleset,
};
use chisel::errors::{ChiselError, ConfigError};
use std::collections::HashMap;

#[test]
fn config_error_descriptions() {
    assert_eq!(ConfigError::NotFound(None).description(), "Could not find a configuration file");
    assert_eq!(ConfigError::NotFound(Some("gone".to_string())).description(), "gone");
    assert_eq!(ConfigError::Unknown("odd".to_string()).description(), "odd");
    assert_eq!(ConfigError::Unknown("odd".to_string()).message(), "error: odd");
}

#[test]
fn chisel_error_wraps_config_error() {
    let e: ChiselError = ConfigError::NotFound(None).into();
    assert!(matches!(e, ChiselError::Config(ConfigError::NotFound(None))));
    assert_eq!(e.message(), "error: Could not find a configuration file");
    assert_eq!(ChiselError::Unknown("x".to_string()).description(), "x");
}

#[test]
fn config_paths_to_try() {
    assert_eq!(config_path_candidates(Some("my.yml")), vec!["my.yml".to_string()]);
    assert_eq!(
        config_path_candidates(None),
        vec!["./chisel.yml".to_string(), "./.chisel.yml".to_string()]
    );
}

#[test]
fn config_not_found_messages() {
    match config_not_found(Some("a.yml")) {
        ConfigError::NotFound(Some(s)) => {
            assert_eq!(s, "Could not resolve config file path: a.yml")
        }
        other => panic!("unexpected: {:?}", other),
    }
    assert!(matches!(config_not_found(None), ConfigError::NotFound(None)));
}

#[test]
fn ruleset_keeps_its_parts() {
    let mut flags = HashMap::new();
    flags.insert("preset".to_string(), "ewasm".to_string());
    let r = Ruleset::new(
        "in.wasm".to_string(),
        Some("out.wasm".to_string()),
        vec![ModuleConfiguration::new(flags)],
    );
    assert_eq!(r.file(), "in.wasm");
    assert_eq!(r.out().as_deref(), Some("out.wasm"));
    assert_eq!(r.module_configurations()[0].flags()["preset"], "ewasm");
    let c = Configuration::new(vec![r]);
    assert_eq!(c.0.len(), 1);
}
