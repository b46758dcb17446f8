//! A pipeline of rules that inspect and transform WebAssembly modules.
//!
//! The module itself is held as an ordered list of sections; rules come in
//! three capabilities (creators, translators and validators), which a rule set
//! runs in order and a driver runs per configured ruleset.
pub mod config;
pub mod driver;
pub mod errors;
pub mod module;
pub mod remapstart;
pub mod rules;
