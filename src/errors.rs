//! Errors of the command-line layer: configuration and otherwise.
use vstd::prelude::*;

verus! {

/// A failure to find or read the configuration.
#[derive(Debug)]
pub enum ConfigError {
    /// No configuration file, with an optional explanation.
    NotFound(Option<String>),
    Unknown(String),
}

/// Any failure of the tool.
#[derive(Debug)]
pub enum ChiselError {
    Config(ConfigError),
    Unknown(String),
}

/// The text that describes a missing configuration file when no path was given.
pub open spec fn not_found_text() -> Seq<char> {
    "Could not find a configuration file"@
}

pub open spec fn config_description(e: ConfigError) -> Seq<char> {
    match e {
        ConfigError::NotFound(Some(s)) => s@,
        ConfigError::NotFound(None) => not_found_text(),
        ConfigError::Unknown(s) => s@,
    }
}

pub open spec fn chisel_description(e: ChiselError) -> Seq<char> {
    match e {
        ChiselError::Config(c) => config_description(c),
        ChiselError::Unknown(s) => s@,
    }
}

impl ConfigError {
    /// A short description of the failure.
    pub fn description(&self) -> (r: String)
        ensures
            r@ == config_description(*self),
    {
        match self {
            ConfigError::NotFound(e) => {
                if let Some(s) = e {
                    s.clone()
                } else {
                    "Could not find a configuration file".to_owned()
                }
            },
            ConfigError::Unknown(s) => s.clone(),
        }
    }

    /// The message shown to the user: `error: ` and the description.
    pub fn message(&self) -> (r: String)
        ensures
            r@ == "error: "@ + config_description(*self),
    {
        let d = self.description();
        "error: ".to_owned().concat(d.as_str())
    }
}

impl ChiselError {
    /// A short description of the failure.
    pub fn description(&self) -> (r: String)
        ensures
            r@ == chisel_description(*self),
    {
        match self {
            ChiselError::Config(e) => e.description(),
            ChiselError::Unknown(s) => s.clone(),
        }
    }

    /// The message shown to the user: `error: ` and the description.
    pub fn message(&self) -> (r: String)
        ensures
            r@ == "error: "@ + chisel_description(*self),
    {
        let d = self.description();
        "error: ".to_owned().concat(d.as_str())
    }
}

impl From<ConfigError> for ChiselError {
    fn from(e: ConfigError) -> (r: ChiselError) {
        ChiselError::Config(e)
    }
}

impl vstd::std_specs::convert::FromSpecImpl<ConfigError> for ChiselError {
    open spec fn obeys_from_spec() -> bool {
        true
    }

    open spec fn from_spec(e: ConfigError) -> ChiselError {
        ChiselError::Config(e)
    }
}

} // verus!
