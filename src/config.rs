//! The configuration: rulesets, each with its input, output and rule flags.
use vstd::prelude::*;

use std::collections::HashMap;

use crate::errors::ConfigError;

verus! {

/// The configuration file tried first when none is named.
pub const CHISEL_DEFAULT_CONFIG_PATH: &'static str = "./chisel.yml";

/// The configuration file tried when the first default is missing.
pub const CHISEL_DEFAULT_CONFIG_PATH_ALT: &'static str = "./.chisel.yml";

/// The configuration: its rulesets in order.
pub struct Configuration(pub Vec<Ruleset>);

/// One ruleset: the module it reads, where it writes, and its rules' settings.
pub struct Ruleset {
    file: String,
    out: Option<String>,
    module_configurations: Vec<ModuleConfiguration>,
}

/// The settings of one rule, by flag name.
pub struct ModuleConfiguration {
    flags: HashMap<String, String>,
}

impl Configuration {
    pub fn new(rulesets: Vec<Ruleset>) -> (r: Configuration)
        ensures
            r.0@ == rulesets@,
    {
        Configuration(rulesets)
    }
}

impl Ruleset {
    pub closed spec fn file_spec(&self) -> Seq<char> {
        self.file@
    }

    pub closed spec fn out_spec(&self) -> Option<Seq<char>> {
        match self.out {
            Some(o) => Some(o@),
            None => None,
        }
    }

    pub closed spec fn module_configurations_spec(&self) -> Seq<ModuleConfiguration> {
        self.module_configurations@
    }

    pub fn new(
        file: String,
        out: Option<String>,
        module_configurations: Vec<ModuleConfiguration>,
    ) -> (r: Ruleset)
        ensures
            r.file_spec() == file@,
            r.out_spec() == (match out {
                Some(o) => Some(o@),
                None => None,
            }),
            r.module_configurations_spec() == module_configurations@,
    {
        Ruleset { file, out, module_configurations }
    }

    /// The path of the module the ruleset reads.
    pub fn file(&self) -> (r: &String)
        ensures
            r@ == self.file_spec(),
    {
        &self.file
    }

    /// Where the ruleset writes its module, if anywhere.
    pub fn out(&self) -> (r: &Option<String>)
        ensures
            self.out_spec() == (match r {
                Some(o) => Some(o@),
                None => None,
            }),
    {
        &self.out
    }

    pub fn module_configurations(&self) -> (r: &Vec<ModuleConfiguration>)
        ensures
            r@ == self.module_configurations_spec(),
    {
        &self.module_configurations
    }
}

impl ModuleConfiguration {
    pub closed spec fn flags_spec(&self) -> HashMap<String, String> {
        self.flags
    }

    pub fn new(flags: HashMap<String, String>) -> (r: ModuleConfiguration)
        ensures
            r.flags_spec() == flags,
    {
        ModuleConfiguration { flags }
    }

    pub fn flags(&self) -> (r: &HashMap<String, String>)
        ensures
            *r == self.flags_spec(),
    {
        &self.flags
    }
}

/// The configuration files to try, in order: the one named, or else the
/// two defaults.
pub fn config_path_candidates(matched: Option<&str>) -> (r: Vec<String>)
    ensures
        match matched {
            Some(arg) => r@.len() == 1 && r@[0]@ == arg@,
            None => r@.len() == 2 && r@[0]@ == CHISEL_DEFAULT_CONFIG_PATH@ && r@[1]@
                == CHISEL_DEFAULT_CONFIG_PATH_ALT@,
        },
{
    let mut r: Vec<String> = Vec::new();
    match matched {
        Some(arg) => {
            r.push(arg.to_owned());
        },
        None => {
            r.push(CHISEL_DEFAULT_CONFIG_PATH.to_owned());
            r.push(CHISEL_DEFAULT_CONFIG_PATH_ALT.to_owned());
        },
    }
    r
}

/// The error when none of the candidates resolved.
pub fn config_not_found(matched: Option<&str>) -> (r: ConfigError)
    ensures
        match matched {
            Some(arg) => r is NotFound && r->NotFound_0 is Some && r->NotFound_0->Some_0@
                == "Could not resolve config file path: "@ + arg@,
            None => r is NotFound && r->NotFound_0 is None,
        },
{
    match matched {
        Some(arg) => ConfigError::NotFound(
            Some("Could not resolve config file path: ".to_owned().concat(arg)),
        ),
        None => ConfigError::NotFound(None),
    }
}

} // verus!
