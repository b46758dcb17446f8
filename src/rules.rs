//! The three capabilities a rule may have, and the error a rule reports.
use vstd::prelude::*;

use crate::module::{Module, ModuleModel};

verus! {

/// The failure of a rule.
#[derive(Debug)]
pub enum ModuleError {
    /// The rule has no in-place form; the caller falls back to the functional form.
    NotSupported,
    /// Any other failure, with its detail.
    Internal(String),
}

/// The mathematical value of a rule's failure.
pub enum ModuleErrorModel {
    NotSupported,
    Internal(Seq<char>),
}

impl View for ModuleError {
    type V = ModuleErrorModel;

    open spec fn view(&self) -> ModuleErrorModel {
        match self {
            ModuleError::NotSupported => ModuleErrorModel::NotSupported,
            ModuleError::Internal(s) => ModuleErrorModel::Internal(s@),
        }
    }
}

/// The value of a rule's yes/no outcome.
pub open spec fn flag_view(r: Result<bool, ModuleError>) -> Result<bool, ModuleErrorModel> {
    match r {
        Ok(b) => Ok(b),
        Err(e) => Err(e@),
    }
}

/// The value of a functional translation's outcome.
pub open spec fn translation_view(r: Result<Option<Module>, ModuleError>) -> Result<
    Option<ModuleModel>,
    ModuleErrorModel,
> {
    match r {
        Ok(Some(m)) => Ok(Some(m@)),
        Ok(None) => Ok(None),
        Err(e) => Err(e@),
    }
}

/// The value of a creator's outcome.
pub open spec fn creation_view(r: Result<Module, ModuleError>) -> Result<
    ModuleModel,
    ModuleErrorModel,
> {
    match r {
        Ok(m) => Ok(m@),
        Err(e) => Err(e@),
    }
}

/// A rule that can be built from a named preset.
pub trait ModulePreset: Sized {
    /// The preset names that the rule knows.
    spec fn known_preset(preset: Seq<char>) -> bool;

    fn with_preset(preset: &str) -> (r: Result<Self, ()>)
        ensures
            r is Ok <==> Self::known_preset(preset@),
    ;
}

/// A rule that produces a module from nothing.
pub trait ModuleCreator {
    spec fn create_spec(&self) -> Result<ModuleModel, ModuleErrorModel>;

    fn create(&self) -> (r: Result<Module, ModuleError>)
        ensures
            creation_view(r) == self.create_spec(),
    ;
}

/// A rule that maps a module to a possibly changed module, either in place
/// or by returning a replacement.
pub trait ModuleTranslator {
    /// The in-place outcome on a module: whether it changed, and the module after.
    spec fn translate_inplace_spec(&self, m: ModuleModel) -> Result<
        (bool, ModuleModel),
        ModuleErrorModel,
    >;

    /// The functional outcome on a module: the replacement, or `None` if unchanged.
    spec fn translate_spec(&self, m: ModuleModel) -> Result<
        Option<ModuleModel>,
        ModuleErrorModel,
    >;

    /// Mutates the module in place. `NotSupported` is raised before any
    /// mutation; after another error the module may be partly changed.
    fn translate_inplace(&self, module: &mut Module) -> (r: Result<bool, ModuleError>)
        ensures
            match self.translate_inplace_spec(old(module)@) {
                Ok((b, n)) => r == Ok::<bool, ModuleError>(b) && final(module)@ == n,
                Err(e) => {
                    &&& r is Err
                    &&& r->Err_0@ == e
                    &&& e is NotSupported ==> final(module)@ == old(module)@
                },
            },
    ;

    /// Returns the translated module, or `None` if it is unchanged.
    fn translate(&self, module: &Module) -> (r: Result<Option<Module>, ModuleError>)
        ensures
            translation_view(r) == self.translate_spec(module@),
    ;
}

/// A rule that inspects a module and gives a verdict.
pub trait ModuleValidator {
    spec fn validate_spec(&self, m: ModuleModel) -> Result<bool, ModuleErrorModel>;

    fn validate(&self, module: &Module) -> (r: Result<bool, ModuleError>)
        ensures
            flag_view(r) == self.validate_spec(module@),
    ;
}

} // verus!
