use std::cell::Cell;

use chisel::driver::{ChiselDriver, ChiselModuleSet, ChiselRunner, RunError};
use chisel::module::{ExportEntry, Internal, Module, ModuleModel, Section, SectionKind};
use chisel::remapstart::RemapStart;
use chisel::rules::{
    ModuleCreator, ModuleError, ModuleErrorModel, ModuleTranslator, ModuleValidator,
};

fn start_module(f: u32) -> Module {
    Module::new(vec![
        Section::Other { kind: SectionKind::Type, payload: vec![0x01, 0x60, 0x00, 0x00] },
        Section::Start(f),
        Section::Other { kind: SectionKind::Code, payload: vec![0x01, 0x02, 0x00, 0x0b] },
    ])
}

/// The rules used by these tests.
enum Rule {
    Remap(RemapStart),
    /// Appends a custom section, only through the functional form.
    FunctionalOnly,
    /// Fails in both forms.
    Broken,
}

// The `*_spec` methods exist for the verifier only and are never called.
impl ModuleTranslator for Rule {
    fn translate_inplace_spec(
        &self,
        _m: ModuleModel,
    ) -> Result<(bool, ModuleModel), ModuleErrorModel> {
        panic!("specification only")
    }

    fn translate_spec(&self, _m: ModuleModel) -> Result<Option<ModuleModel>, ModuleErrorModel> {
        panic!("specification only")
    }

    fn translate_inplace(&self, module: &mut Module) -> Result<bool, ModuleError> {
        match self {
            Rule::Remap(r) => r.translate_inplace(module),
            Rule::FunctionalOnly => Err(ModuleError::NotSupported),
            Rule::Broken => Err(ModuleError::Internal("broken".to_string())),
        }
    }

    fn translate(&self, module: &Module) -> Result<Option<Module>, ModuleError> {
        match self {
            Rule::Remap(r) => r.translate(module),
            Rule::FunctionalOnly => {
                let mut m = module.copy();
                m.sections.push(Section::Other { kind: SectionKind::Custom, payload: vec![7] });
                Ok(Some(m))
            }
            Rule::Broken => Err(ModuleError::Internal("broken".to_string())),
        }
    }
}

/// Counts its calls; accepts modules without a start section.
struct NoStart {
    calls: Cell<u32>,
}

impl ModuleValidator for NoStart {
    fn validate_spec(&self, _m: ModuleModel) -> Result<bool, ModuleErrorModel> {
        panic!("specification only")
    }

    fn validate(&self, module: &Module) -> Result<bool, ModuleError> {
        self.calls.set(self.calls.get() + 1);
        Ok(module.start_section().is_none())
    }
}

struct Maker;

impl ModuleCreator for Maker {
    fn create_spec(&self) -> Result<ModuleModel, ModuleErrorModel> {
        panic!("specification only")
    }

    fn create(&self) -> Result<Module, ModuleError> {
        Ok(start_module(4))
    }
}

struct NoMaker;

impl ModuleCreator for NoMaker {
    fn create_spec(&self) -> Result<ModuleModel, ModuleErrorModel> {
        panic!("specification only")
    }

    fn create(&self) -> Result<Module, ModuleError> {
        Err(ModuleError::Internal("cannot create".to_string()))
    }
}

fn main_of(module: &Module) -> Option<Internal> {
    module
        .export_section()
        .and_then(|es: &Vec<ExportEntry>| es.iter().find(|e| e.field == "main"))
        .map(|e| e.internal)
}

#[test]
fn empty_set_runs_nothing() {
    let set: ChiselModuleSet<Rule, NoStart> = ChiselModuleSet::new();
    let mut module = start_module(1);
    assert!(set.run_translators(&mut module).is_empty());
    assert!(set.run_validators(&module).is_empty());
    assert_eq!(module.start_section(), Some(1));
}

#[test]
fn functional_translators_run_in_order() {
    let remap = Rule::Remap(RemapStart);
    let v = NoStart { calls: Cell::new(0) };
    let mut set = ChiselModuleSet::new();
    set.add_translator(&remap);
    set.add_translator(&remap);
    set.add_validator(&v);
    let mut module = start_module(1);
    let results = set.run_translators(&mut module);
    assert_eq!(results.len(), 2);
    assert!(matches!(results[0], Ok(true)));
    assert!(matches!(results[1], Ok(false)));
    assert_eq!(main_of(&module), Some(Internal::Function(1)));
    let verdicts = set.run_validators(&module);
    assert!(matches!(verdicts[0], Ok(true)));
}

#[test]
fn in_place_falls_back_to_functional() {
    let only = Rule::FunctionalOnly;
    let in_place: ChiselModuleSet<Rule, NoStart> = ChiselModuleSet::with_modules(true, vec![&only], vec![]);
    let functional: ChiselModuleSet<Rule, NoStart> = ChiselModuleSet::with_modules(false, vec![&only], vec![]);
    let mut a = start_module(1);
    let mut b = start_module(1);
    let ra = in_place.run_translators(&mut a);
    let rb = functional.run_translators(&mut b);
    assert!(matches!(ra[..], [Ok(true)]));
    assert!(matches!(rb[..], [Ok(true)]));
    assert_eq!(a.sections.len(), 4);
    assert_eq!(format!("{:?}", a), format!("{:?}", b));
    let direct = only.translate(&start_module(1)).unwrap().unwrap();
    assert_eq!(format!("{:?}", a), format!("{:?}", direct));
}

#[test]
fn fatal_translator_error_ends_the_run() {
    let broken = Rule::Broken;
    let remap = Rule::Remap(RemapStart);
    let v = NoStart { calls: Cell::new(0) };
    let set = ChiselModuleSet::with_modules(false, vec![&broken, &remap], vec![&v]);
    let mut module = start_module(1);
    let results = set.run_translators(&mut module);
    assert_eq!(results.len(), 1);
    assert!(matches!(&results[0], Err(ModuleError::Internal(d)) if d == "broken"));
    assert_eq!(module.start_section(), Some(1));

    let runner = ChiselRunner::<Maker, Rule, NoStart>::normal_mode(start_module(1), set);
    match runner.run() {
        Err(RunError::Translator(ModuleError::Internal(d))) => assert_eq!(d, "broken"),
        other => panic!("unexpected result: {:?}", other),
    }
    assert_eq!(v.calls.get(), 0);
}

#[test]
fn in_place_internal_error_is_fatal() {
    let broken = Rule::Broken;
    let set: ChiselModuleSet<Rule, NoStart> = ChiselModuleSet::with_modules(true, vec![&broken], vec![]);
    let mut module = start_module(1);
    let results = set.run_translators(&mut module);
    assert!(matches!(&results[..], [Err(ModuleError::Internal(_))]));
}

#[test]
fn runner_reports_translations_and_verdicts() {
    let remap = Rule::Remap(RemapStart);
    let v = NoStart { calls: Cell::new(0) };
    let set = ChiselModuleSet::with_modules(true, vec![&remap], vec![&v]);
    let runner = ChiselRunner::<Maker, Rule, NoStart>::normal_mode(start_module(3), set);
    let report = runner.run().unwrap();
    assert_eq!(report.translations, vec![true]);
    assert_eq!(report.validations, vec![true]);
    assert_eq!(main_of(&report.module), Some(Internal::Function(3)));
    assert_eq!(v.calls.get(), 1);
}

#[test]
fn invalid_verdict_is_a_result_not_a_failure() {
    let v = NoStart { calls: Cell::new(0) };
    let set: ChiselModuleSet<Rule, NoStart> = ChiselModuleSet::with_modules(false, vec![], vec![&v]);
    let runner = ChiselRunner::<Maker, Rule, NoStart>::normal_mode(start_module(3), set);
    let report = runner.run().unwrap();
    assert!(report.translations.is_empty());
    assert_eq!(report.validations, vec![false]);
}

#[test]
fn create_mode_builds_then_runs() {
    let remap = Rule::Remap(RemapStart);
    let maker = Maker;
    let set: ChiselModuleSet<Rule, NoStart> = ChiselModuleSet::with_modules(false, vec![&remap], vec![]);
    let runner = ChiselRunner::create_mode(&maker, set);
    let report = runner.run().unwrap();
    assert_eq!(main_of(&report.module), Some(Internal::Function(4)));

    let no_maker = NoMaker;
    let v = NoStart { calls: Cell::new(0) };
    let set = ChiselModuleSet::with_modules(false, vec![&remap], vec![&v]);
    let failing = ChiselRunner::create_mode(&no_maker, set);
    assert!(matches!(failing.run(), Err(RunError::Creation(ModuleError::Internal(_)))));
    assert_eq!(v.calls.get(), 0);
}

#[test]
fn one_failing_ruleset_does_not_stop_another() {
    let broken = Rule::Broken;
    let remap = Rule::Remap(RemapStart);
    let a = ChiselModuleSet::with_modules(false, vec![&broken], vec![]);
    let b = ChiselModuleSet::with_modules(false, vec![&remap], vec![]);
    let driver: ChiselDriver<Maker, Rule, NoStart> = ChiselDriver(vec![
        ChiselRunner::normal_mode(start_module(1), a),
        ChiselRunner::normal_mode(start_module(2), b),
    ]);
    let results = driver.run();
    assert_eq!(results.len(), 2);
    assert!(matches!(results[0], Err(RunError::Translator(_))));
    let report = results[1].as_ref().unwrap();
    assert_eq!(report.translations, vec![true]);
    assert_eq!(main_of(&report.module), Some(Internal::Function(2)));
}
