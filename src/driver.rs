//! Rule sets, the runners that execute one ruleset each, and the driver that
//! runs every configured ruleset.
use vstd::prelude::*;

use crate::module::{Module, ModuleModel};
use crate::rules::{
    flag_view, ModuleCreator, ModuleError, ModuleErrorModel, ModuleTranslator, ModuleValidator,
};

verus! {

/// The outcome of one rule: a flag, or a failure.
pub type Outcome = Result<bool, ModuleErrorModel>;

/// The outcome of a translator run functionally: whether the module changed,
/// and the module after.
pub open spec fn functional_step<T: ModuleTranslator>(t: &T, m: ModuleModel) -> Result<
    (bool, ModuleModel),
    ModuleErrorModel,
> {
    match t.translate_spec(m) {
        Ok(Some(n)) => Ok((true, n)),
        Ok(None) => Ok((false, m)),
        Err(e) => Err(e),
    }
}

/// The outcome of one translator in the given mode. In place, `NotSupported`
/// falls back to the functional form for this translator alone.
pub open spec fn translator_step<T: ModuleTranslator>(
    in_place: bool,
    t: &T,
    m: ModuleModel,
) -> Result<(bool, ModuleModel), ModuleErrorModel> {
    if in_place {
        match t.translate_inplace_spec(m) {
            Ok(p) => Ok(p),
            Err(ModuleErrorModel::NotSupported) => functional_step(t, m),
            Err(e) => Err(e),
        }
    } else {
        functional_step(t, m)
    }
}

/// The outcomes of running the translators in order on `m`: one flag per
/// translator, up to and including the first failure, which ends the run.
pub open spec fn run_outcomes<T: ModuleTranslator>(
    in_place: bool,
    ts: Seq<&T>,
    m: ModuleModel,
) -> Seq<Outcome>
    decreases ts.len(),
{
    if ts.len() == 0 {
        seq![]
    } else {
        match translator_step(in_place, ts[0], m) {
            Ok((b, n)) => seq![Ok(b)] + run_outcomes(in_place, ts.drop_first(), n),
            Err(e) => seq![Err(e)],
        }
    }
}

/// The module after running the translators in order on `m`, when none fails.
pub open spec fn run_module<T: ModuleTranslator>(
    in_place: bool,
    ts: Seq<&T>,
    m: ModuleModel,
) -> ModuleModel
    decreases ts.len(),
{
    if ts.len() == 0 {
        m
    } else {
        match translator_step(in_place, ts[0], m) {
            Ok((_, n)) => run_module(in_place, ts.drop_first(), n),
            Err(_) => m,
        }
    }
}

/// The verdicts of the validators on `m`, in order.
pub open spec fn validation_outcomes<V: ModuleValidator>(vs: Seq<&V>, m: ModuleModel) -> Seq<
    Outcome,
> {
    Seq::new(vs.len(), |i: int| vs[i].validate_spec(m))
}

pub open spec fn all_ok(os: Seq<Outcome>) -> bool {
    forall|i: int| 0 <= i < os.len() ==> (#[trigger] os[i]) is Ok
}

/// `i` is the position of the first failure among the outcomes.
pub open spec fn first_err_at(os: Seq<Outcome>, i: int) -> bool {
    &&& 0 <= i < os.len()
    &&& os[i] is Err
    &&& forall|j: int| 0 <= j < i ==> (#[trigger] os[j]) is Ok
}

pub open spec fn first_err(os: Seq<Outcome>) -> ModuleErrorModel {
    os[choose|i: int| #[trigger] first_err_at(os, i)]->Err_0
}

pub open spec fn flags(os: Seq<Outcome>) -> Seq<bool> {
    os.map_values(|o: Outcome| o->Ok_0)
}

pub open spec fn outcomes_view(os: Seq<Result<bool, ModuleError>>) -> Seq<Outcome> {
    os.map_values(|o: Result<bool, ModuleError>| flag_view(o))
}

/// Fallback: when no translator has an in-place form, running in place gives
/// the same outcomes and the same module as running functionally.
pub proof fn lemma_fallback_matches_functional<T: ModuleTranslator>(
    ts: Seq<&T>,
    m: ModuleModel,
)
    requires
        forall|i: int, n: ModuleModel|
            0 <= i < ts.len() ==> (#[trigger] ts[i].translate_inplace_spec(n))
                == Err::<(bool, ModuleModel), ModuleErrorModel>(
                ModuleErrorModel::NotSupported,
            ),
    ensures
        run_outcomes(true, ts, m) == run_outcomes(false, ts, m),
        run_module(true, ts, m) == run_module(false, ts, m),
    decreases ts.len(),
{
    if ts.len() > 0 {
        assert(ts[0].translate_inplace_spec(m) == Err::<(bool, ModuleModel), ModuleErrorModel>(
            ModuleErrorModel::NotSupported,
        ));
        assert(translator_step(true, ts[0], m) == translator_step(false, ts[0], m));
        let rest = ts.drop_first();
        assert forall|i: int, n: ModuleModel|
            0 <= i < rest.len() implies (#[trigger] rest[i].translate_inplace_spec(n))
                == Err::<(bool, ModuleModel), ModuleErrorModel>(
                ModuleErrorModel::NotSupported,
            ) by {
            assert(rest[i] == ts[i + 1]);
        }
        match translator_step(false, ts[0], m) {
            Ok((_, n)) => lemma_fallback_matches_functional(rest, n),
            Err(_) => {},
        }
    }
}

/// A translator that fails with an internal error ends the run with that
/// error: no later rule runs, and the validators never run.
pub proof fn lemma_translator_failure_is_fatal<T: ModuleTranslator, V: ModuleValidator>(
    in_place: bool,
    ts: Seq<&T>,
    vs: Seq<&V>,
    m: ModuleModel,
    detail: Seq<char>,
)
    requires
        ts.len() > 0,
        ts[0].translate_spec(m) == Err::<Option<ModuleModel>, ModuleErrorModel>(
            ModuleErrorModel::Internal(detail),
        ),
        in_place ==> ts[0].translate_inplace_spec(m) == Err::<
            (bool, ModuleModel),
            ModuleErrorModel,
        >(ModuleErrorModel::NotSupported),
    ensures
        run_outcomes(in_place, ts, m) == seq![
            Err::<bool, ModuleErrorModel>(ModuleErrorModel::Internal(detail)),
        ],
        pipeline_spec(in_place, ts, vs, m) == Err::<RunReportModel, RunErrorModel>(
            RunErrorModel::Translator(ModuleErrorModel::Internal(detail)),
        ),
{
    let os = run_outcomes(in_place, ts, m);
    assert(os =~= seq![Err::<bool, ModuleErrorModel>(ModuleErrorModel::Internal(detail))]);
    assert(first_err_at(os, 0));
    let c = choose|i: int| #[trigger] first_err_at(os, i);
    assert(first_err_at(os, c));
    assert(!all_ok(os));
}

/// A list of rules to run: translators first, then validators.
pub struct ChiselModuleSet<'a, T, V> {
    /// Whether translators run in place.
    in_place: bool,
    /// Translators, in the order they run.
    translators: Vec<&'a T>,
    /// Validators, in the order they report.
    validators: Vec<&'a V>,
}

impl<'a, T: ModuleTranslator, V: ModuleValidator> ChiselModuleSet<'a, T, V> {
    pub closed spec fn in_place_spec(&self) -> bool {
        self.in_place
    }

    pub closed spec fn translators_spec(&self) -> Seq<&'a T> {
        self.translators@
    }

    pub closed spec fn validators_spec(&self) -> Seq<&'a V> {
        self.validators@
    }

    /// An empty set, which does not translate in place.
    pub fn new() -> (r: Self)
        ensures
            !r.in_place_spec(),
            r.translators_spec() == Seq::<&'a T>::empty(),
            r.validators_spec() == Seq::<&'a V>::empty(),
    {
        ChiselModuleSet { in_place: false, translators: Vec::new(), validators: Vec::new() }
    }

    /// A set made directly from its parts.
    pub fn with_modules(
        translate_in_place: bool,
        translator_mods: Vec<&'a T>,
        validator_mods: Vec<&'a V>,
    ) -> (r: Self)
        ensures
            r.in_place_spec() == translate_in_place,
            r.translators_spec() == translator_mods@,
            r.validators_spec() == validator_mods@,
    {
        ChiselModuleSet {
            in_place: translate_in_place,
            translators: translator_mods,
            validators: validator_mods,
        }
    }

    /// Appends a translator; it runs after those already in the set.
    pub fn add_translator(&mut self, translator: &'a T)
        ensures
            final(self).in_place_spec() == old(self).in_place_spec(),
            final(self).translators_spec() == old(self).translators_spec().push(translator),
            final(self).validators_spec() == old(self).validators_spec(),
    {
        self.translators.push(translator);
    }

    /// Appends a validator; it reports after those already in the set.
    pub fn add_validator(&mut self, validator: &'a V)
        ensures
            final(self).in_place_spec() == old(self).in_place_spec(),
            final(self).translators_spec() == old(self).translators_spec(),
            final(self).validators_spec() == old(self).validators_spec().push(validator),
    {
        self.validators.push(validator);
    }

    /// Runs every translator on the module in order; returns one outcome per
    /// translator that ran. The first failure other than a fallback ends the
    /// run; what earlier translators changed is kept.
    pub fn run_translators(&self, module: &mut Module) -> (r: Vec<Result<bool, ModuleError>>)
        ensures
            outcomes_view(r@) == run_outcomes(self.in_place_spec(), self.translators_spec(), old(module)@),
            all_ok(outcomes_view(r@)) ==> final(module)@ == run_module(
                self.in_place_spec(),
                self.translators_spec(),
                old(module)@,
            ),
    {
        let ghost ts = self.translators@;
        let ghost m0 = module@;
        let mut ret: Vec<Result<bool, ModuleError>> = Vec::new();
        let mut i: usize = 0;
        proof {
            assert(ts.subrange(0, ts.len() as int) =~= ts);
            assert(outcomes_view(ret@) =~= Seq::<Outcome>::empty());
            assert(Seq::<Outcome>::empty() + run_outcomes(self.in_place, ts, m0) =~= run_outcomes(
                self.in_place,
                ts,
                m0,
            ));
        }
        while i < self.translators.len()
            invariant
                i <= ts.len(),
                ret@.len() == i,
                ts == self.translators@,
                m0 == old(module)@,
                all_ok(outcomes_view(ret@)),
                run_outcomes(self.in_place, ts, m0) == outcomes_view(ret@) + run_outcomes(
                    self.in_place,
                    ts.subrange(i as int, ts.len() as int),
                    module@,
                ),
                run_module(self.in_place, ts, m0) == run_module(
                    self.in_place,
                    ts.subrange(i as int, ts.len() as int),
                    module@,
                ),
            decreases ts.len() - i,
        {
            let ghost cur = module@;
            let ghost rest = ts.subrange(i as int, ts.len() as int);
            assert(rest[0] == ts[i as int]);
            assert(rest.drop_first() =~= ts.subrange(i + 1, ts.len() as int));
            let t = self.translators[i];
            let step = translate_step(self.in_place, t, module);
            let ghost prev = ret@;
            match step {
                Ok(changed) => {
                    ret.push(Ok(changed));
                    proof {
                        assert(outcomes_view(ret@) =~= outcomes_view(prev).push(Ok(changed)));
                        assert(outcomes_view(prev) + run_outcomes(self.in_place, rest, cur)
                            =~= outcomes_view(ret@) + run_outcomes(
                            self.in_place,
                            ts.subrange(i + 1, ts.len() as int),
                            module@,
                        ));
                    }
                },
                Err(e) => {
                    let ghost ev = e@;
                    ret.push(Err(e));
                    proof {
                        assert(outcomes_view(ret@) =~= outcomes_view(prev).push(Err(ev)));
                        assert(outcomes_view(prev) + run_outcomes(self.in_place, rest, cur)
                            =~= outcomes_view(ret@));
                        assert(!(outcomes_view(ret@)[i as int] is Ok));
                        assert(outcomes_view(ret@) == run_outcomes(self.in_place, ts, m0));
                    }
                    return ret;
                },
            }
            i = i + 1;
        }
        proof {
            assert(ts.subrange(i as int, ts.len() as int) =~= Seq::<&'a T>::empty());
            assert(outcomes_view(ret@) + Seq::<Outcome>::empty() =~= outcomes_view(ret@));
        }
        ret
    }

    /// Runs every validator on the module; returns their verdicts in order.
    pub fn run_validators(&self, module: &Module) -> (r: Vec<Result<bool, ModuleError>>)
        ensures
            outcomes_view(r@) == validation_outcomes(self.validators_spec(), module@),
    {
        let mut ret: Vec<Result<bool, ModuleError>> = Vec::new();
        let mut i: usize = 0;
        while i < self.validators.len()
            invariant
                i <= self.validators.len(),
                outcomes_view(ret@) == validation_outcomes(self.validators@, module@).subrange(
                    0,
                    i as int,
                ),
            decreases self.validators.len() - i,
        {
            let v = self.validators[i];
            let verdict = v.validate(module);
            let ghost prev = ret@;
            let ghost verdict_view = flag_view(verdict);
            ret.push(verdict);
            proof {
                assert(outcomes_view(ret@) =~= outcomes_view(prev).push(verdict_view));
                assert(outcomes_view(ret@) =~= validation_outcomes(self.validators@, module@).subrange(
                    0,
                    i + 1,
                ));
            }
            i = i + 1;
        }
        assert(outcomes_view(ret@) =~= validation_outcomes(self.validators@, module@));
        ret
    }
}

/// Why a runner failed.
#[derive(Debug)]
pub enum RunError {
    /// The creator could not produce a module.
    Creation(ModuleError),
    /// A translator failed; the rules after it did not run.
    Translator(ModuleError),
    /// A validator failed internally (as opposed to finding the module invalid).
    Validator(ModuleError),
}

pub enum RunErrorModel {
    Creation(ModuleErrorModel),
    Translator(ModuleErrorModel),
    Validator(ModuleErrorModel),
}

impl View for RunError {
    type V = RunErrorModel;

    open spec fn view(&self) -> RunErrorModel {
        match self {
            RunError::Creation(e) => RunErrorModel::Creation(e@),
            RunError::Translator(e) => RunErrorModel::Translator(e@),
            RunError::Validator(e) => RunErrorModel::Validator(e@),
        }
    }
}

/// What a completed run reports: whether each translator changed the
/// module, each validator's verdict, and the final module.
#[derive(Debug)]
pub struct RunReport {
    pub translations: Vec<bool>,
    pub validations: Vec<bool>,
    pub module: Module,
}

pub struct RunReportModel {
    pub translations: Seq<bool>,
    pub validations: Seq<bool>,
    pub module: ModuleModel,
}

impl View for RunReport {
    type V = RunReportModel;

    open spec fn view(&self) -> RunReportModel {
        RunReportModel {
            translations: self.translations@,
            validations: self.validations@,
            module: self.module@,
        }
    }
}

pub open spec fn run_view(r: Result<RunReport, RunError>) -> Result<RunReportModel, RunErrorModel> {
    match r {
        Ok(rep) => Ok(rep@),
        Err(e) => Err(e@),
    }
}

/// The result of running translators and then validators on `m`. A failing
/// translator ends the run before any validator; a validator's internal
/// failure fails the run; an "invalid" verdict is a reported result.
pub open spec fn pipeline_spec<T: ModuleTranslator, V: ModuleValidator>(
    in_place: bool,
    ts: Seq<&T>,
    vs: Seq<&V>,
    m: ModuleModel,
) -> Result<RunReportModel, RunErrorModel> {
    let os = run_outcomes(in_place, ts, m);
    if !all_ok(os) {
        Err(RunErrorModel::Translator(first_err(os)))
    } else {
        let fm = run_module(in_place, ts, m);
        let vos = validation_outcomes(vs, fm);
        if !all_ok(vos) {
            Err(RunErrorModel::Validator(first_err(vos)))
        } else {
            Ok(RunReportModel { translations: flags(os), validations: flags(vos), module: fm })
        }
    }
}

/// The first failure among the outcomes, taken out of them, or `None` if
/// all succeeded.
fn take_first_error(os: &mut Vec<Result<bool, ModuleError>>) -> (r: Option<ModuleError>)
    ensures
        match r {
            Some(e) => !all_ok(outcomes_view(old(os)@)) && e@ == first_err(
                outcomes_view(old(os)@),
            ),
            None => all_ok(outcomes_view(old(os)@)) && final(os)@ == old(os)@,
        },
{
    let ghost ov = outcomes_view(os@);
    let mut i: usize = 0;
    while i < os.len()
        invariant
            i <= os.len(),
            os@ == old(os)@,
            ov == outcomes_view(os@),
            forall|j: int| 0 <= j < i ==> (#[trigger] ov[j]) is Ok,
        decreases os.len() - i,
    {
        if os[i].is_err() {
            proof {
                assert(first_err_at(ov, i as int));
                let c = choose|k: int| #[trigger] first_err_at(ov, k);
                assert(first_err_at(ov, c));
                if c < i {
                    assert(ov[c] is Ok);
                } else if i < c {
                    assert(ov[i as int] is Ok);
                }
            }
            let taken = os.remove(i);
            return match taken {
                Err(e) => Some(e),
                Ok(_) => None,
            };
        }
        i = i + 1;
    }
    None
}

/// The flags of outcomes that all succeeded.
fn outcome_flags(os: &Vec<Result<bool, ModuleError>>) -> (r: Vec<bool>)
    requires
        all_ok(outcomes_view(os@)),
    ensures
        r@ == flags(outcomes_view(os@)),
{
    let ghost ov = outcomes_view(os@);
    let mut r: Vec<bool> = Vec::new();
    let mut i: usize = 0;
    while i < os.len()
        invariant
            i <= os.len(),
            ov == outcomes_view(os@),
            all_ok(ov),
            r@ == flags(ov).subrange(0, i as int),
        decreases os.len() - i,
    {
        assert(ov[i as int] is Ok);
        let b = match &os[i] {
            Ok(b) => *b,
            Err(_) => false,
        };
        r.push(b);
        i = i + 1;
        assert(r@ =~= flags(ov).subrange(0, i as int));
    }
    assert(r@ =~= flags(ov));
    r
}

/// Runs the translators and then the validators of a set on a module.
fn run_pipeline<'a, T: ModuleTranslator, V: ModuleValidator>(
    set: &ChiselModuleSet<'a, T, V>,
    module: &mut Module,
) -> (r: Result<RunReport, RunError>)
    ensures
        run_view(r) == pipeline_spec(
            set.in_place_spec(),
            set.translators_spec(),
            set.validators_spec(),
            old(module)@,
        ),
        r is Ok ==> r->Ok_0.module@ == final(module)@,
{
    let mut translation_results = set.run_translators(module);
    if let Some(e) = take_first_error(&mut translation_results) {
        return Err(RunError::Translator(e));
    }
    let mut validation_results = set.run_validators(module);
    if let Some(e) = take_first_error(&mut validation_results) {
        return Err(RunError::Validator(e));
    }
    let translations = outcome_flags(&translation_results);
    let validations = outcome_flags(&validation_results);
    Ok(RunReport { translations, validations, module: module.copy() })
}

/// The instantiated form of one ruleset.
pub enum ChiselRunner<'a, C, T, V> {
    /// Runs the rules on a module supplied by the caller.
    NormalMode(Module, ChiselModuleSet<'a, T, V>),
    /// Creates the module first, then runs the rules on it.
    CreateMode(&'a C, ChiselModuleSet<'a, T, V>),
}

/// The result of running a runner in the state `r`.
pub open spec fn runner_spec<'a, C: ModuleCreator, T: ModuleTranslator, V: ModuleValidator>(
    r: ChiselRunner<'a, C, T, V>,
) -> Result<RunReportModel, RunErrorModel> {
    match r {
        ChiselRunner::NormalMode(m, set) => pipeline_spec(
            set.in_place_spec(),
            set.translators_spec(),
            set.validators_spec(),
            m@,
        ),
        ChiselRunner::CreateMode(c, set) => match c.create_spec() {
            Err(e) => Err(RunErrorModel::Creation(e)),
            Ok(m) => pipeline_spec(
                set.in_place_spec(),
                set.translators_spec(),
                set.validators_spec(),
                m,
            ),
        },
    }
}

impl<'a, C: ModuleCreator, T: ModuleTranslator, V: ModuleValidator> ChiselRunner<'a, C, T, V> {
    /// A runner on a module supplied by the caller.
    pub fn normal_mode(module: Module, chisel_mods: ChiselModuleSet<'a, T, V>) -> (r: Self)
        ensures
            r == ChiselRunner::<'a, C, T, V>::NormalMode(module, chisel_mods),
    {
        ChiselRunner::NormalMode(module, chisel_mods)
    }

    /// A runner that creates its module.
    pub fn create_mode(creator: &'a C, chisel_mods: ChiselModuleSet<'a, T, V>) -> (r: Self)
        ensures
            r == ChiselRunner::<'a, C, T, V>::CreateMode(creator, chisel_mods),
    {
        ChiselRunner::CreateMode(creator, chisel_mods)
    }

    /// Runs the ruleset, once: creates the module if asked to, runs the
    /// translators, then the validators. The report carries the final module.
    pub fn run(self) -> (r: Result<RunReport, RunError>)
        ensures
            run_view(r) == runner_spec(self),
    {
        match self {
            ChiselRunner::NormalMode(module, chisel_mods) => {
                let mut module = module;
                run_pipeline(&chisel_mods, &mut module)
            },
            ChiselRunner::CreateMode(creator, chisel_mods) => {
                match creator.create() {
                    Ok(created) => {
                        let mut module = created;
                        run_pipeline(&chisel_mods, &mut module)
                    },
                    Err(e) => Err(RunError::Creation(e)),
                }
            },
        }
    }
}

/// The runners of every configured ruleset.
pub struct ChiselDriver<'a, C, T, V>(pub Vec<ChiselRunner<'a, C, T, V>>);

impl<'a, C: ModuleCreator, T: ModuleTranslator, V: ModuleValidator> ChiselDriver<'a, C, T, V> {
    /// Runs every runner in order and reports each one's result. Each result
    /// depends on its own runner alone: a failed ruleset does not stop the
    /// others.
    pub fn run(self) -> (r: Vec<Result<RunReport, RunError>>)
        ensures
            r@.len() == self.0@.len(),
            forall|i: int|
                0 <= i < r@.len() ==> run_view(#[trigger] r@[i]) == runner_spec(self.0@[i]),
    {
        let ghost all = self.0@;
        let mut runners = self.0;
        let mut results: Vec<Result<RunReport, RunError>> = Vec::new();
        let mut i: usize = 0;
        assert(runners@ =~= all.subrange(0, all.len() as int));
        assert(all.len() == runners.len());
        while runners.len() > 0
            invariant
                i <= all.len(),
                all.len() <= usize::MAX,
                runners@ == all.subrange(i as int, all.len() as int),
                results@.len() == i,
                forall|j: int| 0 <= j < i ==> run_view(#[trigger] results@[j]) == runner_spec(all[j]),
            decreases runners@.len(),
        {
            let runner = runners.remove(0);
            assert(runners@ =~= all.subrange(i + 1, all.len() as int));
            results.push(runner.run());
            i = i + 1;
        }
        results
    }
}


/// Runs a translator functionally, replacing the module with the translation
/// if there is one; on failure the module is left as it was.
fn translate_functional<T: ModuleTranslator>(t: &T, module: &mut Module) -> (r: Result<
    bool,
    ModuleError,
>)
    ensures
        match functional_step(t, old(module)@) {
            Ok((b, n)) => r == Ok::<bool, ModuleError>(b) && final(module)@ == n,
            Err(e) => r is Err && r->Err_0@ == e && final(module)@ == old(module)@,
        },
{
    match t.translate(module) {
        Ok(Some(translated)) => {
            *module = translated;
            Ok(true)
        },
        Ok(None) => Ok(false),
        Err(e) => Err(e),
    }
}

/// Runs one translator in the given mode, falling back from in place to
/// functional when the translator has no in-place form.
fn translate_step<T: ModuleTranslator>(in_place: bool, t: &T, module: &mut Module) -> (r: Result<
    bool,
    ModuleError,
>)
    ensures
        match translator_step(in_place, t, old(module)@) {
            Ok((b, n)) => r == Ok::<bool, ModuleError>(b) && final(module)@ == n,
            Err(e) => r is Err && r->Err_0@ == e,
        },
{
    if in_place {
        match t.translate_inplace(module) {
            Ok(mutated) => Ok(mutated),
            Err(ModuleError::NotSupported) => translate_functional(t, module),
            Err(e) => Err(e),
        }
    } else {
        translate_functional(t, module)
    }
}

} // verus!
