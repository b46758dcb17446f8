//! The start-function remap: the start section's function becomes the
//! export `main`, and the start section goes away.
use vstd::prelude::*;

use crate::module::{
    at_most_one_start, entries_view, export_entries, export_pos, first_after_export_at,
    first_export_at, first_start_at, has_export, has_start, lemma_export_pos,
    lemma_first_after_export_unique, lemma_first_export_unique, lemma_first_start_unique,
    lemma_has_start_at, lemma_no_export, lemma_start_pos, order_of, section_order, start_index,
    start_pos, without_start, ExportEntry, ExportEntryModel, Internal, Module, Section,
    ModuleModel, SectionModel, EXPORT_ORDER,
};
use crate::rules::{ModuleError, ModuleErrorModel, ModulePreset, ModuleTranslator};

verus! {

/// The export entry that binds `name` to function `f`.
pub open spec fn func_export(name: Seq<char>, f: u32) -> ExportEntryModel {
    ExportEntryModel { field: name, internal: Internal::Function(f) }
}

/// `k` is the position of the first entry named `name`.
pub open spec fn first_named_at(es: Seq<ExportEntryModel>, name: Seq<char>, k: int) -> bool {
    &&& 0 <= k < es.len()
    &&& es[k].field == name
    &&& forall|j: int| 0 <= j < k ==> es[j].field != name
}

pub open spec fn has_named(es: Seq<ExportEntryModel>, name: Seq<char>) -> bool {
    exists|k: int| #[trigger] first_named_at(es, name, k)
}

pub open spec fn named_pos(es: Seq<ExportEntryModel>, name: Seq<char>) -> int {
    choose|k: int| #[trigger] first_named_at(es, name, k)
}

/// The entries with the first one named `name` bound to `f`, or with such an
/// entry appended.
pub open spec fn set_export(es: Seq<ExportEntryModel>, name: Seq<char>, f: u32) -> Seq<
    ExportEntryModel,
> {
    if has_named(es, name) {
        es.update(named_pos(es, name), func_export(name, f))
    } else {
        es.push(func_export(name, f))
    }
}

pub open spec fn has_after_export(m: ModuleModel) -> bool {
    exists|i: int| #[trigger] first_after_export_at(m, i)
}

pub open spec fn after_export_pos(m: ModuleModel) -> int {
    choose|i: int| #[trigger] first_after_export_at(m, i)
}

/// The module with an export of `name` bound to `f`: edited in the first
/// export section, or in a new export section placed before the first section
/// ordered after exports (at the end if there is none).
pub open spec fn with_export(m: ModuleModel, name: Seq<char>, f: u32) -> ModuleModel {
    if has_export(m) {
        m.update(export_pos(m), SectionModel::Export(set_export(m[export_pos(m)]->Export_0, name, f)))
    } else if has_after_export(m) {
        m.insert(after_export_pos(m), SectionModel::Export(seq![func_export(name, f)]))
    } else {
        m.push(SectionModel::Export(seq![func_export(name, f)]))
    }
}

/// The module after the start-function remap.
pub open spec fn remapped(m: ModuleModel) -> ModuleModel {
    match start_index(m) {
        Some(f) => without_start(with_export(m, "main"@, f)),
        None => m,
    }
}

/// Adding an export neither adds nor removes a start section.
proof fn lemma_with_export_keeps_start(m: ModuleModel, name: Seq<char>, f: u32)
    requires
        at_most_one_start(m),
        has_start(m),
    ensures
        at_most_one_start(with_export(m, name, f)),
        has_start(with_export(m, name, f)),
{
    let w = with_export(m, name, f);
    lemma_start_pos(m);
    let p = start_pos(m);
    if has_export(m) {
        lemma_export_pos(m);
        assert(forall|i: int| 0 <= i < w.len() ==> (w[i] is Start <==> m[i] is Start));
        lemma_has_start_at(w, p);
    } else if has_after_export(m) {
        let q = after_export_pos(m);
        assert(first_after_export_at(m, q));
        assert forall|i: int, j: int|
            0 <= i < w.len() && 0 <= j < w.len() && #[trigger] (w[i] is Start) && #[trigger] (
            w[j] is Start) implies i == j by {
            let i2 = if i < q { i } else { i - 1 };
            let j2 = if j < q { j } else { j - 1 };
            assert(m[i2] is Start);
            assert(m[j2] is Start);
        }
        if p < q {
            lemma_has_start_at(w, p);
        } else {
            assert(w[p + 1] == m[p]);
            lemma_has_start_at(w, p + 1);
        }
    } else {
        assert forall|i: int, j: int|
            0 <= i < w.len() && 0 <= j < w.len() && #[trigger] (w[i] is Start) && #[trigger] (
            w[j] is Start) implies i == j by {
            assert(m[i] is Start);
            assert(m[j] is Start);
        }
        lemma_has_start_at(w, p);
    }
}

/// Removing the only start section leaves none.
proof fn lemma_without_only_start(s: ModuleModel)
    requires
        at_most_one_start(s),
        has_start(s),
    ensures
        !has_start(without_start(s)),
        forall|i: int| 0 <= i < without_start(s).len() ==> !(#[trigger] without_start(s)[i] is Start),
{
    lemma_start_pos(s);
    let p = start_pos(s);
    let r = without_start(s);
    assert forall|i: int| 0 <= i < r.len() implies !(#[trigger] r[i] is Start) by {
        if r[i] is Start {
            if i < p {
                assert(s[i] is Start);
            } else {
                assert(s[i + 1] is Start);
            }
        }
    }
    if has_start(r) {
        lemma_start_pos(r);
    }
}

/// Remapping a module twice gives what remapping it once gives: the second
/// pass finds no start section, reports no change and edits nothing.
pub proof fn lemma_remap_idempotent(m: ModuleModel)
    requires
        at_most_one_start(m),
    ensures
        !has_start(remapped(m)),
        remapped(remapped(m)) == remapped(m),
        RemapStart.translate_inplace_spec(remapped(m)) == Ok::<
            (bool, ModuleModel),
            ModuleErrorModel,
        >((false, remapped(m))),
{
    if has_start(m) {
        let f = start_index(m)->Some_0;
        lemma_with_export_keeps_start(m, "main"@, f);
        lemma_without_only_start(with_export(m, "main"@, f));
    }
}

/// No two entries carry the field `name`.
pub open spec fn at_most_one_named(es: Seq<ExportEntryModel>, name: Seq<char>) -> bool {
    forall|i: int, j: int|
        0 <= i < es.len() && 0 <= j < es.len() && #[trigger] es[i].field == name
            && #[trigger] es[j].field == name ==> i == j
}

/// With a start section and an export section whose one entry named `main`
/// exists, the remap binds that entry to the start function in its place,
/// keeps the number of exports, leaves no second `main`, and removes the
/// start section.
pub proof fn lemma_remap_rebinds_main(m: ModuleModel)
    requires
        at_most_one_start(m),
        has_start(m),
        has_export(m),
        has_named(export_entries(m)->Some_0, "main"@),
        at_most_one_named(export_entries(m)->Some_0, "main"@),
    ensures
        !has_start(remapped(m)),
        export_entries(remapped(m)) == Some(
            export_entries(m)->Some_0.update(
                named_pos(export_entries(m)->Some_0, "main"@),
                func_export("main"@, start_index(m)->Some_0),
            ),
        ),
        export_entries(remapped(m))->Some_0.len() == export_entries(m)->Some_0.len(),
        at_most_one_named(export_entries(remapped(m))->Some_0, "main"@),
{
    let f = start_index(m)->Some_0;
    let name = "main"@;
    let es = export_entries(m)->Some_0;
    lemma_export_pos(m);
    lemma_start_pos(m);
    let ep = export_pos(m);
    let sp = start_pos(m);
    let kp = named_pos(es, name);
    assert(first_named_at(es, name, kp));
    let es2 = es.update(kp, func_export(name, f));
    assert(set_export(es, name, f) == es2);
    let w = with_export(m, name, f);
    assert(w == m.update(ep, SectionModel::Export(es2)));
    lemma_with_export_keeps_start(m, name, f);
    assert(first_start_at(w, sp));
    lemma_first_start_unique(w, sp);
    lemma_without_only_start(w);
    let r = remapped(m);
    assert(r == w.remove(sp));
    let ep2 = if ep < sp { ep } else { ep - 1 };
    assert(r[ep2] == SectionModel::Export(es2));
    assert forall|j: int| 0 <= j < ep2 implies !(r[j] is Export) by {
        if j < sp {
            assert(r[j] == m[j]);
        } else {
            assert(r[j] == m[j + 1]);
        }
    }
    assert(first_export_at(r, ep2));
    lemma_first_export_unique(r, ep2);
    assert forall|i: int, j: int|
        0 <= i < es2.len() && 0 <= j < es2.len() && #[trigger] es2[i].field == name
            && #[trigger] es2[j].field == name implies i == j by {
        if i != kp {
            assert(es[i].field == name);
        }
        if j != kp {
            assert(es[j].field == name);
        }
    }
}

/// With a start section and no export section, the remap adds an export
/// section holding only `main`, bound to the start function, placed before
/// the first section ordered after exports (at the end if there is none);
/// apart from it, only the start section is gone.
pub proof fn lemma_remap_adds_export(m: ModuleModel)
    requires
        at_most_one_start(m),
        has_start(m),
        !has_export(m),
    ensures
        has_export(remapped(m)),
        export_entries(remapped(m)) == Some(seq![func_export("main"@, start_index(m)->Some_0)]),
        has_after_export(m) ==> export_pos(remapped(m)) == after_export_pos(m),
        !has_after_export(m) ==> export_pos(remapped(m)) == remapped(m).len() - 1,
        remapped(m).remove(export_pos(remapped(m))) == without_start(m),
{
    let f = start_index(m)->Some_0;
    let name = "main"@;
    let e = SectionModel::Export(seq![func_export(name, f)]);
    lemma_start_pos(m);
    lemma_no_export(m);
    let sp = start_pos(m);
    let w = with_export(m, name, f);
    let r = remapped(m);
    if has_after_export(m) {
        let q = after_export_pos(m);
        assert(first_after_export_at(m, q));
        assert(sp >= q) by {
            if sp < q {
                assert(order_of(m[sp]) <= EXPORT_ORDER);
            }
        }
        assert(w == m.insert(q, e));
        assert(first_start_at(w, sp + 1)) by {
            assert forall|j: int| 0 <= j < sp + 1 implies !(w[j] is Start) by {
                if j < q {
                    assert(w[j] == m[j]);
                } else if j > q {
                    assert(w[j] == m[j - 1]);
                }
            }
        }
        lemma_first_start_unique(w, sp + 1);
        assert(r == w.remove(sp + 1));
        assert(first_export_at(r, q)) by {
            assert(r[q] == e);
            assert forall|j: int| 0 <= j < q implies !(r[j] is Export) by {
                assert(r[j] == m[j]);
            }
        }
        lemma_first_export_unique(r, q);
        assert(r.remove(q) =~= m.remove(sp)) by {
            assert forall|i: int| 0 <= i < r.len() - 1 implies r.remove(q)[i] == m.remove(sp)[i] by {
                if i < q {
                    assert(r.remove(q)[i] == m[i]);
                } else if i < sp {
                    assert(r.remove(q)[i] == r[i + 1]);
                    assert(r[i + 1] == w[i + 1]);
                    assert(w[i + 1] == m[i]);
                } else {
                    assert(r.remove(q)[i] == r[i + 1]);
                    assert(r[i + 1] == w[i + 2]);
                    assert(w[i + 2] == m[i + 1]);
                }
            }
        }
    } else {
        assert(w == m.push(e));
        assert(first_start_at(w, sp)) by {
            assert forall|j: int| 0 <= j < sp implies !(w[j] is Start) by {
                assert(w[j] == m[j]);
            }
        }
        lemma_first_start_unique(w, sp);
        assert(r == w.remove(sp));
        let last = m.len() - 1;
        assert(first_export_at(r, last)) by {
            assert(r[last] == e);
            assert forall|j: int| 0 <= j < last implies !(r[j] is Export) by {
                if j < sp {
                    assert(r[j] == m[j]);
                } else {
                    assert(r[j] == m[j + 1]);
                }
            }
        }
        lemma_first_export_unique(r, last);
        assert(r.remove(last) =~= m.remove(sp));
    }
}

/// Without a start section the remap changes nothing and reports so.
pub proof fn lemma_remap_without_start(m: ModuleModel)
    requires
        !has_start(m),
    ensures
        remapped(m) == m,
        RemapStart.translate_inplace_spec(m) == Ok::<
            (bool, ModuleModel),
            ModuleErrorModel,
        >((false, m)),
        RemapStart.translate_spec(m) == Ok::<Option<ModuleModel>, ModuleErrorModel>(None),
{
}

/// Binds `name` to function `f` in a list of export entries.
fn set_export_entry(es: &mut Vec<ExportEntry>, name: &String, f: u32)
    ensures
        entries_view(final(es)@) == set_export(entries_view(old(es)@), name@, f),
{
    let ghost ev = entries_view(es@);
    let field = name.clone();
    let entry = ExportEntry::new(field, Internal::Function(f));
    assert(entry@ == func_export(name@, f));
    let mut k: usize = 0;
    while k < es.len()
        invariant
            k <= es.len(),
            es@ == old(es)@,
            ev == entries_view(es@),
            entry@ == func_export(name@, f),
            forall|j: int| 0 <= j < k ==> ev[j].field != name@,
        decreases es.len() - k,
    {
        if es[k].field == *name {
            proof {
                assert(first_named_at(ev, name@, k as int));
                let c = named_pos(ev, name@);
                assert(first_named_at(ev, name@, c));
                if c < k {
                    assert(ev[c].field != name@);
                } else if k < c {
                    assert(ev[k as int].field != name@);
                }
            }
            let ghost entry_ghost = entry;
            es.set(k, entry);
            assert(es@ == old(es)@.update(k as int, entry_ghost));
            assert(entries_view(es@) =~= ev.update(k as int, func_export(name@, f)));
            assert(entries_view(es@) =~= set_export(ev, name@, f));
            return;
        }
        k = k + 1;
    }
    assert(!has_named(ev, name@)) by {
        if has_named(ev, name@) {
            assert(first_named_at(ev, name@, named_pos(ev, name@)));
        }
    }
    es.push(entry);
    assert(entries_view(es@) =~= set_export(ev, name@, f));
}

/// Replaces an exported function with another function, or exports it if
/// it is not exported.
pub fn remap_or_export_main(module: &mut Module, export_name: &str, func_idx: u32)
    ensures
        final(module)@ == with_export(old(module)@, export_name@, func_idx),
{
    let ghost m = module@;
    let name = export_name.to_owned();
    match module.export_section_position() {
        Some(i) => {
            let ghost before = module.sections@;
            let sec = module.sections.remove(i);
            assert(sec@ == m[i as int]);
            let mut es = match sec {
                Section::Export(es) => es,
                _ => {
                    assert(false);
                    Vec::new()
                },
            };
            set_export_entry(&mut es, &name, func_idx);
            let edited = Section::Export(es);
            let ghost edited_ghost = edited;
            module.sections.insert(i, edited);
            proof {
                assert(module.sections@ =~= before.update(i as int, edited_ghost));
                assert(module@ =~= with_export(m, export_name@, func_idx));
            }
        },
        None => {
            let entry = ExportEntry::new(name, Internal::Function(func_idx));
            let mut es: Vec<ExportEntry> = Vec::new();
            es.push(entry);
            assert(entries_view(es@) =~= seq![func_export(export_name@, func_idx)]);
            let new_section = Section::Export(es);
            let mut q: usize = 0;
            while q < module.sections.len()
                invariant
                    q <= module.sections.len(),
                    module@ == m,
                    forall|j: int| 0 <= j < q ==> order_of(m[j]) <= EXPORT_ORDER,
                ensures
                    q <= module.sections.len(),
                    module@ == m,
                    forall|j: int| 0 <= j < q ==> order_of(m[j]) <= EXPORT_ORDER,
                    q < module.sections.len() ==> order_of(m[q as int]) > EXPORT_ORDER,
                decreases module.sections.len() - q,
            {
                if section_order(&module.sections[q]) > EXPORT_ORDER {
                    break;
                }
                q = q + 1;
            }
            let ghost before = module.sections@;
            if q < module.sections.len() {
                proof {
                    assert(first_after_export_at(m, q as int));
                    lemma_first_after_export_unique(m, q as int, after_export_pos(m));
                }
                module.sections.insert(q, new_section);
                assert(module.sections@ =~= before.insert(q as int, new_section));
                assert(module@ =~= with_export(m, export_name@, func_idx));
            } else {
                assert(!has_after_export(m)) by {
                    if has_after_export(m) {
                        assert(first_after_export_at(m, after_export_pos(m)));
                    }
                }
                module.sections.push(new_section);
                assert(module.sections@ =~= before.push(new_section));
                assert(module@ =~= with_export(m, export_name@, func_idx));
            }
        },
    }
}

/// Turns the start function into the export `main` and removes the start
/// section; returns whether the module changed.
pub fn remap_start(module: &mut Module) -> (r: bool)
    ensures
        r == has_start(old(module)@),
        final(module)@ == remapped(old(module)@),
{
    if let Some(start_func_idx) = module.start_section() {
        remap_or_export_main(module, "main", start_func_idx);
        module.clear_start_section();
        true
    } else {
        false
    }
}

/// The translator that performs the start-function remap.
pub struct RemapStart;

impl ModulePreset for RemapStart {
    open spec fn known_preset(preset: Seq<char>) -> bool {
        preset == "ewasm"@
    }

    fn with_preset(preset: &str) -> (r: Result<Self, ()>) {
        let p = preset.to_owned();
        let ewasm = "ewasm".to_owned();
        if p == ewasm {
            Ok(RemapStart)
        } else {
            Err(())
        }
    }
}

impl ModuleTranslator for RemapStart {
    open spec fn translate_inplace_spec(&self, m: ModuleModel) -> Result<
        (bool, ModuleModel),
        ModuleErrorModel,
    > {
        Ok((has_start(m), remapped(m)))
    }

    open spec fn translate_spec(&self, m: ModuleModel) -> Result<
        Option<ModuleModel>,
        ModuleErrorModel,
    > {
        if has_start(m) {
            Ok(Some(remapped(m)))
        } else {
            Ok(None)
        }
    }

    fn translate_inplace(&self, module: &mut Module) -> (r: Result<bool, ModuleError>) {
        Ok(remap_start(module))
    }

    fn translate(&self, module: &Module) -> (r: Result<Option<Module>, ModuleError>) {
        let mut ret = module.copy();
        if remap_start(&mut ret) {
            Ok(Some(ret))
        } else {
            Ok(None)
        }
    }
}

} // verus!
