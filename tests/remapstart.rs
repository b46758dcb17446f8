use chisel::module::{ExportEntry, Internal, Module, Section, SectionKind};
use chisel::remapstart::{remap_or_export_main, remap_start, RemapStart};
use chisel::rules::{ModulePreset, ModuleTranslator};

fn raw(kind: SectionKind, payload: &[u8]) -> Section {
    Section::Other { kind, payload: payload.to_vec() }
}

fn export(field: &str, internal: Internal) -> ExportEntry {
    ExportEntry::new(field.to_string(), internal)
}

fn find_export<'a>(module: &'a Module, field: &str) -> Option<&'a ExportEntry> {
    module.export_section().and_then(|es| es.iter().find(|e| e.field == field))
}

fn kinds(module: &Module) -> Vec<String> {
    module
        .sections
        .iter()
        .map(|s| match s {
            Section::Export(_) => "export".to_string(),
            Section::Start(_) => "start".to_string(),
            Section::Other { kind, .. } => format!("{:?}", kind),
        })
        .collect()
}

// (module
//    (import "env" "ethereum_useGas" (func (param i64)))
//    (memory 1)
//    (export "main" (func $main))
//    (export "memory" (memory 0))
//    (func $main2)
//    (func $main)
//    (start $main2))
// with its name section.
fn module_with_start() -> Module {
    Module::new(vec![
        raw(SectionKind::Type, &[0x02, 0x60, 0x01, 0x7e, 0x00, 0x60, 0x00, 0x00]),
        raw(SectionKind::Import, b"\x01\x03env\x0fethereum_useGas\x00\x00"),
        raw(SectionKind::Function, &[0x02, 0x01, 0x01]),
        raw(SectionKind::Memory, &[0x01, 0x00, 0x01]),
        Section::Export(vec![
            export("main", Internal::Function(2)),
            export("memory", Internal::Memory(0)),
        ]),
        Section::Start(1),
        raw(SectionKind::Code, &[0x02, 0x02, 0x00, 0x0b, 0x02, 0x00, 0x0b]),
        raw(SectionKind::Name, b"\x04name\x01\x0e\x02\x01\x04main\x02\x05main2"),
    ])
}

// The same module without its start function and name section.
fn module_without_start() -> Module {
    Module::new(vec![
        raw(SectionKind::Type, &[0x02, 0x60, 0x01, 0x7e, 0x00, 0x60, 0x00, 0x00]),
        raw(SectionKind::Import, b"\x01\x03env\x0fethereum_useGas\x00\x00"),
        raw(SectionKind::Function, &[0x01, 0x01]),
        raw(SectionKind::Memory, &[0x01, 0x00, 0x01]),
        Section::Export(vec![
            export("main", Internal::Function(1)),
            export("memory", Internal::Memory(0)),
        ]),
        raw(SectionKind::Code, &[0x01, 0x02, 0x00, 0x0b]),
    ])
}

#[test]
fn remapstart_mutation() {
    let module = module_with_start();
    assert!(module.has_kind(SectionKind::Name));
    let start_idx = module.start_section().expect("Module missing start function");

    let new = RemapStart::with_preset("ewasm")
        .unwrap()
        .translate(&module)
        .expect("Module internal error")
        .expect("new module not returned");

    assert!(new.start_section().is_none(), "start section wasn't removed");
    assert!(new
        .export_section()
        .expect("Module missing export section")
        .iter()
        .find(|e| e.field == String::from("main") && e.internal == Internal::Function(start_idx))
        .is_some());
}

#[test]
fn remapstart_no_mutation() {
    let module = module_without_start();
    let new = RemapStart::with_preset("ewasm")
        .unwrap()
        .translate(&module)
        .expect("Module internal error");

    assert!(new.is_none());
}

#[test]
fn remapstart_inplace_mutation() {
    let mut module = module_with_start();
    assert!(module.has_kind(SectionKind::Name));

    let res = RemapStart::with_preset("ewasm").unwrap().translate_inplace(&mut module).unwrap();

    assert!(res, "module was not modified");
    assert!(module.start_section().is_none(), "start section wasn't removed");
}

#[test]
fn remapstart_inplace_no_mutation() {
    let mut module = module_without_start();
    let res = RemapStart::with_preset("ewasm").unwrap().translate_inplace(&mut module).unwrap();

    assert!(!res, "module was modified");
}

// (module
//    (import "env" "ethereum_useGas" (func (param i64)))
//    (memory 1)
//    (func $main2)
//    (func $main)
//    (start $main2))
fn module_without_exports() -> Module {
    Module::new(vec![
        raw(SectionKind::Type, &[0x02, 0x60, 0x01, 0x7e, 0x00, 0x60, 0x00, 0x00]),
        raw(SectionKind::Import, b"\x01\x03env\x0fethereum_useGas\x00\x00"),
        raw(SectionKind::Function, &[0x02, 0x01, 0x01]),
        raw(SectionKind::Memory, &[0x01, 0x00, 0x01]),
        Section::Start(1),
        raw(SectionKind::Code, &[0x02, 0x02, 0x00, 0x0b, 0x02, 0x00, 0x0b]),
    ])
}

#[test]
fn remapstart_mutation_no_exports() {
    let mut module = module_without_exports();
    let res = RemapStart::with_preset("ewasm").unwrap().translate_inplace(&mut module).unwrap();

    assert!(res, "module was not modified");
    assert!(module.export_section().is_some(), "export section does not exist");
}

// (module
//     (import "env" "ethereum_useGas" (func (param i64)))
//     (memory 1)
//     (start $main)
//     (export "memory" (memory 0))
//     (func $main))
#[test]
fn export_section_exists_but_no_main() {
    let mut module = Module::new(vec![
        raw(SectionKind::Type, &[0x02, 0x60, 0x01, 0x7e, 0x00, 0x60, 0x00, 0x00]),
        raw(SectionKind::Import, b"\x01\x03env\x0fethereum_useGas\x00\x00"),
        raw(SectionKind::Function, &[0x01, 0x01]),
        raw(SectionKind::Memory, &[0x01, 0x00, 0x01]),
        Section::Export(vec![export("memory", Internal::Memory(0))]),
        Section::Start(1),
        raw(SectionKind::Code, &[0x01, 0x02, 0x00, 0x0b]),
    ]);
    let remapper = RemapStart::with_preset("ewasm").expect("Can't fail");

    let res = remapper.translate_inplace(&mut module);
    assert!(res.is_ok());
    let mutated = res.unwrap();
    assert_eq!(mutated, true);
    assert!(module.export_section().is_some());
    assert!(module.start_section().is_none());
    assert!(module.export_section().unwrap().iter().find(|e| e.field == "main").is_some());
}

#[test]
fn unknown_preset_is_refused() {
    assert!(RemapStart::with_preset("ewasm").is_ok());
    assert!(RemapStart::with_preset("wasm").is_err());
    assert!(RemapStart::with_preset("").is_err());
}

#[test]
fn remap_twice_changes_nothing_more() {
    let mut once = module_with_start();
    assert!(remap_start(&mut once));
    let mut twice = once.copy();
    assert!(!remap_start(&mut twice));
    assert_eq!(format!("{:?}", once), format!("{:?}", twice));
}

#[test]
fn remap_rebinds_existing_main_in_place() {
    let mut module = module_with_start();
    assert!(remap_start(&mut module));
    let es = module.export_section().unwrap();
    assert_eq!(es.len(), 2);
    assert_eq!(es[0].field, "main");
    assert_eq!(es[0].internal, Internal::Function(1));
    assert_eq!(es[1].field, "memory");
    assert_eq!(es.iter().filter(|e| e.field == "main").count(), 1);
    assert_eq!(kinds(&module), vec!["Type", "Import", "Function", "Memory", "export", "Code", "Name"]);
}

#[test]
fn remap_adds_export_before_later_sections() {
    let mut module = module_without_exports();
    assert!(remap_start(&mut module));
    assert_eq!(kinds(&module), vec!["Type", "Import", "Function", "Memory", "export", "Code"]);
    let es = module.export_section().unwrap();
    assert_eq!(es.len(), 1);
    assert_eq!(es[0].field, "main");
    assert_eq!(es[0].internal, Internal::Function(1));
}

#[test]
fn new_export_section_goes_last_without_later_sections() {
    let mut module = Module::new(vec![
        raw(SectionKind::Type, &[0x01, 0x60, 0x00, 0x00]),
        raw(SectionKind::Custom, b"\x04meta"),
        Section::Start(0),
    ]);
    // The start section itself is ordered after exports.
    assert!(remap_start(&mut module));
    assert_eq!(kinds(&module), vec!["Type", "Custom", "export"]);

    let mut bare = Module::new(vec![raw(SectionKind::Type, &[0x01, 0x60, 0x00, 0x00])]);
    remap_or_export_main(&mut bare, "main", 3);
    assert_eq!(kinds(&bare), vec!["Type", "export"]);
    assert_eq!(find_export(&bare, "main").unwrap().internal, Internal::Function(3));
}

#[test]
fn remap_without_start_is_a_no_op() {
    let mut module = module_without_start();
    let before = format!("{:?}", module);
    assert!(!remap_start(&mut module));
    assert_eq!(format!("{:?}", module), before);
}

#[test]
fn remap_of_empty_module_is_a_no_op() {
    let mut module = Module::new(vec![]);
    assert!(!remap_start(&mut module));
    assert!(module.sections.is_empty());
}

#[test]
fn ethereum_module_main_moves_to_start_function() {
    let mut module = Module::new(vec![
        raw(SectionKind::Type, &[0x02, 0x60, 0x01, 0x7e, 0x00, 0x60, 0x00, 0x00]),
        raw(SectionKind::Import, b"\x01\x03env\x0fethereum_useGas\x00\x00"),
        raw(SectionKind::Function, &[0x02, 0x01, 0x01]),
        Section::Export(vec![export("main", Internal::Function(1))]),
        Section::Start(2),
        raw(SectionKind::Code, &[0x02, 0x02, 0x00, 0x0b, 0x02, 0x00, 0x0b]),
    ]);
    let count_before = module.export_section().unwrap().len();
    assert!(RemapStart.translate_inplace(&mut module).unwrap());
    assert_eq!(find_export(&module, "main").unwrap().internal, Internal::Function(2));
    assert!(module.start_section().is_none());
    assert_eq!(module.export_section().unwrap().len(), count_before);
}

#[test]
fn second_main_entry_is_left_alone() {
    let mut module = Module::new(vec![
        Section::Export(vec![
            export("main", Internal::Function(0)),
            export("main", Internal::Function(5)),
        ]),
        Section::Start(7),
    ]);
    assert!(remap_start(&mut module));
    let es = module.export_section().unwrap();
    assert_eq!(es[0].internal, Internal::Function(7));
    assert_eq!(es[1].internal, Internal::Function(5));
}
