//! The section-level model of a WebAssembly module.
//!
//! Only what the rules read is held as plain values: the export entries and
//! the start function index. Every other section is carried as its encoded
//! bytes, tagged with its kind, so that it survives a round trip unchanged.
use vstd::prelude::*;

verus! {

/// The kind of a section that is carried as raw bytes.
#[derive(Clone, Copy, PartialEq, Eq, Debug, Structural)]
pub enum SectionKind {
    Unparsed,
    Custom,
    Type,
    Import,
    Function,
    Table,
    Memory,
    Global,
    Element,
    DataCount,
    Code,
    Data,
    Name,
    Reloc,
}

/// What an export entry refers to.
#[derive(Clone, Copy, PartialEq, Eq, Debug, Structural)]
pub enum Internal {
    Function(u32),
    Table(u32),
    Memory(u32),
    Global(u32),
}

/// One entry of the export section: a field name bound to an item.
#[derive(Debug)]
pub struct ExportEntry {
    pub field: String,
    pub internal: Internal,
}

/// One section of a module.
#[derive(Debug)]
pub enum Section {
    /// The export section, with its entries in order.
    Export(Vec<ExportEntry>),
    /// The start section: the index of the function run at instantiation.
    Start(u32),
    /// Any other section, carried as its encoded bytes.
    Other { kind: SectionKind, payload: Vec<u8> },
}

/// A module: its sections in binary order.
#[derive(Debug)]
pub struct Module {
    pub sections: Vec<Section>,
}

/// The mathematical value of a module: its sections in order.
pub type ModuleModel = Seq<SectionModel>;

/// The mathematical value of an export entry.
pub struct ExportEntryModel {
    pub field: Seq<char>,
    pub internal: Internal,
}

/// The mathematical value of a section.
pub enum SectionModel {
    Export(Seq<ExportEntryModel>),
    Start(u32),
    Other(SectionKind, Seq<u8>),
}

impl View for ExportEntry {
    type V = ExportEntryModel;

    open spec fn view(&self) -> ExportEntryModel {
        ExportEntryModel { field: self.field@, internal: self.internal }
    }
}

pub open spec fn entries_view(es: Seq<ExportEntry>) -> Seq<ExportEntryModel> {
    es.map_values(|e: ExportEntry| e@)
}

impl View for Section {
    type V = SectionModel;

    open spec fn view(&self) -> SectionModel {
        match self {
            Section::Export(es) => SectionModel::Export(entries_view(es@)),
            Section::Start(i) => SectionModel::Start(*i),
            Section::Other { kind, payload } => SectionModel::Other(*kind, payload@),
        }
    }
}

pub open spec fn sections_view(ss: Seq<Section>) -> ModuleModel {
    ss.map_values(|s: Section| s@)
}

impl View for Module {
    type V = ModuleModel;

    open spec fn view(&self) -> ModuleModel {
        sections_view(self.sections@)
    }
}

/// The position of a raw section's kind in the canonical binary order;
/// custom and metadata sections have code 0 and are not ordered.
pub open spec fn kind_order(k: SectionKind) -> u8 {
    match k {
        SectionKind::Unparsed => 0x00,
        SectionKind::Custom => 0x00,
        SectionKind::Type => 0x01,
        SectionKind::Import => 0x02,
        SectionKind::Function => 0x03,
        SectionKind::Table => 0x04,
        SectionKind::Memory => 0x05,
        SectionKind::Global => 0x06,
        SectionKind::Element => 0x09,
        SectionKind::DataCount => 0x0a,
        SectionKind::Code => 0x0b,
        SectionKind::Data => 0x0c,
        SectionKind::Name => 0x00,
        SectionKind::Reloc => 0x00,
    }
}

/// The order code of the export section.
pub const EXPORT_ORDER: u8 = 0x07;

/// The order code of the start section.
pub const START_ORDER: u8 = 0x08;

/// The order code of a section in the canonical binary order.
pub open spec fn order_of(s: SectionModel) -> u8 {
    match s {
        SectionModel::Export(_) => EXPORT_ORDER,
        SectionModel::Start(_) => START_ORDER,
        SectionModel::Other(k, _) => kind_order(k),
    }
}

/// The order code of a section: 0 for custom and metadata sections, and the
/// standard sections numbered in their fixed binary order.
pub fn section_order(s: &Section) -> (r: u8)
    ensures
        r == order_of(s@),
{
    match s {
        Section::Export(_) => EXPORT_ORDER,
        Section::Start(_) => START_ORDER,
        Section::Other { kind, .. } => match kind {
            SectionKind::Unparsed => 0x00,
            SectionKind::Custom => 0x00,
            SectionKind::Type => 0x01,
            SectionKind::Import => 0x02,
            SectionKind::Function => 0x03,
            SectionKind::Table => 0x04,
            SectionKind::Memory => 0x05,
            SectionKind::Global => 0x06,
            SectionKind::Element => 0x09,
            SectionKind::DataCount => 0x0a,
            SectionKind::Code => 0x0b,
            SectionKind::Data => 0x0c,
            SectionKind::Name => 0x00,
            SectionKind::Reloc => 0x00,
        },
    }
}


/// `i` is the position of the first start section of `m`.
pub open spec fn first_start_at(m: ModuleModel, i: int) -> bool {
    &&& 0 <= i < m.len()
    &&& m[i] is Start
    &&& forall|j: int| 0 <= j < i ==> !(m[j] is Start)
}

/// `i` is the position of the first export section of `m`.
pub open spec fn first_export_at(m: ModuleModel, i: int) -> bool {
    &&& 0 <= i < m.len()
    &&& m[i] is Export
    &&& forall|j: int| 0 <= j < i ==> !(m[j] is Export)
}

/// `i` is the position of the first section of `m` whose kind comes after
/// the export section in the canonical order.
pub open spec fn first_after_export_at(m: ModuleModel, i: int) -> bool {
    &&& 0 <= i < m.len()
    &&& order_of(m[i]) > EXPORT_ORDER
    &&& forall|j: int| 0 <= j < i ==> order_of(m[j]) <= EXPORT_ORDER
}

pub open spec fn has_start(m: ModuleModel) -> bool {
    exists|i: int| #[trigger] first_start_at(m, i)
}

pub open spec fn has_export(m: ModuleModel) -> bool {
    exists|i: int| #[trigger] first_export_at(m, i)
}

/// The position of the first start section (meaningful when there is one).
pub open spec fn start_pos(m: ModuleModel) -> int {
    choose|i: int| #[trigger] first_start_at(m, i)
}

/// The position of the first export section (meaningful when there is one).
pub open spec fn export_pos(m: ModuleModel) -> int {
    choose|i: int| #[trigger] first_export_at(m, i)
}

/// The function index named by the module's start section, if it has one.
pub open spec fn start_index(m: ModuleModel) -> Option<u32> {
    if has_start(m) {
        Some(m[start_pos(m)]->Start_0)
    } else {
        None
    }
}

/// The module with its first start section removed.
pub open spec fn without_start(m: ModuleModel) -> ModuleModel {
    if has_start(m) {
        m.remove(start_pos(m))
    } else {
        m
    }
}

/// The entries of the module's export section, if it has one.
pub open spec fn export_entries(m: ModuleModel) -> Option<Seq<ExportEntryModel>> {
    if has_export(m) {
        Some(m[export_pos(m)]->Export_0)
    } else {
        None
    }
}

pub open spec fn is_raw_of_kind(s: SectionModel, k: SectionKind) -> bool {
    s is Other && s->Other_0 == k
}

/// Some raw section of `m` has kind `k`.
pub open spec fn has_raw_kind(m: ModuleModel, k: SectionKind) -> bool {
    exists|i: int| 0 <= i < m.len() && is_raw_of_kind(#[trigger] m[i], k)
}

/// No two start sections.
pub open spec fn at_most_one_start(m: ModuleModel) -> bool {
    forall|i: int, j: int|
        0 <= i < m.len() && 0 <= j < m.len() && #[trigger] (m[i] is Start) && #[trigger] (
        m[j] is Start) ==> i == j
}

/// Any start section makes `has_start` true.
pub proof fn lemma_has_start_at(m: ModuleModel, i: int)
    requires
        0 <= i < m.len(),
        m[i] is Start,
    ensures
        has_start(m),
    decreases i,
{
    if exists|j: int| 0 <= j < i && #[trigger] (m[j] is Start) {
        let j = choose|j: int| 0 <= j < i && #[trigger] (m[j] is Start);
        lemma_has_start_at(m, j);
    } else {
        assert(first_start_at(m, i));
    }
}

/// Any export section makes `has_export` true.
pub proof fn lemma_has_export_at(m: ModuleModel, i: int)
    requires
        0 <= i < m.len(),
        m[i] is Export,
    ensures
        has_export(m),
    decreases i,
{
    if exists|j: int| 0 <= j < i && #[trigger] (m[j] is Export) {
        let j = choose|j: int| 0 <= j < i && #[trigger] (m[j] is Export);
        lemma_has_export_at(m, j);
    } else {
        assert(first_export_at(m, i));
    }
}

/// Without `has_export`, no section is an export section.
pub proof fn lemma_no_export(m: ModuleModel)
    requires
        !has_export(m),
    ensures
        forall|i: int| 0 <= i < m.len() ==> !(#[trigger] m[i] is Export),
{
    assert forall|i: int| 0 <= i < m.len() implies !(#[trigger] m[i] is Export) by {
        if m[i] is Export {
            lemma_has_export_at(m, i);
        }
    }
}

/// With `has_start`, the start position holds a start section.
pub proof fn lemma_start_pos(m: ModuleModel)
    requires
        has_start(m),
    ensures
        first_start_at(m, start_pos(m)),
{
    let i = choose|i: int| #[trigger] first_start_at(m, i);
    assert(first_start_at(m, i));
}

/// With `has_export`, the export position holds an export section.
pub proof fn lemma_export_pos(m: ModuleModel)
    requires
        has_export(m),
    ensures
        first_export_at(m, export_pos(m)),
{
    let i = choose|i: int| #[trigger] first_export_at(m, i);
    assert(first_export_at(m, i));
}

pub proof fn lemma_first_start_unique(m: ModuleModel, i: int)
    requires
        first_start_at(m, i),
    ensures
        has_start(m),
        start_pos(m) == i,
{
    let k = start_pos(m);
    assert(first_start_at(m, k));
    if k < i {
        assert(!(m[k] is Start));
    } else if i < k {
        assert(!(m[i] is Start));
    }
}

pub proof fn lemma_first_export_unique(m: ModuleModel, i: int)
    requires
        first_export_at(m, i),
    ensures
        has_export(m),
        export_pos(m) == i,
{
    let k = export_pos(m);
    assert(first_export_at(m, k));
    if k < i {
        assert(!(m[k] is Export));
    } else if i < k {
        assert(!(m[i] is Export));
    }
}

pub proof fn lemma_first_after_export_unique(m: ModuleModel, i: int, k: int)
    requires
        first_after_export_at(m, i),
        first_after_export_at(m, k),
    ensures
        i == k,
{
    if k < i {
        assert(order_of(m[k]) <= EXPORT_ORDER);
    } else if i < k {
        assert(order_of(m[i]) <= EXPORT_ORDER);
    }
}

pub fn copy_bytes(b: &Vec<u8>) -> (r: Vec<u8>)
    ensures
        r@ == b@,
{
    let mut r: Vec<u8> = Vec::new();
    let mut i: usize = 0;
    while i < b.len()
        invariant
            i <= b.len(),
            r@ == b@.subrange(0, i as int),
        decreases b.len() - i,
    {
        r.push(b[i]);
        i = i + 1;
        assert(r@ =~= b@.subrange(0, i as int));
    }
    assert(r@ =~= b@);
    r
}

impl ExportEntry {
    pub fn new(field: String, internal: Internal) -> (r: ExportEntry)
        ensures
            r@ == (ExportEntryModel { field: field@, internal }),
    {
        ExportEntry { field, internal }
    }

    pub fn copy(&self) -> (r: ExportEntry)
        ensures
            r@ == self@,
    {
        ExportEntry { field: self.field.clone(), internal: self.internal }
    }
}

impl Section {
    pub fn copy(&self) -> (r: Section)
        ensures
            r@ == self@,
    {
        match self {
            Section::Export(es) => {
                let mut r: Vec<ExportEntry> = Vec::new();
                let mut i: usize = 0;
                while i < es.len()
                    invariant
                        i <= es.len(),
                        entries_view(r@) == entries_view(es@).subrange(0, i as int),
                    decreases es.len() - i,
                {
                    let e = es[i].copy();
                    let ghost prev = r@;
                    r.push(e);
                    proof {
                        assert(entries_view(prev).len() == i);
                        assert(r@ == prev.push(e));
                        assert(entries_view(r@).len() == i + 1);
                        assert(entries_view(r@)[i as int] == entries_view(es@)[i as int]);
                        assert(entries_view(r@) =~= entries_view(es@).subrange(0, i + 1)) by {
                            assert forall|k: int| 0 <= k < i + 1 implies entries_view(r@)[k]
                                == entries_view(es@)[k] by {
                                if k < i {
                                    assert(entries_view(prev)[k] == entries_view(es@).subrange(
                                        0,
                                        i as int,
                                    )[k]);
                                }
                            }
                        }
                    }
                    i = i + 1;
                }
                assert(entries_view(r@) =~= entries_view(es@));
                Section::Export(r)
            },
            Section::Start(i) => Section::Start(*i),
            Section::Other { kind, payload } => Section::Other {
                kind: *kind,
                payload: copy_bytes(payload),
            },
        }
    }
}

impl Module {
    pub fn new(sections: Vec<Section>) -> (r: Module)
        ensures
            r@ == sections_view(sections@),
    {
        Module { sections }
    }

    /// A copy of the module, section by section.
    pub fn copy(&self) -> (r: Module)
        ensures
            r@ == self@,
    {
        let mut r: Vec<Section> = Vec::new();
        let mut i: usize = 0;
        while i < self.sections.len()
            invariant
                i <= self.sections.len(),
                sections_view(r@) == self@.subrange(0, i as int),
            decreases self.sections.len() - i,
        {
            let s = self.sections[i].copy();
            let ghost prev = r@;
            r.push(s);
            proof {
                assert(sections_view(prev).len() == i);
                assert(r@ == prev.push(s));
                assert(sections_view(r@).len() == i + 1);
                assert(sections_view(r@)[i as int] == self@[i as int]);
                assert(sections_view(r@) =~= self@.subrange(0, i + 1)) by {
                    assert forall|k: int| 0 <= k < i + 1 implies sections_view(r@)[k]
                        == self@[k] by {
                        if k < i {
                            assert(sections_view(prev)[k] == self@.subrange(0, i as int)[k]);
                        }
                    }
                }
            }
            i = i + 1;
        }
        assert(sections_view(r@) =~= self@);
        Module { sections: r }
    }

    /// Whether some raw section has the given kind.
    pub fn has_kind(&self, kind: SectionKind) -> (r: bool)
        ensures
            r == has_raw_kind(self@, kind),
    {
        let mut i: usize = 0;
        while i < self.sections.len()
            invariant
                i <= self.sections.len(),
                forall|j: int| 0 <= j < i ==> !is_raw_of_kind(#[trigger] self@[j], kind),
            decreases self.sections.len() - i,
        {
            if let Section::Other { kind: k, .. } = &self.sections[i] {
                if *k == kind {
                    assert(is_raw_of_kind(self@[i as int], kind));
                    return true;
                }
            }
            i = i + 1;
        }
        false
    }

    /// The function index of the first start section, if any.
    pub fn start_section(&self) -> (r: Option<u32>)
        ensures
            r == start_index(self@),
    {
        let mut i: usize = 0;
        while i < self.sections.len()
            invariant
                i <= self.sections.len(),
                forall|j: int| 0 <= j < i ==> !(self@[j] is Start),
            decreases self.sections.len() - i,
        {
            if let Section::Start(f) = &self.sections[i] {
                proof {
                    lemma_first_start_unique(self@, i as int);
                }
                return Some(*f);
            }
            i = i + 1;
        }
        None
    }

    /// The position of the first export section, if any.
    pub fn export_section_position(&self) -> (r: Option<usize>)
        ensures
            match r {
                Some(i) => has_export(self@) && export_pos(self@) == i,
                None => !has_export(self@),
            },
    {
        let mut i: usize = 0;
        while i < self.sections.len()
            invariant
                i <= self.sections.len(),
                forall|j: int| 0 <= j < i ==> !(self@[j] is Export),
            decreases self.sections.len() - i,
        {
            if let Section::Export(_) = &self.sections[i] {
                proof {
                    lemma_first_export_unique(self@, i as int);
                }
                return Some(i);
            }
            i = i + 1;
        }
        None
    }

    /// The entries of the first export section, if any.
    pub fn export_section(&self) -> (r: Option<&Vec<ExportEntry>>)
        ensures
            match r {
                Some(es) => export_entries(self@) == Some(entries_view(es@)),
                None => export_entries(self@) is None,
            },
    {
        match self.export_section_position() {
            Some(i) => match &self.sections[i] {
                Section::Export(es) => Some(es),
                _ => None,
            },
            None => None,
        }
    }

    /// Removes the first start section, if any.
    pub fn clear_start_section(&mut self)
        ensures
            final(self)@ == without_start(old(self)@),
    {
        let mut i: usize = 0;
        while i < self.sections.len()
            invariant
                i <= self.sections.len(),
                self@ == old(self)@,
                forall|j: int| 0 <= j < i ==> !(self@[j] is Start),
            decreases self.sections.len() - i,
        {
            if let Section::Start(_) = &self.sections[i] {
                proof {
                    lemma_first_start_unique(self@, i as int);
                }
                let ghost before = self.sections@;
                self.sections.remove(i);
                assert(self@ =~= old(self)@.remove(i as int)) by {
                    assert(self.sections@ =~= before.remove(i as int));
                }
                return;
            }
            i = i + 1;
        }
        assert(!has_start(self@)) by {
            if has_start(self@) {
                let k = start_pos(self@);
                assert(first_start_at(self@, k));
            }
        }
    }
}

} // verus!
