//! What the structural check reads of a wasm module, through `wasmparser`: the payloads of a
//! module in order, and the entries of the sections the profile check inspects, each turned into
//! plain values.

use vstd::prelude::*;
use wasmparser::{Export, ExternalKind, Imports, MemoryType, Parser, Payload, SectionLimited, Table};

verus! {

#[verifier::external_type_specification]
#[verifier::external_body]
#[verifier::reject_recursive_types(T)]
pub struct ExSectionLimited<'a, T>(SectionLimited<'a, T>);

#[verifier::external_type_specification]
#[verifier::external_body]
pub struct ExMemoryType(MemoryType);

#[verifier::external_type_specification]
#[verifier::external_body]
pub struct ExTable<'a>(Table<'a>);

#[verifier::external_type_specification]
#[verifier::external_body]
pub struct ExExport<'a>(Export<'a>);

#[verifier::external_type_specification]
#[verifier::external_body]
pub struct ExImports<'a>(Imports<'a>);

/// The kind of an exported item.
#[derive(Debug, Clone, Copy, PartialEq, Eq, Structural)]
pub enum ExternKind {
    Func,
    FuncExact,
    Table,
    Memory,
    Global,
    Tag,
}

/// What the profile check reads of a declared linear memory.
#[derive(Debug, Clone, Copy, PartialEq, Eq, Structural)]
pub struct MemoryInfo {
    pub memory64: bool,
    pub shared: bool,
    pub maximum: Option<u64>,
}

/// What the profile check reads of a declared table.
#[derive(Debug, Clone, Copy, PartialEq, Eq, Structural)]
pub struct TableInfo {
    pub table64: bool,
    pub initial: u64,
    pub maximum: Option<u64>,
}

/// What the profile check reads of an export.
#[derive(Debug, Clone, PartialEq, Eq)]
pub struct ExportInfo {
    pub name: String,
    pub kind: ExternKind,
}

/// A section of a module, as the parser hands it out.
pub enum Section<'a> {
    Imports(SectionLimited<'a, Imports<'a>>),
    Memories(SectionLimited<'a, MemoryType>),
    Tables(SectionLimited<'a, Table<'a>>),
    Exports(SectionLimited<'a, Export<'a>>),
    /// One function body, by its byte range in the module.
    Body(u64, u64),
    /// The parse stopped here with this error.
    Malformed(String),
    /// A payload the profile check does not inspect.
    Other,
}

/// A section of a module as plain values: what the profile check reads of it.
pub enum SectionView {
    /// The first import the section declares, if any (or the error met reading it).
    Imports(Option<Result<(Seq<char>, Seq<char>), Seq<char>>>),
    /// The memories read, and the error that ended the reading early, if any.
    Memories(Seq<MemoryInfo>, Option<Seq<char>>),
    /// The tables read, and the error that ended the reading early, if any.
    Tables(Seq<TableInfo>, Option<Seq<char>>),
    /// The exports read as `(name, kind)`, and the error that ended the reading early.
    Exports(Seq<(Seq<char>, ExternKind)>, Option<Seq<char>>),
    Body(u64, u64),
    Malformed(Seq<char>),
    Other,
}

/// The payloads `wasmparser` reads from `bytes`, in order, each seen as plain values; the
/// sequence ends with the first error.
pub uninterp spec fn wasm_sections(bytes: Seq<u8>) -> Seq<SectionView>;

/// The first import an import section's reader yields, flattening import groups: `None`
/// when it declares none, or the error met first.
pub uninterp spec fn first_import_of(r: SectionLimited<Imports>) -> Option<Result<(Seq<char>, Seq<char>), Seq<char>>>;

/// The memories a memory section's reader yields, in order, and the error that ended the
/// reading early, if one did.
pub uninterp spec fn memory_entries(r: SectionLimited<MemoryType>) -> (Seq<MemoryInfo>, Option<Seq<char>>);

/// The tables a table section's reader yields, in order, and the error that ended the
/// reading early, if one did.
pub uninterp spec fn table_entries(r: SectionLimited<Table>) -> (Seq<TableInfo>, Option<Seq<char>>);

/// The exports an export section's reader yields as `(name, kind)`, in order, and the
/// error that ended the reading early, if one did.
pub uninterp spec fn export_entries(r: SectionLimited<Export>) -> (Seq<(Seq<char>, ExternKind)>, Option<Seq<char>>);

/// The view of an optional error message.
pub open spec fn opt_text(o: Option<String>) -> Option<Seq<char>> {
    match o {
        Some(m) => Some(m@),
        None => None,
    }
}

/// A section seen as plain values, through the contents its reader yields.
pub open spec fn section_view(s: Section) -> SectionView {
    match s {
        Section::Imports(r) => SectionView::Imports(first_import_of(r)),
        Section::Memories(r) => {
            let (items, err) = memory_entries(r);
            SectionView::Memories(items, err)
        },
        Section::Tables(r) => {
            let (items, err) = table_entries(r);
            SectionView::Tables(items, err)
        },
        Section::Exports(r) => {
            let (items, err) = export_entries(r);
            SectionView::Exports(items, err)
        },
        Section::Body(s, e) => SectionView::Body(s, e),
        Section::Malformed(m) => SectionView::Malformed(m@),
        Section::Other => SectionView::Other,
    }
}

/// Parse `bytes` with `wasmparser::Parser::parse_all`, handing out each payload the profile check
/// inspects: the import, memory, table and export section readers, each function body's
/// byte range, and the parse error that ends the sequence. Claims that the sections are
/// those `wasm_sections` names, and that a body's range never ends before it starts.
#[verifier::external_body]
pub(crate) fn parse_sections<'a>(bytes: &'a [u8]) -> (r: Vec<Section<'a>>)
    ensures
        r@.len() == wasm_sections(bytes@).len(),
        forall|i: int| 0 <= i < r@.len() ==> section_view(#[trigger] r@[i]) == wasm_sections(bytes@)[i],
        forall|i: int| 0 <= i < r@.len() ==> (#[trigger] r@[i] matches Section::Body(s, e) ==> s <= e),
{
    Parser::new(0).parse_all(bytes).map(|p| match p {
        Err(e) => Section::Malformed(e.to_string()),
        Ok(Payload::ImportSection(s)) => Section::Imports(s),
        Ok(Payload::MemorySection(s)) => Section::Memories(s),
        Ok(Payload::TableSection(s)) => Section::Tables(s),
        Ok(Payload::ExportSection(s)) => Section::Exports(s),
        Ok(Payload::CodeSectionEntry(b)) => Section::Body(b.range().start, b.range().end),
        Ok(_) => Section::Other,
    }).collect()
}

/// The first import of an import section, through `SectionLimited::into_imports`: claims
/// it is what `first_import_of` names, module and name turned into strings.
#[verifier::external_body]
pub(crate) fn first_import(r: &SectionLimited<Imports>) -> (v: Option<Result<(String, String), String>>)
    ensures
        first_import_of(*r) == match v {
            None => None,
            Some(Ok((m, n))) => Some(Ok((m@, n@))),
            Some(Err(e)) => Some(Err(e@)),
        },
{
    match r.clone().into_imports().next() {
        None => None,
        Some(Ok(i)) => Some(Ok((i.module.to_string(), i.name.to_string()))),
        Some(Err(e)) => Some(Err(e.to_string())),
    }
}

/// The memories of a memory section, read with the section's iterator until it ends or
/// errs: claims they are what `memory_entries` names.
#[verifier::external_body]
pub(crate) fn memory_items(r: &SectionLimited<MemoryType>) -> (v: (Vec<MemoryInfo>, Option<String>))
    ensures
        memory_entries(*r) == (v.0@, opt_text(v.1)),
{
    let mut items = Vec::new();
    for m in r.clone() {
        match m {
            Ok(m) => items.push(MemoryInfo { memory64: m.memory64, shared: m.shared, maximum: m.maximum }),
            Err(e) => return (items, Some(e.to_string())),
        }
    }
    (items, None)
}

/// The tables of a table section, read with the section's iterator until it ends or errs:
/// claims they are what `table_entries` names.
#[verifier::external_body]
pub(crate) fn table_items(r: &SectionLimited<Table>) -> (v: (Vec<TableInfo>, Option<String>))
    ensures
        table_entries(*r) == (v.0@, opt_text(v.1)),
{
    let mut items = Vec::new();
    for t in r.clone() {
        match t {
            Ok(t) => items.push(TableInfo { table64: t.ty.table64, initial: t.ty.initial, maximum: t.ty.maximum }),
            Err(e) => return (items, Some(e.to_string())),
        }
    }
    (items, None)
}

/// The exports of an export section, read with the section's iterator until it ends or
/// errs: claims they are what `export_entries` names, as `(name, kind)`.
#[verifier::external_body]
pub(crate) fn export_items(r: &SectionLimited<Export>) -> (v: (Vec<ExportInfo>, Option<String>))
    ensures
        export_entries(*r) == (v.0@.map_values(|x: ExportInfo| (x.name@, x.kind)), opt_text(v.1)),
{
    let mut items = Vec::new();
    for x in r.clone() {
        let x = match x { Ok(x) => x, Err(e) => return (items, Some(e.to_string())) };
        let kind = match x.kind {
            ExternalKind::Func => ExternKind::Func, ExternalKind::FuncExact => ExternKind::FuncExact,
            ExternalKind::Table => ExternKind::Table, ExternalKind::Memory => ExternKind::Memory,
            ExternalKind::Global => ExternKind::Global, ExternalKind::Tag => ExternKind::Tag,
        };
        items.push(ExportInfo { name: x.name.to_string(), kind });
    }
    (items, None)
}

} // verus!
