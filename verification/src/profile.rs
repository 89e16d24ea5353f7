//! The static conformance profile: the bounds a Facet module must fit, the stable reasons a
//! module is refused, and the structural check [`check_profile`] that admits a module by
//! structure alone, without executing anything.

use vstd::prelude::*;

use crate::text::{decimal, decimal_string, push_decimal};
use crate::wasm::{
    first_import, memory_items, opt_text, parse_sections, table_items, export_items, wasm_sections,
    ExportInfo, ExternKind, MemoryInfo, Section, SectionView, TableInfo,
};

verus! {

/// Maximum accepted Facet module size, in bytes.
pub const MAX_MODULE_BYTES: usize = 8388608;
/// Maximum linear-memory pages a Facet may declare as its bounded maximum (16 MiB / 64 KiB).
pub const MAX_MEMORY_PAGES: u32 = 256;
/// Maximum table elements a Facet may declare.
pub const MAX_TABLE_ELEMENTS: u32 = 10000;
/// Maximum functions a Facet may define.
pub const MAX_FUNCTIONS: usize = 4096;
/// Maximum size of any single function body, in bytes.
pub const MAX_FUNCTION_BODY_BYTES: usize = 262144;

/// Which map entry point a Facet exports — the two module ABIs the registry admits.
#[derive(Debug, Clone, Copy, PartialEq, Eq, Structural)]
pub enum AbiKind {
    /// Exports `run(in, out, ncells, stride)` — one output token per cell, computed
    /// independently.
    Gather,
    /// Exports `run2d(in, out, cols, rows, stride)` — a propagation method handed the 2-D
    /// grid shape.
    Propagation,
}

/// The name of the exported entry-point function of an ABI.
pub open spec fn entry_point_name(k: AbiKind) -> Seq<char> {
    match k {
        AbiKind::Gather => "run"@,
        AbiKind::Propagation => "run2d"@,
    }
}

impl AbiKind {
    /// The name of the exported entry-point function for this ABI.
    pub fn entry_point(self) -> (s: &'static str)
        ensures
            s@ == entry_point_name(self),
    {
        match self {
            AbiKind::Gather => "run",
            AbiKind::Propagation => "run2d",
        }
    }
}

/// A machine-stable reason a module or program is refused.
#[derive(Debug, Clone, Copy, PartialEq, Eq, Structural)]
pub enum RejectionCode {
    /// Module byte length exceeds [`MAX_MODULE_BYTES`] (or a program section exceeds its cap).
    TooLarge,
    /// The bytes are not a well-formed wasm module.
    Malformed,
    /// The module declares an import (purity is granted no ambient authority).
    Import,
    /// The module declares more than one linear memory.
    MultiMemory,
    /// The module declares a 64-bit (memory64) linear memory.
    Memory64,
    /// The module declares a shared linear memory.
    SharedMemory,
    /// A linear memory has no bounded maximum.
    UnboundedMemory,
    /// A linear memory's maximum exceeds [`MAX_MEMORY_PAGES`].
    MemoryCapExceeded,
    /// The module declares more than one table.
    MultiTable,
    /// A table's element count exceeds [`MAX_TABLE_ELEMENTS`].
    TableCapExceeded,
    /// The module declares a 64-bit table.
    Table64,
    /// The module defines more than [`MAX_FUNCTIONS`] functions.
    TooManyFunctions,
    /// A single function body exceeds [`MAX_FUNCTION_BODY_BYTES`].
    FunctionBodyTooLarge,
    /// A required ABI export (`memory` or `alloc`) is absent.
    MissingExport,
    /// A required export is present but of the wrong kind.
    BadExportKind,
    /// The module exports neither `run` nor `run2d`.
    NoEntryPoint,
    /// The module exports both `run` and `run2d` — an ambiguous ABI.
    AmbiguousAbi,
    /// The module failed to compile in the authoritative host.
    CompileFailed,
    /// The module compiled but produced no tokens on any probe.
    NeverProducesTokens,
    /// The program does not begin with the bytecode magic.
    BadMagic,
    /// The program bytes end inside a header field, operand, table, or the code section.
    Truncated,
    /// The program contains an unknown opcode byte.
    BadOpcode,
    /// A `LOADF` reads a feature slot outside the declared stride.
    BadFeatureSlot,
    /// A `LOADP` reads a param index the program does not declare.
    BadParamIndex,
    /// A `TABLE` op names a table the program does not declare.
    BadTableIndex,
    /// A table entry is not a valid Unicode scalar value.
    BadCodepoint,
    /// The program's static stack effect underflows.
    StackUnderflow,
    /// The program's static stack effect exceeds the VM stack cap.
    StackOverflow,
    /// The program does not end with exactly one value on the stack.
    BadFinalStack,
    /// The program's declared feature stride does not match the engine it is published for.
    ProgramStrideMismatch,
    /// The submitted engine name is not one this build renders.
    UnknownEngine,
}

/// The stable slug of a rejection code, as it appears in logs and API bodies.
pub open spec fn rejection_slug(c: RejectionCode) -> Seq<char> {
    match c {
        RejectionCode::TooLarge => "too_large"@,
        RejectionCode::Malformed => "malformed"@,
        RejectionCode::Import => "import"@,
        RejectionCode::MultiMemory => "multi_memory"@,
        RejectionCode::Memory64 => "memory64"@,
        RejectionCode::SharedMemory => "shared_memory"@,
        RejectionCode::UnboundedMemory => "unbounded_memory"@,
        RejectionCode::MemoryCapExceeded => "memory_cap_exceeded"@,
        RejectionCode::MultiTable => "multi_table"@,
        RejectionCode::TableCapExceeded => "table_cap_exceeded"@,
        RejectionCode::Table64 => "table64"@,
        RejectionCode::TooManyFunctions => "too_many_functions"@,
        RejectionCode::FunctionBodyTooLarge => "function_body_too_large"@,
        RejectionCode::MissingExport => "missing_export"@,
        RejectionCode::BadExportKind => "bad_export_kind"@,
        RejectionCode::NoEntryPoint => "no_entry_point"@,
        RejectionCode::AmbiguousAbi => "ambiguous_abi"@,
        RejectionCode::CompileFailed => "compile_failed"@,
        RejectionCode::NeverProducesTokens => "never_produces_tokens"@,
        RejectionCode::BadMagic => "bad_magic"@,
        RejectionCode::Truncated => "truncated"@,
        RejectionCode::BadOpcode => "bad_opcode"@,
        RejectionCode::BadFeatureSlot => "bad_feature_slot"@,
        RejectionCode::BadParamIndex => "bad_param_index"@,
        RejectionCode::BadTableIndex => "bad_table_index"@,
        RejectionCode::BadCodepoint => "bad_codepoint"@,
        RejectionCode::StackUnderflow => "stack_underflow"@,
        RejectionCode::StackOverflow => "stack_overflow"@,
        RejectionCode::BadFinalStack => "bad_final_stack"@,
        RejectionCode::ProgramStrideMismatch => "program_stride_mismatch"@,
        RejectionCode::UnknownEngine => "unknown_engine"@,
    }
}

/// Distinct rejection codes have distinct slugs, so a slug names its code.
#[verifier::rlimit(100)]
pub proof fn lemma_rejection_slugs_distinct(c1: RejectionCode, c2: RejectionCode)
    requires
        c1 != c2,
    ensures
        rejection_slug(c1) != rejection_slug(c2),
{
    reveal_strlit("too_large");
    reveal_strlit("malformed");
    reveal_strlit("import");
    reveal_strlit("multi_memory");
    reveal_strlit("memory64");
    reveal_strlit("shared_memory");
    reveal_strlit("unbounded_memory");
    reveal_strlit("memory_cap_exceeded");
    reveal_strlit("multi_table");
    reveal_strlit("table_cap_exceeded");
    reveal_strlit("table64");
    reveal_strlit("too_many_functions");
    reveal_strlit("function_body_too_large");
    reveal_strlit("missing_export");
    reveal_strlit("bad_export_kind");
    reveal_strlit("no_entry_point");
    reveal_strlit("ambiguous_abi");
    reveal_strlit("compile_failed");
    reveal_strlit("never_produces_tokens");
    reveal_strlit("bad_magic");
    reveal_strlit("truncated");
    reveal_strlit("bad_opcode");
    reveal_strlit("bad_feature_slot");
    reveal_strlit("bad_param_index");
    reveal_strlit("bad_table_index");
    reveal_strlit("bad_codepoint");
    reveal_strlit("stack_underflow");
    reveal_strlit("stack_overflow");
    reveal_strlit("bad_final_stack");
    reveal_strlit("program_stride_mismatch");
    reveal_strlit("unknown_engine");
    if rejection_slug(c1) == rejection_slug(c2) {
        assert(rejection_slug(c1).len() == rejection_slug(c2).len());
        assert(rejection_slug(c1)[6] == rejection_slug(c2)[6]);
    }
}

impl RejectionCode {
    /// A short, stable slug for logs and API bodies.
    pub fn as_str(self) -> (s: &'static str)
        ensures
            s@ == rejection_slug(self),
    {
        match self {
            RejectionCode::TooLarge => "too_large",
            RejectionCode::Malformed => "malformed",
            RejectionCode::Import => "import",
            RejectionCode::MultiMemory => "multi_memory",
            RejectionCode::Memory64 => "memory64",
            RejectionCode::SharedMemory => "shared_memory",
            RejectionCode::UnboundedMemory => "unbounded_memory",
            RejectionCode::MemoryCapExceeded => "memory_cap_exceeded",
            RejectionCode::MultiTable => "multi_table",
            RejectionCode::TableCapExceeded => "table_cap_exceeded",
            RejectionCode::Table64 => "table64",
            RejectionCode::TooManyFunctions => "too_many_functions",
            RejectionCode::FunctionBodyTooLarge => "function_body_too_large",
            RejectionCode::MissingExport => "missing_export",
            RejectionCode::BadExportKind => "bad_export_kind",
            RejectionCode::NoEntryPoint => "no_entry_point",
            RejectionCode::AmbiguousAbi => "ambiguous_abi",
            RejectionCode::CompileFailed => "compile_failed",
            RejectionCode::NeverProducesTokens => "never_produces_tokens",
            RejectionCode::BadMagic => "bad_magic",
            RejectionCode::Truncated => "truncated",
            RejectionCode::BadOpcode => "bad_opcode",
            RejectionCode::BadFeatureSlot => "bad_feature_slot",
            RejectionCode::BadParamIndex => "bad_param_index",
            RejectionCode::BadTableIndex => "bad_table_index",
            RejectionCode::BadCodepoint => "bad_codepoint",
            RejectionCode::StackUnderflow => "stack_underflow",
            RejectionCode::StackOverflow => "stack_overflow",
            RejectionCode::BadFinalStack => "bad_final_stack",
            RejectionCode::ProgramStrideMismatch => "program_stride_mismatch",
            RejectionCode::UnknownEngine => "unknown_engine",
        }
    }
}

/// A refusal to admit or certify a Facet: a stable [`RejectionCode`] plus a human-readable
/// message. This is a value, never a panic.
#[derive(Debug, Clone, PartialEq, Eq)]
pub struct Rejection {
    /// The stable, machine-matchable reason.
    pub code: RejectionCode,
    /// A human-readable explanation naming the offending detail.
    pub message: String,
}

impl Rejection {
    /// A rejection with `code` and `message`.
    pub fn new(code: RejectionCode, message: String) -> (r: Rejection)
        ensures
            r.code == code,
            r.message@ == message@,
    {
        Rejection { code, message }
    }

    /// The rejection as one line: `[slug] message`.
    pub fn to_display_string(&self) -> (s: String)
        ensures
            s@ == "["@ + rejection_slug(self.code) + "] "@ + self.message@,
    {
        let mut s = String::new();
        s.append("[");
        s.append(self.code.as_str());
        s.append("] ");
        s.append(self.message.as_str());
        s
    }
}

/// The conformance envelope, as concrete values, so the server and the browser agree on
/// the bounds by value.
#[derive(Debug, Clone, Copy, PartialEq, Eq, Structural)]
pub struct Profile {
    pub max_module_bytes: usize,
    pub max_memory_pages: u32,
    pub max_table_elements: u32,
    pub max_functions: usize,
    pub max_function_body_bytes: usize,
}

impl Profile {
    /// The profile this build enforces.
    pub fn current() -> (p: Profile)
        ensures
            p.max_module_bytes == MAX_MODULE_BYTES,
            p.max_memory_pages == MAX_MEMORY_PAGES,
            p.max_table_elements == MAX_TABLE_ELEMENTS,
            p.max_functions == MAX_FUNCTIONS,
            p.max_function_body_bytes == MAX_FUNCTION_BODY_BYTES,
    {
        Profile {
            max_module_bytes: MAX_MODULE_BYTES,
            max_memory_pages: MAX_MEMORY_PAGES,
            max_table_elements: MAX_TABLE_ELEMENTS,
            max_functions: MAX_FUNCTIONS,
            max_function_body_bytes: MAX_FUNCTION_BODY_BYTES,
        }
    }
}

impl Default for Profile {
    fn default() -> (p: Profile)
        ensures
            p.max_module_bytes == MAX_MODULE_BYTES,
            p.max_memory_pages == MAX_MEMORY_PAGES,
            p.max_table_elements == MAX_TABLE_ELEMENTS,
            p.max_functions == MAX_FUNCTIONS,
            p.max_function_body_bytes == MAX_FUNCTION_BODY_BYTES,
    {
        Profile::current()
    }
}

/// A section's facts as exec values: what the profile check reads of one payload.
pub enum SectionFacts {
    /// The first import the section declares (or the error met reading it).
    Imports(Option<Result<(String, String), String>>),
    /// The memories read, and the error that ended the reading early.
    Memories(Vec<MemoryInfo>, Option<String>),
    /// The tables read, and the error that ended the reading early.
    Tables(Vec<TableInfo>, Option<String>),
    /// The exports read, and the error that ended the reading early.
    Exports(Vec<ExportInfo>, Option<String>),
    /// A function body's byte range `(start, end)`.
    Body(u64, u64),
    /// The parse stopped here with this error.
    Malformed(String),
    /// A payload the profile check does not inspect.
    Other,
}

/// Section facts seen as plain values.
pub open spec fn facts_view(f: SectionFacts) -> SectionView {
    match f {
        SectionFacts::Imports(i) => SectionView::Imports(
            match i {
                None => None,
                Some(Ok((m, n))) => Some(Ok((m@, n@))),
                Some(Err(e)) => Some(Err(e@)),
            },
        ),
        SectionFacts::Memories(v, e) => SectionView::Memories(v@, opt_text(e)),
        SectionFacts::Tables(v, e) => SectionView::Tables(v@, opt_text(e)),
        SectionFacts::Exports(v, e) => SectionView::Exports(
            v@.map_values(|x: ExportInfo| (x.name@, x.kind)),
            opt_text(e),
        ),
        SectionFacts::Body(s, e) => SectionView::Body(s, e),
        SectionFacts::Malformed(m) => SectionView::Malformed(m@),
        SectionFacts::Other => SectionView::Other,
    }
}

/// Every body range in `v` ends no earlier than it starts.
pub open spec fn ranges_ordered(v: Seq<SectionView>) -> bool {
    forall|i: int| 0 <= i < v.len() ==> (#[trigger] v[i] matches SectionView::Body(s, e) ==> s <= e)
}

/// What the profile check has counted and seen so far while walking a module.
pub struct Scan {
    pub memories: nat,
    pub tables: nat,
    pub functions: nat,
    pub memory_export: bool,
    pub alloc_export: bool,
    pub run_export: bool,
    pub run2d_export: bool,
}

/// The state before any payload.
pub open spec fn scan_start() -> Scan {
    Scan {
        memories: 0,
        tables: 0,
        functions: 0,
        memory_export: false,
        alloc_export: false,
        run_export: false,
        run2d_export: false,
    }
}

/// A refusal as plain values.
pub type Refusal = (RejectionCode, Seq<char>);

/// The refusal for a parse error with message `e`.
pub open spec fn malformed_refusal(e: Seq<char>) -> Refusal {
    (RejectionCode::Malformed, "malformed wasm: "@ + e)
}

/// Walk the memories `items[j..]`, then the reading error `err`, from state `st`.
pub open spec fn scan_memories(st: Scan, items: Seq<MemoryInfo>, j: int, err: Option<Seq<char>>) -> Result<Scan, Refusal>
    decreases items.len() - j,
{
    if j >= items.len() || j < 0 {
        match err {
            Some(e) => Err(malformed_refusal(e)),
            None => Ok(st),
        }
    } else {
        let m = items[j];
        let st2 = Scan { memories: st.memories + 1, ..st };
        if st2.memories > 1 {
            Err((RejectionCode::MultiMemory, "Facet must declare at most one linear memory"@))
        } else if m.memory64 {
            Err((RejectionCode::Memory64, "Facet memory must not be a 64-bit (memory64) memory"@))
        } else if m.shared {
            Err((RejectionCode::SharedMemory, "Facet memory must not be shared"@))
        } else {
            match m.maximum {
                None => Err(
                    (RejectionCode::UnboundedMemory, "Facet memory must declare a bounded maximum"@),
                ),
                Some(max) => if max > MAX_MEMORY_PAGES {
                    Err(
                        (
                            RejectionCode::MemoryCapExceeded,
                            "Facet memory maximum of "@ + decimal(max as nat)
                                + " pages exceeds the 256-page (16 MiB) cap"@,
                        ),
                    )
                } else {
                    scan_memories(st2, items, j + 1, err)
                },
            }
        }
    }
}

/// Whether a table declares more elements, initially or at most, than the cap.
pub open spec fn table_over_cap(t: TableInfo) -> bool {
    t.initial > MAX_TABLE_ELEMENTS || (t.maximum matches Some(m) && m > MAX_TABLE_ELEMENTS)
}

/// Walk the tables `items[j..]`, then the reading error `err`, from state `st`.
pub open spec fn scan_tables(st: Scan, items: Seq<TableInfo>, j: int, err: Option<Seq<char>>) -> Result<Scan, Refusal>
    decreases items.len() - j,
{
    if j >= items.len() || j < 0 {
        match err {
            Some(e) => Err(malformed_refusal(e)),
            None => Ok(st),
        }
    } else {
        let t = items[j];
        let st2 = Scan { tables: st.tables + 1, ..st };
        if st2.tables > 1 {
            Err((RejectionCode::MultiTable, "Facet must declare at most one table"@))
        } else if t.table64 {
            Err((RejectionCode::Table64, "Facet must not declare a 64-bit table"@))
        } else if table_over_cap(t) {
            Err((RejectionCode::TableCapExceeded, "Facet table exceeds the 10000-element cap"@))
        } else {
            scan_tables(st2, items, j + 1, err)
        }
    }
}

/// The table cap, on a tables section holding one 32-bit table `t` read without error: a
/// table declaring more than [`MAX_TABLE_ELEMENTS`] elements, initially or as its maximum,
/// is refused with `TableCapExceeded`; one within the cap, initially and at its maximum (or
/// with no maximum), is admitted and counted.
pub proof fn lemma_table_cap(st: Scan, t: TableInfo)
    requires
        st.tables == 0,
        !t.table64,
    ensures
        (t.initial > 10000 || (t.maximum matches Some(m) && m > 10000)) ==> scan_tables(
            st,
            seq![t],
            0,
            None,
        ) == Err::<Scan, Refusal>(
            (RejectionCode::TableCapExceeded, "Facet table exceeds the 10000-element cap"@),
        ),
        (t.initial <= 10000 && (t.maximum matches Some(m) ==> m <= 10000)) ==> scan_tables(
            st,
            seq![t],
            0,
            None,
        ) == Ok::<Scan, Refusal>(Scan { tables: 1, ..st }),
{
    let st2 = Scan { tables: st.tables + 1, ..st };
    assert(scan_tables(st2, seq![t], 1, None) == Ok::<Scan, Refusal>(st2));
}

/// The refusal for a required export `name` of the wrong kind, `expected` naming the kind.
pub open spec fn bad_export_refusal(name: Seq<char>, expected: Seq<char>) -> Refusal {
    (RejectionCode::BadExportKind, "Facet export '"@ + name + "' must be a "@ + expected)
}

/// Walk the exports `items[j..]`, then the reading error `err`, from state `st`.
pub open spec fn scan_exports(
    st: Scan,
    items: Seq<(Seq<char>, ExternKind)>,
    j: int,
    err: Option<Seq<char>>,
) -> Result<Scan, Refusal>
    decreases items.len() - j,
{
    if j >= items.len() || j < 0 {
        match err {
            Some(e) => Err(malformed_refusal(e)),
            None => Ok(st),
        }
    } else {
        let (name, kind) = items[j];
        if name == "memory"@ {
            if kind != ExternKind::Memory {
                Err(bad_export_refusal("memory"@, "memory"@))
            } else {
                scan_exports(Scan { memory_export: true, ..st }, items, j + 1, err)
            }
        } else if name == "alloc"@ {
            if kind != ExternKind::Func {
                Err(bad_export_refusal("alloc"@, "function"@))
            } else {
                scan_exports(Scan { alloc_export: true, ..st }, items, j + 1, err)
            }
        } else if name == "run"@ && kind == ExternKind::Func {
            scan_exports(Scan { run_export: true, ..st }, items, j + 1, err)
        } else if name == "run2d"@ && kind == ExternKind::Func {
            scan_exports(Scan { run2d_export: true, ..st }, items, j + 1, err)
        } else {
            scan_exports(st, items, j + 1, err)
        }
    }
}

/// Take one payload into account.
pub open spec fn scan_section(st: Scan, s: SectionView) -> Result<Scan, Refusal> {
    match s {
        SectionView::Imports(first) => match first {
            None => Ok(st),
            Some(Err(e)) => Err(malformed_refusal(e)),
            Some(Ok((m, n))) => Err(
                (
                    RejectionCode::Import,
                    "Facet must declare zero imports (purity); found "@ + m + "."@ + n,
                ),
            ),
        },
        SectionView::Memories(items, err) => scan_memories(st, items, 0, err),
        SectionView::Tables(items, err) => scan_tables(st, items, 0, err),
        SectionView::Exports(items, err) => scan_exports(st, items, 0, err),
        SectionView::Body(s, e) => {
            let st2 = Scan { functions: st.functions + 1, ..st };
            if st2.functions > MAX_FUNCTIONS {
                Err((RejectionCode::TooManyFunctions, "Facet defines more than 4096 functions"@))
            } else if e - s > MAX_FUNCTION_BODY_BYTES {
                Err(
                    (
                        RejectionCode::FunctionBodyTooLarge,
                        "a Facet function body is "@ + decimal((e - s) as nat)
                            + " bytes, exceeding the 262144-byte limit"@,
                    ),
                )
            } else {
                Ok(st2)
            }
        },
        SectionView::Malformed(e) => Err(malformed_refusal(e)),
        SectionView::Other => Ok(st),
    }
}

/// Walk the payloads `secs[i..]` from state `st`.
pub open spec fn scan_sections(st: Scan, secs: Seq<SectionView>, i: int) -> Result<Scan, Refusal>
    decreases secs.len() - i,
{
    if i >= secs.len() || i < 0 {
        Ok(st)
    } else {
        match scan_section(st, secs[i]) {
            Err(r) => Err(r),
            Ok(st2) => scan_sections(st2, secs, i + 1),
        }
    }
}

/// The verdict once every payload was taken in: the required exports, then exactly one
/// entry point.
pub open spec fn finish_scan(st: Scan) -> Result<AbiKind, Refusal> {
    if !st.memory_export {
        Err((RejectionCode::MissingExport, "Facet does not export 'memory'"@))
    } else if !st.alloc_export {
        Err((RejectionCode::MissingExport, "Facet does not export 'alloc'"@))
    } else if st.run_export && !st.run2d_export {
        Ok(AbiKind::Gather)
    } else if !st.run_export && st.run2d_export {
        Ok(AbiKind::Propagation)
    } else if !st.run_export {
        Err(
            (
                RejectionCode::NoEntryPoint,
                "Facet must export a 'run' or 'run2d' entry point (function)"@,
            ),
        )
    } else {
        Err(
            (
                RejectionCode::AmbiguousAbi,
                "Facet must export exactly one of 'run' or 'run2d', not both"@,
            ),
        )
    }
}

/// The profile check's verdict on a module whose payloads are `secs`.
pub open spec fn profile_verdict(secs: Seq<SectionView>) -> Result<AbiKind, Refusal> {
    match scan_sections(scan_start(), secs, 0) {
        Err(r) => Err(r),
        Ok(st) => finish_scan(st),
    }
}

/// A verdict of the profile check, on exec values, matches one on plain values.
pub open spec fn verdict_matches(r: Result<AbiKind, Rejection>, v: Result<AbiKind, Refusal>) -> bool {
    match v {
        Ok(k) => r == Ok::<AbiKind, Rejection>(k),
        Err((code, msg)) => r matches Err(rej) && rej.code == code && rej.message@ == msg,
    }
}

/// The profile check's running counts and flags while it walks a module.
pub struct ScanState {
    memories: u64,
    tables: u64,
    functions: u64,
    memory_export: bool,
    alloc_export: bool,
    run_export: bool,
    run2d_export: bool,
}

impl ScanState {
    pub closed spec fn view(&self) -> Scan {
        Scan {
            memories: self.memories as nat,
            tables: self.tables as nat,
            functions: self.functions as nat,
            memory_export: self.memory_export,
            alloc_export: self.alloc_export,
            run_export: self.run_export,
            run2d_export: self.run2d_export,
        }
    }

    /// The counts stay within what the profile check admits.
    pub closed spec fn bounded(&self) -> bool {
        self.memories <= 1 && self.tables <= 1 && self.functions <= MAX_FUNCTIONS
    }
}

/// An exec scan outcome matches one on plain values.
pub open spec fn scan_matches(r: Result<ScanState, Rejection>, v: Result<Scan, Refusal>) -> bool {
    match v {
        Ok(s) => r matches Ok(x) && x.view() == s && x.bounded(),
        Err((code, msg)) => r matches Err(rej) && rej.code == code && rej.message@ == msg,
    }
}

fn malformed(e: &String) -> (r: Rejection)
    ensures
        r.code == malformed_refusal(e@).0,
        r.message@ == malformed_refusal(e@).1,
{
    let mut m = String::new();
    m.append("malformed wasm: ");
    m.append(e.as_str());
    Rejection::new(RejectionCode::Malformed, m)
}

fn bad_export_kind(name: &str, expected: &str) -> (r: Rejection)
    ensures
        r.code == bad_export_refusal(name@, expected@).0,
        r.message@ == bad_export_refusal(name@, expected@).1,
{
    let mut m = String::new();
    m.append("Facet export '");
    m.append(name);
    m.append("' must be a ");
    m.append(expected);
    Rejection::new(RejectionCode::BadExportKind, m)
}

fn reject(code: RejectionCode, message: &str) -> (r: Rejection)
    ensures
        r.code == code,
        r.message@ == message@,
{
    Rejection::new(code, message.to_owned())
}

fn scan_memory_items(start: ScanState, items: &Vec<MemoryInfo>, err: &Option<String>) -> (r: Result<ScanState, Rejection>)
    requires
        start.bounded(),
    ensures
        scan_matches(r, scan_memories(start.view(), items@, 0, opt_text(*err))),
{
    let mut st = start;
    let ghost st0 = st.view();
    let mut j: usize = 0;
    while j < items.len()
        invariant
            j <= items@.len(),
            st.bounded(),
            st0 == start.view(),
            scan_memories(st0, items@, 0, opt_text(*err)) == scan_memories(st.view(), items@, j as int, opt_text(*err)),
        decreases items@.len() - j,
    {
        let m = items[j];
        if st.memories + 1 > 1 {
            return Err(reject(RejectionCode::MultiMemory, "Facet must declare at most one linear memory"));
        }
        if m.memory64 {
            return Err(reject(RejectionCode::Memory64, "Facet memory must not be a 64-bit (memory64) memory"));
        }
        if m.shared {
            return Err(reject(RejectionCode::SharedMemory, "Facet memory must not be shared"));
        }
        match m.maximum {
            None => {
                return Err(reject(RejectionCode::UnboundedMemory, "Facet memory must declare a bounded maximum"));
            },
            Some(max) => {
                if max > MAX_MEMORY_PAGES as u64 {
                    let mut msg = String::new();
                    msg.append("Facet memory maximum of ");
                    push_decimal(&mut msg, max);
                    msg.append(" pages exceeds the 256-page (16 MiB) cap");
                    return Err(Rejection::new(RejectionCode::MemoryCapExceeded, msg));
                }
            },
        }
        st.memories = st.memories + 1;
        j += 1;
    }
    match err {
        Some(e) => Err(malformed(e)),
        None => Ok(st),
    }
}

fn scan_table_items(start: ScanState, items: &Vec<TableInfo>, err: &Option<String>) -> (r: Result<ScanState, Rejection>)
    requires
        start.bounded(),
    ensures
        scan_matches(r, scan_tables(start.view(), items@, 0, opt_text(*err))),
{
    let mut st = start;
    let ghost st0 = st.view();
    let mut j: usize = 0;
    while j < items.len()
        invariant
            j <= items@.len(),
            st.bounded(),
            st0 == start.view(),
            scan_tables(st0, items@, 0, opt_text(*err)) == scan_tables(st.view(), items@, j as int, opt_text(*err)),
        decreases items@.len() - j,
    {
        let t = items[j];
        if st.tables + 1 > 1 {
            return Err(reject(RejectionCode::MultiTable, "Facet must declare at most one table"));
        }
        if t.table64 {
            return Err(reject(RejectionCode::Table64, "Facet must not declare a 64-bit table"));
        }
        let over = t.initial > MAX_TABLE_ELEMENTS as u64 || match t.maximum {
            Some(m) => m > MAX_TABLE_ELEMENTS as u64,
            None => false,
        };
        if over {
            return Err(reject(RejectionCode::TableCapExceeded, "Facet table exceeds the 10000-element cap"));
        }
        st.tables = st.tables + 1;
        j += 1;
    }
    match err {
        Some(e) => Err(malformed(e)),
        None => Ok(st),
    }
}

fn str_eq(a: &String, b: &str) -> (r: bool)
    ensures
        r == (a@ == b@),
{
    let b = b.to_owned();
    *a == b
}

fn scan_export_items(start: ScanState, items: &Vec<ExportInfo>, err: &Option<String>) -> (r: Result<ScanState, Rejection>)
    requires
        start.bounded(),
    ensures
        scan_matches(
            r,
            scan_exports(start.view(), items@.map_values(|x: ExportInfo| (x.name@, x.kind)), 0, opt_text(*err)),
        ),
{
    let ghost view = items@.map_values(|x: ExportInfo| (x.name@, x.kind));
    let mut st = start;
    let ghost st0 = st.view();
    let mut j: usize = 0;
    while j < items.len()
        invariant
            j <= items@.len(),
            view == items@.map_values(|x: ExportInfo| (x.name@, x.kind)),
            st.bounded(),
            st0 == start.view(),
            scan_exports(st0, view, 0, opt_text(*err)) == scan_exports(st.view(), view, j as int, opt_text(*err)),
        decreases items@.len() - j,
    {
        let x = &items[j];
        assert(view[j as int] == (x.name@, x.kind));
        if str_eq(&x.name, "memory") {
            if x.kind != ExternKind::Memory {
                return Err(bad_export_kind("memory", "memory"));
            }
            st.memory_export = true;
        } else if str_eq(&x.name, "alloc") {
            if x.kind != ExternKind::Func {
                return Err(bad_export_kind("alloc", "function"));
            }
            st.alloc_export = true;
        } else if str_eq(&x.name, "run") && x.kind == ExternKind::Func {
            st.run_export = true;
        } else if str_eq(&x.name, "run2d") && x.kind == ExternKind::Func {
            st.run2d_export = true;
        }
        j += 1;
    }
    match err {
        Some(e) => Err(malformed(e)),
        None => Ok(st),
    }
}

fn scan_one(st: ScanState, f: &SectionFacts) -> (r: Result<ScanState, Rejection>)
    requires
        st.bounded(),
        *f matches SectionFacts::Body(s, e) ==> s <= e,
    ensures
        scan_matches(r, scan_section(st.view(), facts_view(*f))),
{
    match f {
        SectionFacts::Imports(first) => match first {
            None => Ok(st),
            Some(Err(e)) => Err(malformed(e)),
            Some(Ok((m, n))) => {
                let mut msg = String::new();
                msg.append("Facet must declare zero imports (purity); found ");
                msg.append(m.as_str());
                msg.append(".");
                msg.append(n.as_str());
                Err(Rejection::new(RejectionCode::Import, msg))
            },
        },
        SectionFacts::Memories(items, err) => scan_memory_items(st, items, err),
        SectionFacts::Tables(items, err) => scan_table_items(st, items, err),
        SectionFacts::Exports(items, err) => scan_export_items(st, items, err),
        SectionFacts::Body(s, e) => {
            let mut st = st;
            if st.functions + 1 > MAX_FUNCTIONS as u64 {
                return Err(reject(RejectionCode::TooManyFunctions, "Facet defines more than 4096 functions"));
            }
            let len = *e - *s;
            if len > MAX_FUNCTION_BODY_BYTES as u64 {
                let mut msg = String::new();
                msg.append("a Facet function body is ");
                push_decimal(&mut msg, len);
                msg.append(" bytes, exceeding the 262144-byte limit");
                return Err(Rejection::new(RejectionCode::FunctionBodyTooLarge, msg));
            }
            st.functions = st.functions + 1;
            Ok(st)
        },
        SectionFacts::Malformed(e) => Err(malformed(e)),
        SectionFacts::Other => Ok(st),
    }
}

/// The profile check's verdict on a module whose payloads are `facts`, in order: the first refusal
/// met walking them, else the required exports, else the ABI its single entry point names.
pub fn admit_sections(facts: &Vec<SectionFacts>) -> (r: Result<AbiKind, Rejection>)
    requires
        ranges_ordered(facts@.map_values(|f: SectionFacts| facts_view(f))),
    ensures
        verdict_matches(r, profile_verdict(facts@.map_values(|f: SectionFacts| facts_view(f)))),
{
    let ghost secs = facts@.map_values(|f: SectionFacts| facts_view(f));
    let mut st = ScanState {
        memories: 0,
        tables: 0,
        functions: 0,
        memory_export: false,
        alloc_export: false,
        run_export: false,
        run2d_export: false,
    };
    let mut i: usize = 0;
    while i < facts.len()
        invariant
            i <= facts@.len(),
            secs == facts@.map_values(|f: SectionFacts| facts_view(f)),
            ranges_ordered(secs),
            st.bounded(),
            scan_sections(scan_start(), secs, 0) == scan_sections(st.view(), secs, i as int),
        decreases facts@.len() - i,
    {
        assert(secs[i as int] == facts_view(facts@[i as int]));
        st = match scan_one(st, &facts[i]) {
            Ok(s) => s,
            Err(rej) => return Err(rej),
        };
        i += 1;
    }
    if !st.memory_export {
        return Err(reject(RejectionCode::MissingExport, "Facet does not export 'memory'"));
    }
    if !st.alloc_export {
        return Err(reject(RejectionCode::MissingExport, "Facet does not export 'alloc'"));
    }
    if st.run_export && !st.run2d_export {
        Ok(AbiKind::Gather)
    } else if !st.run_export && st.run2d_export {
        Ok(AbiKind::Propagation)
    } else if !st.run_export {
        Err(reject(RejectionCode::NoEntryPoint, "Facet must export a 'run' or 'run2d' entry point (function)"))
    } else {
        Err(reject(RejectionCode::AmbiguousAbi, "Facet must export exactly one of 'run' or 'run2d', not both"))
    }
}

/// The refusal for a module of `len` bytes, over [`MAX_MODULE_BYTES`].
pub open spec fn too_large_refusal(len: nat) -> Refusal {
    (
        RejectionCode::TooLarge,
        "Facet module is "@ + decimal(len) + " bytes, exceeding the 8388608-byte limit"@,
    )
}

/// The profile check's verdict on module `bytes`: too large, or what [`profile_verdict`] decides on
/// the payloads the parser reads from it.
pub open spec fn check_profile_spec(bytes: Seq<u8>) -> Result<AbiKind, Refusal> {
    if bytes.len() > MAX_MODULE_BYTES {
        Err(too_large_refusal(bytes.len()))
    } else {
        profile_verdict(wasm_sections(bytes))
    }
}

fn section_facts(s: &Section) -> (f: SectionFacts)
    requires
        *s matches Section::Body(a, b) ==> a <= b,
    ensures
        facts_view(f) == crate::wasm::section_view(*s),
        f matches SectionFacts::Body(a, b) ==> a <= b,
{
    match s {
        Section::Imports(r) => SectionFacts::Imports(first_import(r)),
        Section::Memories(r) => {
            let (items, err) = memory_items(r);
            SectionFacts::Memories(items, err)
        },
        Section::Tables(r) => {
            let (items, err) = table_items(r);
            SectionFacts::Tables(items, err)
        },
        Section::Exports(r) => {
            let (items, err) = export_items(r);
            SectionFacts::Exports(items, err)
        },
        Section::Body(a, b) => SectionFacts::Body(*a, *b),
        Section::Malformed(m) => SectionFacts::Malformed(m.clone()),
        Section::Other => SectionFacts::Other,
    }
}

/// Statically admit an untrusted Facet module by structure alone, returning its
/// [`AbiKind`] or a precise [`Rejection`]: zero imports; at most one bounded, non-shared,
/// 32-bit linear memory within the page cap; at most one 32-bit table within the element
/// cap; at most [`MAX_FUNCTIONS`] bodies, none over [`MAX_FUNCTION_BODY_BYTES`]; the
/// `memory` and `alloc` exports; and exactly one of the `run` / `run2d` entry points. It
/// does not execute the module.
pub fn check_profile(bytes: &[u8]) -> (r: Result<AbiKind, Rejection>)
    ensures
        verdict_matches(r, check_profile_spec(bytes@)),
{
    if bytes.len() > MAX_MODULE_BYTES {
        let mut msg = String::new();
        msg.append("Facet module is ");
        push_decimal(&mut msg, bytes.len() as u64);
        msg.append(" bytes, exceeding the 8388608-byte limit");
        return Err(Rejection::new(RejectionCode::TooLarge, msg));
    }
    let secs = parse_sections(bytes);
    let ghost want = wasm_sections(bytes@);
    let mut facts: Vec<SectionFacts> = Vec::new();
    let mut i: usize = 0;
    while i < secs.len()
        invariant
            i <= secs@.len(),
            want == wasm_sections(bytes@),
            secs@.len() == want.len(),
            forall|k: int| 0 <= k < secs@.len() ==> crate::wasm::section_view(#[trigger] secs@[k]) == want[k],
            forall|k: int| 0 <= k < secs@.len() ==> (#[trigger] secs@[k] matches Section::Body(a, b) ==> a <= b),
            facts@.len() == i,
            forall|k: int| 0 <= k < i ==> facts_view(#[trigger] facts@[k]) == want[k],
            forall|k: int| 0 <= k < i ==> (#[trigger] facts@[k] matches SectionFacts::Body(a, b) ==> a <= b),
        decreases secs@.len() - i,
    {
        let f = section_facts(&secs[i]);
        facts.push(f);
        i += 1;
    }
    let ghost views = facts@.map_values(|f: SectionFacts| facts_view(f));
    assert(views =~= want);
    admit_sections(&facts)
}

} // verus!
