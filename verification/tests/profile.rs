use mosaic::profile::{
    admit_sections, check_profile, AbiKind, Profile, RejectionCode, SectionFacts, MAX_FUNCTIONS,
    MAX_FUNCTION_BODY_BYTES, MAX_MEMORY_PAGES, MAX_MODULE_BYTES, MAX_TABLE_ELEMENTS,
};
use mosaic::wasm::{ExportInfo, ExternKind, MemoryInfo, TableInfo};
use mosaic::certify::{admit_for_certify, certificate_head, program_certificate_head, ProbeOutcome, CERTIFY_VERSION};
use mosaic::digest::sha256_hex;

fn wasm(wat: &str) -> Vec<u8> {
    wat::parse_str(wat).expect("assemble wat")
}

const GATHER_WAT: &str = r#"
    (module
      (memory (export "memory") 1 16)
      (func (export "alloc") (param i32) (result i32) (i32.const 0))
      (func (export "run") (param i32 i32 i32 i32)))
"#;

const PROP_WAT: &str = r#"
    (module
      (memory (export "memory") 1 16)
      (func (export "alloc") (param i32) (result i32) (i32.const 0))
      (func (export "run2d") (param i32 i32 i32 i32 i32)))
"#;

fn reject_code(wat: &str) -> RejectionCode {
    check_profile(&wasm(wat)).expect_err("expected rejection").code
}

#[test]
fn admits_gather_facet() {
    assert_eq!(check_profile(&wasm(GATHER_WAT)).unwrap(), AbiKind::Gather);
}

#[test]
fn admits_propagation_facet() {
    assert_eq!(check_profile(&wasm(PROP_WAT)).unwrap(), AbiKind::Propagation);
}

#[test]
fn rejects_import() {
    let wat = r#"
        (module
          (import "env" "evil" (func))
          (memory (export "memory") 1 16)
          (func (export "alloc") (param i32) (result i32) (i32.const 0))
          (func (export "run") (param i32 i32 i32 i32)))
    "#;
    assert_eq!(reject_code(wat), RejectionCode::Import);
}

#[test]
fn rejects_imported_memory() {
    let wat = r#"
        (module
          (import "env" "mem" (memory 1 16))
          (func (export "alloc") (param i32) (result i32) (i32.const 0))
          (func (export "run") (param i32 i32 i32 i32)))
    "#;
    assert_eq!(reject_code(wat), RejectionCode::Import);
}

#[test]
fn rejects_multi_memory() {
    let wat = r#"
        (module
          (memory (export "memory") 1 16)
          (memory 1 1)
          (func (export "alloc") (param i32) (result i32) (i32.const 0))
          (func (export "run") (param i32 i32 i32 i32)))
    "#;
    assert_eq!(reject_code(wat), RejectionCode::MultiMemory);
}

#[test]
fn rejects_memory64() {
    let wat = r#"
        (module
          (memory (export "memory") i64 1 16)
          (func (export "alloc") (param i32) (result i32) (i32.const 0))
          (func (export "run") (param i32 i32 i32 i32)))
    "#;
    assert_eq!(reject_code(wat), RejectionCode::Memory64);
}

#[test]
fn rejects_shared_memory() {
    let wat = r#"
        (module
          (memory (export "memory") 1 16 shared)
          (func (export "alloc") (param i32) (result i32) (i32.const 0))
          (func (export "run") (param i32 i32 i32 i32)))
    "#;
    assert_eq!(reject_code(wat), RejectionCode::SharedMemory);
}

#[test]
fn rejects_unbounded_memory() {
    let wat = r#"
        (module
          (memory (export "memory") 1)
          (func (export "alloc") (param i32) (result i32) (i32.const 0))
          (func (export "run") (param i32 i32 i32 i32)))
    "#;
    assert_eq!(reject_code(wat), RejectionCode::UnboundedMemory);
}

#[test]
fn rejects_oversized_memory_maximum() {
    let wat = r#"
        (module
          (memory (export "memory") 1 300)
          (func (export "alloc") (param i32) (result i32) (i32.const 0))
          (func (export "run") (param i32 i32 i32 i32)))
    "#;
    assert_eq!(reject_code(wat), RejectionCode::MemoryCapExceeded);
}

#[test]
fn rejects_multi_table() {
    let wat = r#"
        (module
          (memory (export "memory") 1 16)
          (table 1 1 funcref)
          (table 1 1 funcref)
          (func (export "alloc") (param i32) (result i32) (i32.const 0))
          (func (export "run") (param i32 i32 i32 i32)))
    "#;
    assert_eq!(reject_code(wat), RejectionCode::MultiTable);
}

#[test]
fn rejects_oversized_table() {
    let wat = r#"
        (module
          (memory (export "memory") 1 16)
          (table 20000 funcref)
          (func (export "alloc") (param i32) (result i32) (i32.const 0))
          (func (export "run") (param i32 i32 i32 i32)))
    "#;
    assert_eq!(reject_code(wat), RejectionCode::TableCapExceeded);
}

#[test]
fn admits_small_table() {
    let wat = r#"
        (module
          (memory (export "memory") 1 16)
          (table 10 100 funcref)
          (func (export "alloc") (param i32) (result i32) (i32.const 0))
          (func (export "run") (param i32 i32 i32 i32)))
    "#;
    assert_eq!(check_profile(&wasm(wat)).unwrap(), AbiKind::Gather);
}

#[test]
fn rejects_missing_memory_export() {
    let wat = r#"
        (module
          (memory 1 16)
          (func (export "alloc") (param i32) (result i32) (i32.const 0))
          (func (export "run") (param i32 i32 i32 i32)))
    "#;
    assert_eq!(reject_code(wat), RejectionCode::MissingExport);
}

#[test]
fn rejects_missing_alloc_export() {
    let wat = r#"
        (module
          (memory (export "memory") 1 16)
          (func (export "run") (param i32 i32 i32 i32)))
    "#;
    assert_eq!(reject_code(wat), RejectionCode::MissingExport);
}

#[test]
fn rejects_no_entry_point() {
    let wat = r#"
        (module
          (memory (export "memory") 1 16)
          (func (export "alloc") (param i32) (result i32) (i32.const 0)))
    "#;
    assert_eq!(reject_code(wat), RejectionCode::NoEntryPoint);
}

#[test]
fn rejects_ambiguous_abi() {
    let wat = r#"
        (module
          (memory (export "memory") 1 16)
          (func (export "alloc") (param i32) (result i32) (i32.const 0))
          (func (export "run") (param i32 i32 i32 i32))
          (func (export "run2d") (param i32 i32 i32 i32 i32)))
    "#;
    assert_eq!(reject_code(wat), RejectionCode::AmbiguousAbi);
}

#[test]
fn rejects_wrong_kind_alloc_export() {
    let wat = r#"
        (module
          (memory (export "memory") 1 16)
          (global (export "alloc") i32 (i32.const 0))
          (func (export "run") (param i32 i32 i32 i32)))
    "#;
    assert_eq!(reject_code(wat), RejectionCode::BadExportKind);
}

#[test]
fn rejects_malformed_bytes() {
    let bytes = [0x00, 0x61, 0x73, 0x6d, 0x01, 0x00, 0x00, 0x00, 0xff, 0xff];
    assert_eq!(check_profile(&bytes).unwrap_err().code, RejectionCode::Malformed);
}

#[test]
fn rejects_oversized_module() {
    let big = vec![0u8; MAX_MODULE_BYTES + 1];
    assert_eq!(check_profile(&big).unwrap_err().code, RejectionCode::TooLarge);
}

#[test]
fn profile_current_matches_constants() {
    let p = Profile::current();
    assert_eq!(p.max_module_bytes, MAX_MODULE_BYTES);
    assert_eq!(p.max_memory_pages, MAX_MEMORY_PAGES);
    assert_eq!(p.max_table_elements, MAX_TABLE_ELEMENTS);
}

#[test]
fn rejection_messages_name_the_detail() {
    let big = vec![0u8; MAX_MODULE_BYTES + 1];
    let r = check_profile(&big).unwrap_err();
    assert_eq!(r.message, "Facet module is 8388609 bytes, exceeding the 8388608-byte limit");
    assert_eq!(r.to_display_string(), "[too_large] Facet module is 8388609 bytes, exceeding the 8388608-byte limit");

    let wat = r#"
        (module
          (memory (export "memory") 1 300)
          (func (export "alloc") (param i32) (result i32) (i32.const 0))
          (func (export "run") (param i32 i32 i32 i32)))
    "#;
    let r = check_profile(&wasm(wat)).unwrap_err();
    assert_eq!(r.message, "Facet memory maximum of 300 pages exceeds the 256-page (16 MiB) cap");

    let wat = r#"
        (module
          (import "env" "evil" (func))
          (memory (export "memory") 1 16))
    "#;
    let r = check_profile(&wasm(wat)).unwrap_err();
    assert_eq!(r.message, "Facet must declare zero imports (purity); found env.evil");

    let wat = r#"
        (module
          (memory (export "memory") 1 16)
          (global (export "alloc") i32 (i32.const 0)))
    "#;
    let r = check_profile(&wasm(wat)).unwrap_err();
    assert_eq!(r.message, "Facet export 'alloc' must be a function");
}

#[test]
fn malformed_message_carries_the_parser_error() {
    let bytes = [0x00, 0x61, 0x73, 0x6d, 0x01, 0x00, 0x00, 0x00, 0xff, 0xff];
    let r = check_profile(&bytes).unwrap_err();
    assert!(r.message.starts_with("malformed wasm: "));
    assert!(r.message.len() > "malformed wasm: ".len());
}

fn export(name: &str, kind: ExternKind) -> ExportInfo {
    ExportInfo { name: name.to_string(), kind }
}

fn base_exports() -> SectionFacts {
    SectionFacts::Exports(
        vec![
            export("memory", ExternKind::Memory),
            export("alloc", ExternKind::Func),
            export("run", ExternKind::Func),
        ],
        None,
    )
}

#[test]
fn admit_sections_walks_payloads_in_order() {
    let mem = SectionFacts::Memories(
        vec![MemoryInfo { memory64: false, shared: false, maximum: Some(16) }],
        None,
    );
    assert_eq!(admit_sections(&vec![mem, base_exports()]).unwrap(), AbiKind::Gather);

    // A "run" export that is not a function is not an entry point.
    let exports = SectionFacts::Exports(
        vec![
            export("memory", ExternKind::Memory),
            export("alloc", ExternKind::Func),
            export("run", ExternKind::Global),
        ],
        None,
    );
    assert_eq!(admit_sections(&vec![exports]).unwrap_err().code, RejectionCode::NoEntryPoint);

    // The first refusal met wins: a too-large body before a bad memory.
    let body = SectionFacts::Body(100, 100 + MAX_FUNCTION_BODY_BYTES as u64 + 1);
    let bad_mem = SectionFacts::Memories(
        vec![MemoryInfo { memory64: true, shared: false, maximum: Some(1) }],
        None,
    );
    let r = admit_sections(&vec![body, bad_mem]).unwrap_err();
    assert_eq!(r.code, RejectionCode::FunctionBodyTooLarge);
    assert_eq!(r.message, "a Facet function body is 262145 bytes, exceeding the 262144-byte limit");

    // A reading error after valid entries is malformed.
    let tables = SectionFacts::Tables(
        vec![TableInfo { table64: false, initial: 1, maximum: None }],
        Some("boom".to_string()),
    );
    let r = admit_sections(&vec![tables]).unwrap_err();
    assert_eq!(r.code, RejectionCode::Malformed);
    assert_eq!(r.message, "malformed wasm: boom");

    // Too many function bodies.
    let mut many = Vec::new();
    for _ in 0..=MAX_FUNCTIONS {
        many.push(SectionFacts::Body(0, 10));
    }
    let r = admit_sections(&many).unwrap_err();
    assert_eq!(r.code, RejectionCode::TooManyFunctions);
    assert_eq!(r.message, "Facet defines more than 4096 functions");
}

#[test]
fn slugs_and_entry_points() {
    assert_eq!(RejectionCode::MemoryCapExceeded.as_str(), "memory_cap_exceeded");
    assert_eq!(RejectionCode::UnknownEngine.as_str(), "unknown_engine");
    assert_eq!(AbiKind::Gather.entry_point(), "run");
    assert_eq!(AbiKind::Propagation.entry_point(), "run2d");
    assert_eq!(Profile::default(), Profile::current());
}

#[test]
fn certification_admits_with_the_suite_of_the_abi() {
    let (abi, plans) = admit_for_certify(&wasm(GATHER_WAT)).unwrap();
    assert_eq!(abi, AbiKind::Gather);
    assert_eq!(plans.len(), 8);
    let (abi, plans) = admit_for_certify(&wasm(PROP_WAT)).unwrap();
    assert_eq!(abi, AbiKind::Propagation);
    assert_eq!(plans.len(), 3);
    assert_eq!(admit_for_certify(b"not wasm").unwrap_err().code, RejectionCode::Malformed);
}

#[test]
fn certificate_heads_bind_the_bytes_and_refuse_all_traps() {
    let bytes = wasm(GATHER_WAT);
    let outcomes = vec![ProbeOutcome::Trapped, ProbeOutcome::Tokens { tokens: vec![0x40] }];
    let head = certificate_head(&bytes, AbiKind::Gather, &outcomes).unwrap();
    assert_eq!(head.certify_version, CERTIFY_VERSION);
    assert_eq!(head.wasm_sha256, sha256_hex(&bytes));
    assert_eq!(head.wasm_sha256.len(), 64);
    assert_eq!(head.abi_kind, AbiKind::Gather);
    assert_eq!(head.profile.max_memory_pages, MAX_MEMORY_PAGES);
    let r = certificate_head(&bytes, AbiKind::Gather, &vec![ProbeOutcome::Trapped]).err().unwrap();
    assert_eq!(r.code, RejectionCode::NeverProducesTokens);
    let p = program_certificate_head(&[1, 2, 3], 8, &outcomes).unwrap();
    assert_eq!((p.certify_version, p.stride), (CERTIFY_VERSION, 8));
    assert_eq!(p.program_sha256, sha256_hex(&[1, 2, 3]));
    let r = program_certificate_head(&[1, 2, 3], 8, &vec![]).err().unwrap();
    assert_eq!(r.message, "program produced no tokens on any probe (it trapped on every one)");
}
