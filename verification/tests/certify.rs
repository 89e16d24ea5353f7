use mosaic::certify::{
    conclude_probes, gather_probe_plan, probe_draws, program_probe_plan, propagation_probe_plan, rejection_from_vm,
    ProbeOutcome, XorShift64, CERTIFY_VERSION, PROBE_SEED,
};
use mosaic::digest::{sha256_hex, to_hex};
use mosaic::profile::RejectionCode;
use mosaic::dsl::{compile_tokens, lex, Schema};
use mosaic::vm::{validate, VmError};

#[test]
fn sha256_hex_is_lowercase_hex_of_the_digest() {
    assert_eq!(
        sha256_hex(b"abc"),
        "ba7816bf8f01cfea414140de5dae2223b00361a396177a9cb410ff61f20015ad"
    );
    assert_eq!(sha256_hex(b"").len(), 64);
    assert_ne!(sha256_hex(b"a"), sha256_hex(b"b"));
    assert_eq!(to_hex(&[0x00, 0x0f, 0xa5, 0xff]), "000fa5ff");
}

#[test]
fn probe_suites_are_fixed() {
    assert_eq!(CERTIFY_VERSION, 1);
    let g = gather_probe_plan();
    assert_eq!(g.len(), 8);
    assert_eq!(g[0].name, "gather_stride1");
    assert_eq!(g[7].name, "gather_stride8");
    assert_eq!(g[2].seed, PROBE_SEED ^ (0x9E37_79B9 * 3));
    assert!(g.iter().all(|p| p.cols == 24 && p.rows == 1));
    let p = propagation_probe_plan();
    let names: Vec<&str> = p.iter().map(|x| x.name.as_str()).collect();
    assert_eq!(names, ["grid_8x8_stride1", "grid_6x4_stride1", "grid_5x3_stride2"]);
    assert_eq!(p[1].seed, PROBE_SEED ^ (0xABCD_1234 * 2));
    let q = program_probe_plan(8);
    let names: Vec<&str> = q.iter().map(|x| x.name.as_str()).collect();
    assert_eq!(
        names,
        ["program_24cells_stride8", "program_32cells_stride8", "program_16cells_stride8", "program_8cells_stride8"]
    );
    assert_eq!(q[3].seed, PROBE_SEED ^ 0x51ED_2A17u64.wrapping_mul(4));
}

#[test]
fn generator_is_xorshift64() {
    let mut g = XorShift64(PROBE_SEED | 1);
    let mut x = PROBE_SEED | 1;
    for _ in 0..10 {
        x ^= x << 13;
        x ^= x >> 7;
        x ^= x << 17;
        assert_eq!(g.next_u24() as u64, x >> 40);
        assert_eq!(g.0, x);
    }
}

#[test]
fn a_facet_that_only_traps_is_refused() {
    let all_trapped = vec![ProbeOutcome::Trapped, ProbeOutcome::Trapped];
    let r = conclude_probes(&all_trapped, false).unwrap_err();
    assert_eq!(r.code, RejectionCode::NeverProducesTokens);
    assert_eq!(r.message, "Facet produced no tokens on any probe (it trapped on every one)");
    let r = conclude_probes(&vec![], true).unwrap_err();
    assert_eq!(r.message, "program produced no tokens on any probe (it trapped on every one)");
    let some = vec![ProbeOutcome::Trapped, ProbeOutcome::Tokens { tokens: vec![64] }];
    assert!(conclude_probes(&some, false).is_ok());
}

#[test]
fn vm_errors_map_to_stable_rejections() {
    let r = rejection_from_vm(VmError::BadMagic);
    assert_eq!(r.code, RejectionCode::BadMagic);
    assert_eq!(r.message, "not a mosaic-vm bytecode program (bad magic)");
    assert_eq!(rejection_from_vm(VmError::Truncated).code, RejectionCode::Truncated);
    assert_eq!(rejection_from_vm(VmError::StrideMismatch).code, RejectionCode::Malformed);
    assert_eq!(rejection_from_vm(VmError::StackOverflow).message, "the program overflows the value stack");
}

#[test]
fn rejects_bad_magic() {
    // A program's certification starts with validation; garbage is refused there.
    let r = rejection_from_vm(validate(&[0, 0, 0, 0]).unwrap_err());
    assert_eq!(r.code, RejectionCode::BadMagic);
}

#[test]
fn rejects_truncated_program() {
    let toks = lex(r#"ramp(luma, " .:-=+*#%@")"#).unwrap();
    let values = vec![0u32; toks.len()];
    let features: &[(&str, u16)] = &[
        ("luma", 0),
        ("grad_mag", 1),
        ("grad_dir", 2),
        ("u", 3),
        ("v", 4),
        ("r", 5),
        ("g", 6),
        ("b", 7),
    ];
    let params: &[(&str, u32)] = &[("threshold", 0.6f32.to_bits())];
    let mut program = compile_tokens(&toks, &values, &Schema { stride: 8, features, params }).unwrap();
    program.truncate(program.len() - 3); // chop into the code section
    let r = rejection_from_vm(validate(&program).unwrap_err());
    assert!(
        matches!(r.code, RejectionCode::Truncated | RejectionCode::BadFinalStack | RejectionCode::BadOpcode),
        "unexpected code {:?}",
        r.code
    );
}

#[test]
fn probe_draws_come_from_the_seeded_generator() {
    let seed = 0x1234_5678_9ABC_DEF0u64;
    let draws = probe_draws(seed, 5);
    let mut g = XorShift64(seed | 1);
    let expected: Vec<u32> = (0..5).map(|_| g.next_u24()).collect();
    assert_eq!(draws, expected);
    // An even seed is made odd, so the generator never starts at zero.
    assert_eq!(probe_draws(2, 3), probe_draws(3, 3));
    assert!(probe_draws(0, 4).iter().any(|&d| d != 0));
    assert!(probe_draws(seed, 0).is_empty());
}
