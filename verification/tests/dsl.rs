use mosaic::dsl::ast::int_to_bits;
use mosaic::dsl::{compile_tokens, lex, CompileError, Schema, Tok};
use mosaic::vm::{hash_pair, op, run, validate, Lane, MAX_TABLE_LEN};

/// The `f32` lane: IEEE single precision, `libm` rounding.
#[derive(Debug, Clone, Copy, PartialEq)]
struct F32(f32);

fn truth(b: bool) -> F32 {
    F32(if b { 1.0 } else { 0.0 })
}

impl Lane for F32 {
    fn from_bits(bits: u32) -> Self {
        F32(f32::from_bits(bits))
    }
    fn from_codepoint(cp: u32) -> Self {
        F32(cp as f32)
    }
    fn is_zero(self) -> bool {
        self.0 == 0.0
    }
    fn to_index(self) -> usize {
        if self.0 <= 0.0 { 0 } else { self.0 as usize }
    }
    fn to_token(self) -> u32 {
        if self.0 <= 0.0 { 0 } else { self.0 as u32 }
    }
    fn unary(opc: u8, a: Self) -> Self {
        match opc {
            op::NEG => F32(-a.0),
            op::NOT => truth(a.0 == 0.0),
            op::ABS => F32(a.0.abs()),
            op::FLOOR => F32(libm::floorf(a.0)),
            _ => F32(libm::truncf(a.0)),
        }
    }
    fn binary(opc: u8, a: Self, b: Self) -> Self {
        let (a, b) = (a.0, b.0);
        match opc {
            op::ADD => F32(a + b),
            op::SUB => F32(a - b),
            op::MUL => F32(a * b),
            op::DIV => F32(a / b),
            op::LT => truth(a < b),
            op::LE => truth(a <= b),
            op::GT => truth(a > b),
            op::GE => truth(a >= b),
            op::EQ => truth(a == b),
            op::AND => truth(a != 0.0 && b != 0.0),
            op::OR => truth(a != 0.0 || b != 0.0),
            op::MIN => F32(a.min(b)),
            op::MAX => F32(a.max(b)),
            _ => F32((hash_pair(a.to_bits(), b.to_bits()) >> 8) as f32 / 16_777_216.0),
        }
    }
    fn clamp(x: Self, lo: Self, hi: Self) -> Self {
        F32(x.0.max(lo.0).min(hi.0))
    }
}

/// Run a compiled program over whole cells of `features`, one token each.
fn run1(bytes: &[u8], features: &[f32], stride: usize) -> Vec<u32> {
    let prog = validate(bytes).unwrap();
    let n = features.len() / stride;
    let lanes: Vec<F32> = features.iter().map(|&v| F32(v)).collect();
    let mut out = vec![0u32; n];
    run(&prog, &lanes, n, stride, &mut out).unwrap();
    out
}

const POS_FEATURES: &[(&str, u16)] = &[("luma", 0), ("grad_mag", 1), ("grad_dir", 2), ("u", 3), ("v", 4)];

const RAMP: &str = " .:-=+*#%@";
const ASCII_FEATURES: &[(&str, u16)] = &[("luma", 0), ("grad_mag", 1), ("grad_dir", 2)];

/// Lex, read each number token's value as an `f32`, and compile.
fn compile_with(src: &str, stride: u16, features: &[(&str, u16)], params: &[(&str, f32)]) -> Result<Vec<u8>, CompileError> {
    let toks = lex(src)?;
    let values: Vec<u32> = toks
        .iter()
        .map(|(t, _)| match t {
            Tok::Num(text) => text.iter().collect::<String>().parse::<f32>().unwrap().to_bits(),
            _ => 0,
        })
        .collect();
    let bits: Vec<(&str, u32)> = params.iter().map(|(n, v)| (*n, v.to_bits())).collect();
    compile_tokens(&toks, &values, &Schema { stride, features, params: &bits })
}

fn compile(src: &str) -> Result<Vec<u8>, CompileError> {
    compile_with(src, 3, ASCII_FEATURES, &[("threshold", 0.6)])
}

/// The code section of a compiled program (no params after the first, see callers).
fn code_of(b: &[u8]) -> Vec<u8> {
    let p = validate(b).unwrap();
    let n = p.code_len();
    b[b.len() - n..].to_vec()
}

#[test]
fn existing_programs_still_compile() {
    let b = compile(&format!("ramp(luma, \"{RAMP}\")")).unwrap();
    assert!(validate(&b).is_ok());
}

#[test]
fn pathological_let_expansion_is_a_clean_error() {
    let mut src = String::from("let a0 = luma;\n");
    for i in 1..=30 {
        src.push_str(&format!("let a{i} = a{prev} + a{prev};\n", prev = i - 1));
    }
    src.push_str("a30");
    assert!(compile(&src).is_err(), "a 2^30-byte expansion must be rejected");
}

#[test]
fn deeply_nested_source_is_a_clean_error_not_a_stack_overflow() {
    let deep = format!("{}1{}", "(".repeat(1000), ")".repeat(1000));
    let e = compile(&deep).unwrap_err();
    assert!(e.message.contains("nests too deeply"), "got: {}", e.message);
    let unary = format!("{}1", "-".repeat(1000));
    assert!(compile(&unary).is_err());
}

#[test]
fn non_ascii_error_names_the_real_character() {
    let e = compile("luma × 2").unwrap_err();
    assert!(e.message.contains('×'), "got: {}", e.message);
}

#[test]
fn oversized_glyph_set_is_a_clean_error_not_a_truncation() {
    let big = "x".repeat(MAX_TABLE_LEN + 1);
    let e = compile(&format!("ramp(luma, \"{big}\")")).unwrap_err();
    assert!(e.message.contains("glyph set"), "expected a glyph-set-too-large error, got: {}", e.message);
}

#[test]
fn compile_errors_are_positioned() {
    assert!(compile("ramp(nope, \"x\")").is_err());
    assert!(compile("luma +").is_err());
    assert!(compile("bogus(luma)").is_err());
    assert!(compile("luma luma").is_err());
    let e = compile("grad_mag > ").unwrap_err();
    assert!(e.pos > 0);
}

#[test]
fn let_binding_emits_the_same_code_as_writing_it_inline() {
    let a = compile("let d = luma + luma; d + d").unwrap();
    let inline = compile("(luma + luma) + (luma + luma)").unwrap();
    assert_eq!(a, inline);
}

#[test]
fn exact_error_messages_and_offsets() {
    let e = compile("luma luma").unwrap_err();
    assert_eq!((e.pos, e.message.as_str()), (5, "unexpected trailing input"));
    let e = compile("bogus(luma)").unwrap_err();
    assert_eq!((e.pos, e.message.as_str()), (0, "unknown function `bogus`"));
    let e = compile("ramp(nope, \"x\")").unwrap_err();
    assert_eq!((e.pos, e.message.as_str()), (5, "unknown feature or param `nope`"));
    let e = compile("luma +").unwrap_err();
    assert_eq!((e.pos, e.message.as_str()), (6, "unexpected token in expression: Eof"));
    let e = compile("\"ab\"").unwrap_err();
    assert_eq!(e.message, "unexpected token in expression: Str(\"ab\")");
    let e = compile("ramp(luma, \"\")").unwrap_err();
    assert_eq!((e.pos, e.message.as_str()), (11, "ramp glyph set is empty"));
    let e = compile("glyph(luma, 3)").unwrap_err();
    assert_eq!((e.pos, e.message.as_str()), (12, "expected a string literal (glyph set)"));
    let e = compile("let let = 1; 2").unwrap_err();
    assert_eq!((e.pos, e.message.as_str()), (4, "`let` is a reserved word"));
    let e = compile("luma ? 1").unwrap_err();
    assert_eq!((e.pos, e.message.as_str()), (8, "expected `:` in ternary"));
    let e = compile("min(1 2)").unwrap_err();
    assert_eq!((e.pos, e.message.as_str()), (6, "expected `,`"));
    let e = compile("abs(1, 2)").unwrap_err();
    assert_eq!((e.pos, e.message.as_str()), (5, "expected `)` to close the call"));
    assert_eq!(e.to_display_string(), "at byte 5: expected `)` to close the call");
}

#[test]
fn limits_are_reported_with_their_numbers() {
    let names: Vec<String> = (0..65).map(|i| format!("p{i}")).collect();
    let params: Vec<(&str, f32)> = names.iter().map(|n| (n.as_str(), 1.0)).collect();
    let e = compile_with("1", 1, &[], &params).unwrap_err();
    assert_eq!(e.message, "schema declares 65 parameters, exceeding the maximum of 64");
    let sets = vec!["glyph(luma, \"a\")"; 17].join(" + ");
    let e = compile(&sets).unwrap_err();
    assert_eq!(e.message, "program uses 17 glyph sets, exceeding the maximum of 16");
    let big = "x".repeat(513);
    let e = compile(&format!("ramp(luma, \"{big}\")")).unwrap_err();
    assert_eq!(e.message, "a glyph set has 513 characters, exceeding the maximum of 512");
}

#[test]
fn stack_overflow_is_caught_by_the_self_check() {
    let src = format!("{}1{}", "(1 + ".repeat(70), ")".repeat(70));
    let e = compile(&src).unwrap_err();
    assert_eq!((e.pos, e.message.as_str()), (0, "internal compiler error: emitted invalid bytecode (StackOverflow)"));
}

#[test]
fn emitted_code_is_the_postfix_form() {
    // x * 2 + 1 with x in slot 0: LOADF 0, CONST 2.0, MUL, CONST 1.0, ADD, END
    let b = compile_with("x * 2 + 1", 1, &[("x", 0)], &[]).unwrap();
    let mut want = vec![0x02, 0, 0, 0x01];
    want.extend_from_slice(&2.0f32.to_bits().to_le_bytes());
    want.push(0x12);
    want.push(0x01);
    want.extend_from_slice(&1.0f32.to_bits().to_le_bytes());
    want.push(0x10);
    want.push(0x00);
    assert_eq!(code_of(&b), want);
    // != compiles to EQ then NOT; a char literal is its codepoint.
    let b = compile_with("x != '#'", 1, &[("x", 0)], &[]).unwrap();
    let mut want = vec![0x02, 0, 0, 0x01];
    want.extend_from_slice(&35.0f32.to_bits().to_le_bytes());
    want.extend_from_slice(&[0x24, 0x25, 0x00]);
    assert_eq!(code_of(&b), want);
}

#[test]
fn ramp_scales_by_the_set_length() {
    let b = compile(&format!("ramp(luma, \"{RAMP}\")")).unwrap();
    let code = code_of(&b);
    // The constant after CLAMP is len - 1 = 9.0.
    let k = &code[1 + 2 + 5 + 5 + 1 + 1..][..4];
    assert_eq!(k, &9.0f32.to_bits().to_le_bytes());
}

#[test]
fn integer_constants_encode_exactly() {
    for n in [0u32, 1, 2, 3, 9, 35, 127, 1000, 0x10FFFF, 0xFF_FFFF] {
        assert_eq!(int_to_bits(n), (n as f32).to_bits(), "n = {n}");
    }
}

#[test]
fn lexer_positions_are_byte_offsets() {
    let toks = lex("× 1").err();
    assert!(toks.is_some());
    let toks = lex("a  <= 'é' \"x\"").unwrap();
    let offs: Vec<usize> = toks.iter().map(|(_, p)| *p).collect();
    assert_eq!(offs, vec![0, 3, 6, 11, 14]);
    assert!(matches!(toks[2].0, Tok::Char('é')));
    assert!(matches!(toks[4].0, Tok::Eof));
    let e = lex("1.2.3").unwrap_err();
    assert_eq!(e.message, "invalid number `1.2.3`");
}

#[test]
fn mix_remap_smoothstep_lower_correctly() {
    let b = compile("mix(60.0, 80.0, 0.5)").unwrap();
    assert_eq!(run1(&b, &[0.0, 0.0, 0.0], 3), vec![70]);

    let b = compile("remap(luma, 0.0, 1.0, 0.0, 100.0)").unwrap();
    let feats = [0.5, 0.0, 0.0, 2.0, 0.0, 0.0, -1.0, 0.0, 0.0];
    assert_eq!(run1(&b, &feats, 3), vec![50, 100, 0]);

    let b = compile("smoothstep(0.0, 1.0, luma) * 100.0").unwrap();
    let feats = [0.0, 0.0, 0.0, 0.5, 0.0, 0.0, 1.0, 0.0, 0.0];
    assert_eq!(run1(&b, &feats, 3), vec![0, 50, 100]);
}

#[test]
fn let_binds_and_scopes() {
    let a = compile("let d = luma + luma; d + d").unwrap();
    let inline = compile("(luma + luma) + (luma + luma)").unwrap();
    let feats = [10.0, 0.0, 0.0];
    assert_eq!(run1(&a, &feats, 3), run1(&inline, &feats, 3));
    assert_eq!(run1(&a, &feats, 3), vec![40]);

    let c = compile("let a = 5.0; let b = a + 1.0; b + a").unwrap();
    assert_eq!(run1(&c, &[0.0, 0.0, 0.0], 3), vec![11]);

    let d = compile("let luma = 3.0; luma").unwrap();
    assert_eq!(run1(&d, &[0.9, 0.0, 0.0], 3), vec![3]);
}

#[test]
fn let_reads_cleanly_in_a_facet() {
    let src = r#"let edge = grad_mag; edge > threshold ? glyph(clamp(grad_dir + 2.0, 0, 3), "-/|\\") : ramp(luma, " .:-=+*#%@")"#;
    let b = compile(src).unwrap();
    let feats = [0.5, 0.9, 0.0, 0.5, 0.1, 0.0];
    let out = run1(&b, &feats, 3);
    assert_ne!(out[0], out[1], "the two branches must produce different glyphs");
}

#[test]
fn position_features_resolve_and_run() {
    let b = compile_with("floor(u * 100.0) + floor(v * 10.0)", 5, POS_FEATURES, &[]).unwrap();
    let feats = [0.0, 0.0, 0.0, 0.25, 0.75];
    assert_eq!(run1(&b, &feats, 5), vec![32]);
}

#[test]
fn noise_is_spatial_deterministic_texture() {
    let b = compile_with("floor(noise(u, v) * 1000.0)", 5, POS_FEATURES, &[]).unwrap();
    let mut feats = Vec::new();
    for row in 0..8u32 {
        for col in 0..8u32 {
            let u = (col as f32 + 0.5) / 8.0;
            let v = (row as f32 + 0.5) / 8.0;
            feats.extend_from_slice(&[0.0, 0.0, 0.0, u, v]);
        }
    }
    let out = run1(&b, &feats, 5);
    assert!(out.iter().all(|&t| t <= 999));
    let distinct: std::collections::BTreeSet<u32> = out.iter().copied().collect();
    assert!(distinct.len() > 20, "noise texture is degenerate: {} distinct", distinct.len());
    assert_eq!(out, run1(&b, &feats, 5), "noise must be deterministic");
    let (u, v) = (2.5 / 8.0, 1.5 / 8.0);
    let single = run1(&b, &[0.0, 0.0, 0.0, u, v], 5);
    assert_eq!(single[0], out[10]);
}

fn native_density(luma: f32) -> u32 {
    let l = luma.clamp(0.0, 1.0);
    let n = RAMP.chars().count();
    let idx = (l * (n as f32 - 1.0) + 0.5) as usize;
    RAMP.chars().nth(idx.min(n - 1)).unwrap() as u32
}

#[test]
fn compiles_ramp_matching_native_density() {
    let bytes = compile(r#"ramp(luma, " .:-=+*#%@")"#).unwrap();
    let n = 128;
    let mut features = Vec::new();
    for i in 0..n {
        features.push(i as f32 / (n - 1) as f32);
        features.push(0.0);
        features.push(0.0);
    }
    let out = run1(&bytes, &features, 3);
    for (i, &tok) in out.iter().enumerate() {
        assert_eq!(tok, native_density(i as f32 / (n - 1) as f32));
    }
}

#[test]
fn ternary_and_params_and_features() {
    let bytes = compile(r#"grad_mag > threshold ? '#' : ramp(luma, " .:-=+*#%@")"#).unwrap();
    let features = [0.5f32, 0.9, 0.0, 0.5, 0.1, 0.0];
    let out = run1(&bytes, &features, 3);
    assert_eq!(out[0], b'#' as u32);
    assert_eq!(out[1], native_density(0.5));
}

#[test]
fn glyph_indexed_lookup_and_arithmetic() {
    let bytes = compile(r#"glyph(luma * 3, "abcd")"#).unwrap();
    let features = [0.0f32, 0.0, 0.0, 0.4, 0.0, 0.0, 0.7, 0.0, 0.0, 1.0, 0.0, 0.0];
    let out = run1(&bytes, &features, 3);
    assert_eq!(out, vec![b'a' as u32, b'b' as u32, b'c' as u32, b'd' as u32]);
}

#[test]
fn operator_precedence_and_grouping() {
    let x: &[(&str, u16)] = &[("x", 0)];
    let bytes = compile_with("x * 2 + 1", 1, x, &[]).unwrap();
    assert_eq!(run1(&bytes, &[3.0], 1)[0], 7);
    let bytes = compile_with("x * (2 + 1)", 1, x, &[]).unwrap();
    assert_eq!(run1(&bytes, &[3.0], 1)[0], 9);
}
