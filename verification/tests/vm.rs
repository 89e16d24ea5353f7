use mosaic::vm::op;
use mosaic::vm::{hash_pair, run, validate, Instr, Lane, VmError, MAGIC};

/// The `f32` lane: IEEE single precision, `libm` rounding.
#[derive(Debug, Clone, Copy, PartialEq)]
struct F32(f32);

fn truth(b: bool) -> F32 {
    F32(if b { 1.0 } else { 0.0 })
}

impl Lane for F32 {
    fn from_bits(bits: u32) -> Self {
        F32(f32::from_bits(bits))
    }
    fn from_codepoint(cp: u32) -> Self {
        F32(cp as f32)
    }
    fn is_zero(self) -> bool {
        self.0 == 0.0
    }
    fn to_index(self) -> usize {
        if self.0 <= 0.0 { 0 } else { self.0 as usize }
    }
    fn to_token(self) -> u32 {
        if self.0 <= 0.0 { 0 } else { self.0 as u32 }
    }
    fn unary(opc: u8, a: Self) -> Self {
        match opc {
            op::NEG => F32(-a.0),
            op::NOT => truth(a.0 == 0.0),
            op::ABS => F32(a.0.abs()),
            op::FLOOR => F32(libm::floorf(a.0)),
            _ => F32(libm::truncf(a.0)),
        }
    }
    fn binary(opc: u8, a: Self, b: Self) -> Self {
        let (a, b) = (a.0, b.0);
        match opc {
            op::ADD => F32(a + b),
            op::SUB => F32(a - b),
            op::MUL => F32(a * b),
            op::DIV => F32(a / b),
            op::LT => truth(a < b),
            op::LE => truth(a <= b),
            op::GT => truth(a > b),
            op::GE => truth(a >= b),
            op::EQ => truth(a == b),
            op::AND => truth(a != 0.0 && b != 0.0),
            op::OR => truth(a != 0.0 || b != 0.0),
            op::MIN => F32(a.min(b)),
            op::MAX => F32(a.max(b)),
            _ => F32((hash_pair(a.to_bits(), b.to_bits()) >> 8) as f32 / 16_777_216.0),
        }
    }
    fn clamp(x: Self, lo: Self, hi: Self) -> Self {
        F32(x.0.max(lo.0).min(hi.0))
    }
}

fn lanes(values: &[f32]) -> Vec<F32> {
    values.iter().map(|&v| F32(v)).collect()
}

/// Assembles program bytes for the tests.
struct Asm {
    stride: u16,
    params: Vec<f32>,
    tables: Vec<Vec<u32>>,
    code: Vec<u8>,
}

impl Asm {
    fn new(stride: u16) -> Self {
        Asm { stride, params: vec![], tables: vec![], code: vec![] }
    }
    fn table(&mut self, entries: &[u32]) -> u16 {
        self.tables.push(entries.to_vec());
        (self.tables.len() - 1) as u16
    }
    fn param(&mut self, v: f32) -> u16 {
        self.params.push(v);
        (self.params.len() - 1) as u16
    }
    fn op(&mut self, o: u8) -> &mut Self {
        self.code.push(o);
        self
    }
    fn konst(&mut self, v: f32) -> &mut Self {
        self.code.push(op::CONST);
        self.code.extend_from_slice(&v.to_bits().to_le_bytes());
        self
    }
    fn loadf(&mut self, slot: u16) -> &mut Self {
        self.code.push(op::LOADF);
        self.code.extend_from_slice(&slot.to_le_bytes());
        self
    }
    fn loadp(&mut self, idx: u16) -> &mut Self {
        self.code.push(op::LOADP);
        self.code.extend_from_slice(&idx.to_le_bytes());
        self
    }
    fn table_op(&mut self, id: u16) -> &mut Self {
        self.code.push(op::TABLE);
        self.code.extend_from_slice(&id.to_le_bytes());
        self
    }
    fn finish(&mut self) -> Vec<u8> {
        self.code.push(op::END);
        let mut b = vec![];
        b.extend_from_slice(&MAGIC.to_le_bytes());
        b.extend_from_slice(&self.stride.to_le_bytes());
        b.extend_from_slice(&(self.params.len() as u16).to_le_bytes());
        b.extend_from_slice(&(self.tables.len() as u16).to_le_bytes());
        for p in &self.params {
            b.extend_from_slice(&p.to_bits().to_le_bytes());
        }
        for t in &self.tables {
            b.extend_from_slice(&(t.len() as u16).to_le_bytes());
            for &c in t {
                b.extend_from_slice(&c.to_le_bytes());
            }
        }
        b.extend_from_slice(&(self.code.len() as u32).to_le_bytes());
        b.extend_from_slice(&self.code);
        b
    }
}

const RAMP: &[u32] = &[0x20, 0x2E, 0x3A, 0x2D, 0x3D, 0x2B, 0x2A, 0x23, 0x25, 0x40];

fn density_program(stride: u16) -> Vec<u8> {
    let mut a = Asm::new(stride);
    let ramp = a.table(RAMP);
    a.loadf(0)
        .konst(0.0)
        .konst(1.0)
        .op(op::CLAMP)
        .konst((RAMP.len() - 1) as f32)
        .op(op::MUL)
        .konst(0.5)
        .op(op::ADD)
        .op(op::FLOOR)
        .table_op(ramp);
    a.finish()
}

#[test]
fn rejects_bad_magic_and_truncation() {
    assert_eq!(validate(&[0, 0, 0, 0]).unwrap_err(), VmError::BadMagic);
    let mut bytes = density_program(1);
    bytes.truncate(bytes.len() - 3);
    assert!(matches!(
        validate(&bytes),
        Err(VmError::Truncated | VmError::BadFinalStack | VmError::BadOpcode)
    ));
}

#[test]
fn rejects_out_of_range_feature_slot() {
    let mut a = Asm::new(3);
    a.loadf(5);
    let bytes = a.finish();
    assert_eq!(validate(&bytes).unwrap_err(), VmError::BadFeatureSlot);
}

#[test]
fn rejects_stack_underflow_and_bad_final_stack() {
    let mut a = Asm::new(1);
    a.op(op::ADD);
    assert_eq!(validate(&a.finish()).unwrap_err(), VmError::StackUnderflow);
    let mut a = Asm::new(1);
    a.konst(1.0).konst(2.0);
    assert_eq!(validate(&a.finish()).unwrap_err(), VmError::BadFinalStack);
}

#[test]
fn rejects_bad_codepoint_in_table() {
    let mut a = Asm::new(1);
    let _ = a.table(&[0x11_0000]);
    a.loadf(0).table_op(0);
    assert_eq!(validate(&a.finish()).unwrap_err(), VmError::BadCodepoint);
}

#[test]
fn validated_program_exposes_its_sections() {
    let mut a = Asm::new(2);
    let t = a.table(&[b'a' as u32, b'b' as u32, b'c' as u32]);
    let p = a.param(3.0);
    a.loadf(1).loadp(p).op(op::MUL).op(op::FLOOR).table_op(t);
    let bytes = a.finish();
    let program = validate(&bytes).unwrap();
    assert_eq!(program.stride(), 2);
    assert_eq!(program.n_params(), 1);
    assert_eq!(program.n_tables(), 1);
    assert_eq!(program.param_bits(0), Ok(3.0f32.to_bits()));
    assert_eq!(program.param_bits(1), Err(VmError::BadParamIndex));
    assert_eq!(program.table_entry(0, 1), Ok(b'b' as u32));
    // Out-of-range indices clamp to the last entry.
    assert_eq!(program.table_entry(0, 99), Ok(b'c' as u32));
    assert_eq!(program.table_entry(1, 0), Err(VmError::BadTableIndex));
    // Decode the whole code section.
    let mut pc = 0;
    let mut seen = vec![];
    loop {
        let (ins, next) = program.fetch(pc).unwrap();
        seen.push(ins);
        if ins == Instr::End {
            break;
        }
        pc = next;
    }
    assert_eq!(
        seen,
        vec![
            Instr::LoadF(1),
            Instr::LoadP(0),
            Instr::Op(op::MUL),
            Instr::Op(op::FLOOR),
            Instr::Table(0),
            Instr::End
        ]
    );
    assert_eq!(program.code_len(), pc + 1);
}

#[test]
fn run_shape_is_checked() {
    let bytes = density_program(3);
    let program = validate(&bytes).unwrap();
    assert_eq!(program.check_run_shape(3, 1, 1, 1), Err(VmError::StrideMismatch));
    assert_eq!(program.check_run_shape(2, 1, 3, 1), Err(VmError::StrideMismatch));
    assert_eq!(program.check_run_shape(6, 2, 3, 1), Err(VmError::ShortOutput));
    assert_eq!(program.check_run_shape(6, 2, 3, 2), Ok(()));
}

#[test]
fn rejects_oversized_declarations() {
    let mut b = vec![];
    b.extend_from_slice(&MAGIC.to_le_bytes());
    b.extend_from_slice(&1u16.to_le_bytes());
    b.extend_from_slice(&65u16.to_le_bytes()); // > MAX_PARAMS
    b.extend_from_slice(&0u16.to_le_bytes());
    assert_eq!(validate(&b).unwrap_err(), VmError::TooLarge);
    let mut a = Asm::new(1);
    a.loadf(0).op(0xEE);
    assert_eq!(validate(&a.finish()).unwrap_err(), VmError::BadOpcode);
}

#[test]
fn run_rejects_stride_and_length_mismatch() {
    let bytes = density_program(3);
    let program = validate(&bytes).unwrap();
    let mut out = [0u32; 1];
    // Wrong stride.
    assert_eq!(run(&program, &lanes(&[0.0, 0.0, 0.0]), 1, 1, &mut out).unwrap_err(), VmError::StrideMismatch);
    // features length != ncells*stride.
    assert_eq!(run(&program, &lanes(&[0.0, 0.0]), 1, 3, &mut out).unwrap_err(), VmError::StrideMismatch);
}

fn native_density(luma: f32) -> u32 {
    let l = luma.clamp(0.0, 1.0);
    let idx = (l * (RAMP.len() as f32 - 1.0) + 0.5) as usize;
    RAMP[idx.min(RAMP.len() - 1)]
}

#[test]
fn density_program_matches_native_ramp() {
    let bytes = density_program(3);
    let program = validate(&bytes).unwrap();
    let mut features = vec![];
    let n = 256;
    for i in 0..n {
        features.push(i as f32 / (n - 1) as f32);
        features.push(0.0);
        features.push(0.0);
    }
    let mut out = vec![0u32; n];
    run(&program, &lanes(&features), n, 3, &mut out).unwrap();
    for (i, &tok) in out.iter().enumerate() {
        let luma = i as f32 / (n - 1) as f32;
        assert_eq!(tok, native_density(luma), "luma {luma}");
    }
}

#[test]
fn select_picks_branch_on_condition() {
    let mut a = Asm::new(1);
    a.loadf(0).konst(0.5).op(op::GT).konst(0x40 as f32).konst(0x2E as f32).op(op::SELECT);
    let bytes = a.finish();
    let program = validate(&bytes).unwrap();
    let features = [0.9f32, 0.1];
    let mut out = [0u32; 2];
    run(&program, &lanes(&features), 2, 1, &mut out).unwrap();
    assert_eq!(out, [0x40, 0x2E]);
}

#[test]
fn param_is_loaded_and_used() {
    let mut a = Asm::new(1);
    let t = a.table(&[b'a' as u32, b'b' as u32, b'c' as u32, b'd' as u32]);
    let p = a.param(3.0);
    a.loadf(0).loadp(p).op(op::MUL).op(op::FLOOR).table_op(t);
    let bytes = a.finish();
    let program = validate(&bytes).unwrap();
    let features = [0.0f32, 0.34, 0.67, 1.0];
    let mut out = [0u32; 4];
    run(&program, &lanes(&features), 4, 1, &mut out).unwrap();
    assert_eq!(out, [b'a' as u32, b'b' as u32, b'c' as u32, b'd' as u32]);
}

#[test]
fn determinism_reruns_identical() {
    let bytes = density_program(1);
    let program = validate(&bytes).unwrap();
    let features: Vec<f32> = (0..64).map(|i| (i as f32 * 0.017).fract()).collect();
    let mut a = vec![0u32; 64];
    let mut b = vec![0u32; 64];
    run(&program, &lanes(&features), 64, 1, &mut a).unwrap();
    run(&program, &lanes(&features), 64, 1, &mut b).unwrap();
    assert_eq!(a, b);
}

#[test]
fn run_leaves_the_output_past_ncells_alone() {
    let bytes = density_program(1);
    let program = validate(&bytes).unwrap();
    let mut out = [7u32; 3];
    run(&program, &lanes(&[1.0]), 1, 1, &mut out).unwrap();
    assert_eq!(out, [0x40, 7, 7]);
    assert_eq!(run(&program, &lanes(&[1.0]), 1, 1, &mut [0u32; 0]).unwrap_err(), VmError::ShortOutput);
    assert!(run(&program, &lanes(&[]), 0, 1, &mut []).is_ok());
}

#[test]
fn stack_operators_and_hash_evaluate() {
    // dup, pop and the hash: floor(hash(f0, f0) * 0) + (f0 dup add) = 2 * f0.
    let mut a = Asm::new(1);
    a.loadf(0).op(op::DUP).op(op::HASH).konst(0.0).op(op::MUL).loadf(0).op(op::DUP).op(op::ADD).op(op::ADD);
    a.konst(9.0).op(op::POP);
    let bytes = a.finish();
    let program = validate(&bytes).unwrap();
    let mut out = [0u32; 2];
    run(&program, &lanes(&[21.0, 4.0]), 2, 1, &mut out).unwrap();
    assert_eq!(out, [42, 8]);
}

#[test]
fn pair_hash_known_values() {
    assert_eq!(hash_pair(0, 0), 0);
    assert_eq!(hash_pair(1, 0), 0x6d52_3710);
    assert_eq!(hash_pair(0, 1), 0x6889_90c0);
    assert_eq!(hash_pair(0x3f80_0000, 0x3f00_0000), 0xaa69_4885);
}

#[test]
fn a_refused_run_leaves_the_output_alone() {
    let bytes = density_program(3);
    let program = validate(&bytes).unwrap();
    let mut out = [5u32; 2];
    assert_eq!(run(&program, &lanes(&[0.0; 6]), 2, 1, &mut out).unwrap_err(), VmError::StrideMismatch);
    assert_eq!(out, [5, 5]);
    let mut short = [5u32; 1];
    assert_eq!(run(&program, &lanes(&[0.0; 6]), 2, 3, &mut short).unwrap_err(), VmError::ShortOutput);
    assert_eq!(short, [5]);
}
