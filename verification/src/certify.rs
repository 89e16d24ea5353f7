//! The certificate's deterministic parts: the probe suites (which grids, at which strides,
//! from which seeds), the probe generator's integer state, the outcome of one probe, the
//! verdict once every probe has run, and the mapping from a bytecode validation error to a
//! stable rejection.

use vstd::prelude::*;

use crate::digest::{hex_lower, sha256_hex, sha256_of};
use crate::profile::{
    check_profile, check_profile_spec, verdict_matches, AbiKind, Profile, Rejection, RejectionCode, MAX_FUNCTIONS, MAX_FUNCTION_BODY_BYTES, MAX_MEMORY_PAGES,
    MAX_MODULE_BYTES, MAX_TABLE_ELEMENTS,
};
use crate::text::{decimal, push_decimal};
use crate::vm::VmError;

verus! {

/// Schema version of the certificate. Bumped on any change to the probe suite or the
/// certificate shape, so a stale certificate is never mistaken for a current one.
pub const CERTIFY_VERSION: u32 = 1;

/// Base seed of the deterministic probe generator: no randomness and no clock, so the
/// golden is stable across machines and runs.
pub const PROBE_SEED: u64 = 0x0DDB_1A5E_5BAD_5EED;

/// The observable result of running one probe through the authoritative host.
#[derive(Debug, Clone, PartialEq, Eq)]
pub enum ProbeOutcome {
    /// The Facet produced exactly these tokens (one per cell).
    Tokens { tokens: Vec<u32> },
    /// The Facet trapped or errored on this probe.
    Trapped,
}

/// Whether any probe produced tokens.
pub open spec fn any_tokens(outcomes: Seq<ProbeOutcome>) -> bool {
    exists|i: int| 0 <= i < outcomes.len() && (#[trigger] outcomes[i]) is Tokens
}

/// What a certification concludes from its probe outcomes: a Facet that produced no tokens
/// on any probe is refused (`program` says whether it is a DSL program).
pub fn conclude_probes(outcomes: &Vec<ProbeOutcome>, program: bool) -> (r: Result<(), Rejection>)
    ensures
        any_tokens(outcomes@) ==> r is Ok,
        !any_tokens(outcomes@) ==> (r matches Err(rej) && rej.code == RejectionCode::NeverProducesTokens
            && rej.message@ == (if program { "program"@ } else { "Facet"@ })
            + " produced no tokens on any probe (it trapped on every one)"@),
{
    let mut i: usize = 0;
    while i < outcomes.len()
        invariant
            i <= outcomes@.len(),
            forall|k: int| 0 <= k < i ==> !((#[trigger] outcomes@[k]) is Tokens),
        decreases outcomes@.len() - i,
    {
        match &outcomes[i] {
            ProbeOutcome::Tokens { .. } => return Ok(()),
            ProbeOutcome::Trapped => {},
        }
        i += 1;
    }
    let mut m = String::new();
    m.append(if program { "program" } else { "Facet" });
    m.append(" produced no tokens on any probe (it trapped on every one)");
    Err(Rejection::new(RejectionCode::NeverProducesTokens, m))
}

/// One step of the xorshift64 generator.
pub open spec fn xorshift_step(x: u64) -> u64 {
    let a = x ^ (x << 13u64);
    let b = a ^ (a >> 7u64);
    b ^ (b << 17u64)
}

/// The generator's state after `n` steps from `seed`.
pub open spec fn xorshift_state(seed: u64, n: nat) -> u64
    decreases n,
{
    if n == 0 {
        seed
    } else {
        xorshift_step(xorshift_state(seed, (n - 1) as nat))
    }
}

/// The probe generator's state: a tiny deterministic xorshift64. Not for cryptographic
/// use — its only job is a stable, well-spread feature spread.
pub struct XorShift64(pub u64);

impl XorShift64 {
    /// Advance the generator and return the top 24 bits of its new state — the numerator
    /// of the next value in `[0, 1)` (over `2^24`).
    pub fn next_u24(&mut self) -> (v: u32)
        ensures
            final(self).0 == xorshift_step(old(self).0),
            v as int == xorshift_step(old(self).0) >> 40u64,
            v < 0x100_0000,
    {
        let mut x = self.0;
        x = x ^ (x << 13u64);
        x = x ^ (x >> 7u64);
        x = x ^ (x << 17u64);
        self.0 = x;
        assert(x >> 40u64 < 0x100_0000) by (bit_vector);
        (x >> 40u64) as u32
    }
}

/// The `n` 24-bit draws a probe's features are made from, one per feature value: the
/// generator seeded with `seed | 1` (so never zero), draw `i` taken after `i + 1` steps.
pub fn probe_draws(seed: u64, n: usize) -> (v: Vec<u32>)
    ensures
        v@.len() == n,
        forall|i: int| 0 <= i < n ==> (#[trigger] v@[i]) as int == xorshift_state(seed | 1, (i + 1) as nat) >> 40u64,
{
    let mut rng = XorShift64(seed | 1);
    let mut v: Vec<u32> = Vec::new();
    let mut k: usize = 0;
    while k < n
        invariant
            k <= n,
            v@.len() == k,
            rng.0 == xorshift_state(seed | 1, k as nat),
            forall|i: int| 0 <= i < k ==> (#[trigger] v@[i]) as int == xorshift_state(seed | 1, (i + 1) as nat) >> 40u64,
        decreases n - k,
    {
        let d = rng.next_u24();
        v.push(d);
        k += 1;
    }
    v
}

/// A probe before it runs: its label, grid and stride, and the seed its feature buffer is
/// generated from.
#[derive(Debug, Clone, PartialEq, Eq)]
pub struct ProbePlan {
    pub name: String,
    pub stride: u32,
    pub cols: u32,
    pub rows: u32,
    pub seed: u64,
}

/// `v` is the gather suite: strides 1 through 8, one row of 24 cells each, labelled
/// `gather_stride{s}`, seeded `PROBE_SEED ^ (0x9E3779B9 * s)`.
pub open spec fn gather_plan(v: Seq<ProbePlan>) -> bool {
    &&& v.len() == 8
    &&& forall|i: int|
        0 <= i < 8 ==> {
            let p = #[trigger] v[i];
            &&& p.stride == i + 1
            &&& p.cols == 24
            &&& p.rows == 1
            &&& p.seed == PROBE_SEED ^ ((0x9E37_79B9 * (i + 1)) as u64)
            &&& p.name@ == "gather_stride"@ + decimal((i + 1) as nat)
        }
}

/// `v` is the propagation suite: the grids 8×8 (stride 1), 6×4 (stride 1) and 5×3
/// (stride 2), labelled `grid_{cols}x{rows}_stride{s}`, seeded
/// `PROBE_SEED ^ (0xABCD1234 * (i + 1))`.
pub open spec fn propagation_plan(v: Seq<ProbePlan>) -> bool {
    &&& v.len() == 3
    &&& v[0].cols == 8 && v[0].rows == 8 && v[0].stride == 1
    &&& v[1].cols == 6 && v[1].rows == 4 && v[1].stride == 1
    &&& v[2].cols == 5 && v[2].rows == 3 && v[2].stride == 2
    &&& forall|i: int|
        0 <= i < 3 ==> {
            let p = #[trigger] v[i];
            &&& p.seed == PROBE_SEED ^ ((0xABCD_1234 * (i + 1)) as u64)
            &&& p.name@ == "grid_"@ + decimal(p.cols as nat) + "x"@ + decimal(p.rows as nat)
                + "_stride"@ + decimal(p.stride as nat)
        }
}

/// The gather suite: strides 1 through 8, one row of 24 cells each, labelled
/// `gather_stride{s}`, seeded `PROBE_SEED ^ (0x9E3779B9 * s)`.
pub fn gather_probe_plan() -> (v: Vec<ProbePlan>)
    ensures
        gather_plan(v@),
{
    let mut v: Vec<ProbePlan> = Vec::new();
    let mut s: u32 = 1;
    while s <= 8
        invariant
            1 <= s <= 9,
            v@.len() == s - 1,
            forall|i: int|
                0 <= i < s - 1 ==> {
                    let p = #[trigger] v@[i];
                    &&& p.stride == i + 1
                    &&& p.cols == 24
                    &&& p.rows == 1
                    &&& p.seed == PROBE_SEED ^ ((0x9E37_79B9 * (i + 1)) as u64)
                    &&& p.name@ == "gather_stride"@ + decimal((i + 1) as nat)
                },
        decreases 9 - s,
    {
        let mut name = String::new();
        name.append("gather_stride");
        push_decimal(&mut name, s as u64);
        let seed = PROBE_SEED ^ (0x9E37_79B9u64 * s as u64);
        v.push(ProbePlan { name, stride: s, cols: 24, rows: 1, seed });
        s += 1;
    }
    v
}

/// The propagation suite: the grids 8×8 (stride 1), 6×4 (stride 1) and 5×3 (stride 2),
/// labelled `grid_{cols}x{rows}_stride{s}`, seeded `PROBE_SEED ^ (0xABCD1234 * (i + 1))`.
pub fn propagation_probe_plan() -> (v: Vec<ProbePlan>)
    ensures
        propagation_plan(v@),
{
    let mut v: Vec<ProbePlan> = Vec::new();
    let shapes: [(u32, u32, u32); 3] = [(8, 8, 1), (6, 4, 1), (5, 3, 2)];
    let mut i: usize = 0;
    while i < 3
        invariant
            i <= 3,
            v@.len() == i,
            shapes@ == seq![(8u32, 8u32, 1u32), (6u32, 4u32, 1u32), (5u32, 3u32, 2u32)],
            forall|k: int|
                0 <= k < i ==> {
                    let p = #[trigger] v@[k];
                    &&& (p.cols, p.rows, p.stride) == shapes@[k]
                    &&& p.seed == PROBE_SEED ^ ((0xABCD_1234 * (k + 1)) as u64)
                    &&& p.name@ == "grid_"@ + decimal(p.cols as nat) + "x"@ + decimal(p.rows as nat)
                        + "_stride"@ + decimal(p.stride as nat)
                },
        decreases 3 - i,
    {
        let (cols, rows, stride) = shapes[i];
        let mut name = String::new();
        name.append("grid_");
        push_decimal(&mut name, cols as u64);
        name.append("x");
        push_decimal(&mut name, rows as u64);
        name.append("_stride");
        push_decimal(&mut name, stride as u64);
        let seed = PROBE_SEED ^ (0xABCD_1234u64 * (i as u64 + 1));
        v.push(ProbePlan { name, stride, cols, rows, seed });
        i += 1;
    }
    v
}

/// The program suite at a program's declared `stride`: one row of 24, 32, 16 and 8 cells,
/// labelled `program_{cells}cells_stride{stride}`, seeded
/// `PROBE_SEED ^ (0x51ED2A17 * (i + 1))` (wrapping).
pub fn program_probe_plan(stride: u32) -> (v: Vec<ProbePlan>)
    ensures
        v@.len() == 4,
        v@[0].cols == 24 && v@[1].cols == 32 && v@[2].cols == 16 && v@[3].cols == 8,
        forall|i: int|
            0 <= i < 4 ==> {
                let p = #[trigger] v@[i];
                &&& p.stride == stride
                &&& p.rows == 1
                &&& p.seed == PROBE_SEED ^ ((0x51ED_2A17 * (i + 1)) as u64)
                &&& p.name@ == "program_"@ + decimal(p.cols as nat) + "cells_stride"@ + decimal(
                    stride as nat,
                )
            },
{
    let mut v: Vec<ProbePlan> = Vec::new();
    let cells: [u32; 4] = [24, 32, 16, 8];
    let mut i: usize = 0;
    while i < 4
        invariant
            i <= 4,
            v@.len() == i,
            cells@ == seq![24u32, 32u32, 16u32, 8u32],
            forall|k: int|
                0 <= k < i ==> {
                    let p = #[trigger] v@[k];
                    &&& p.cols == cells@[k]
                    &&& p.stride == stride
                    &&& p.rows == 1
                    &&& p.seed == PROBE_SEED ^ ((0x51ED_2A17 * (k + 1)) as u64)
                    &&& p.name@ == "program_"@ + decimal(p.cols as nat) + "cells_stride"@
                        + decimal(stride as nat)
                },
        decreases 4 - i,
    {
        let c = cells[i];
        let mut name = String::new();
        name.append("program_");
        push_decimal(&mut name, c as u64);
        name.append("cells_stride");
        push_decimal(&mut name, stride as u64);
        let seed = PROBE_SEED ^ 0x51ED_2A17u64.wrapping_mul(i as u64 + 1);
        v.push(ProbePlan { name, stride, cols: c, rows: 1, seed });
        i += 1;
    }
    v
}

/// The stable rejection a bytecode validation error becomes.
pub open spec fn vm_rejection(e: VmError) -> (RejectionCode, Seq<char>) {
    match e {
        VmError::BadMagic => (RejectionCode::BadMagic, "not a mosaic-vm bytecode program (bad magic)"@),
        VmError::Truncated => (RejectionCode::Truncated, "program bytes are truncated"@),
        VmError::TooLarge => (RejectionCode::TooLarge, "a program section exceeds its cap"@),
        VmError::BadCodepoint => (RejectionCode::BadCodepoint, "a table entry is not a valid Unicode scalar"@),
        VmError::BadOpcode => (RejectionCode::BadOpcode, "the program contains an unknown opcode"@),
        VmError::BadFeatureSlot => (RejectionCode::BadFeatureSlot, "a LOADF reads a feature slot outside the stride"@),
        VmError::BadParamIndex => (RejectionCode::BadParamIndex, "a LOADP reads an undeclared param"@),
        VmError::BadTableIndex => (RejectionCode::BadTableIndex, "a TABLE op names an undeclared table"@),
        VmError::StackUnderflow => (RejectionCode::StackUnderflow, "the program underflows the value stack"@),
        VmError::StackOverflow => (RejectionCode::StackOverflow, "the program overflows the value stack"@),
        VmError::BadFinalStack => (RejectionCode::BadFinalStack, "the program does not end with exactly one value"@),
        VmError::StrideMismatch => (RejectionCode::Malformed, "malformed program"@),
        VmError::ShortOutput => (RejectionCode::Malformed, "malformed program"@),
    }
}

/// Map a bytecode validation error to a machine-stable [`Rejection`].
pub fn rejection_from_vm(e: VmError) -> (r: Rejection)
    ensures
        r.code == vm_rejection(e).0,
        r.message@ == vm_rejection(e).1,
{
    let (code, message): (RejectionCode, &str) = match e {
        VmError::BadMagic => (RejectionCode::BadMagic, "not a mosaic-vm bytecode program (bad magic)"),
        VmError::Truncated => (RejectionCode::Truncated, "program bytes are truncated"),
        VmError::TooLarge => (RejectionCode::TooLarge, "a program section exceeds its cap"),
        VmError::BadCodepoint => (RejectionCode::BadCodepoint, "a table entry is not a valid Unicode scalar"),
        VmError::BadOpcode => (RejectionCode::BadOpcode, "the program contains an unknown opcode"),
        VmError::BadFeatureSlot => (RejectionCode::BadFeatureSlot, "a LOADF reads a feature slot outside the stride"),
        VmError::BadParamIndex => (RejectionCode::BadParamIndex, "a LOADP reads an undeclared param"),
        VmError::BadTableIndex => (RejectionCode::BadTableIndex, "a TABLE op names an undeclared table"),
        VmError::StackUnderflow => (RejectionCode::StackUnderflow, "the program underflows the value stack"),
        VmError::StackOverflow => (RejectionCode::StackOverflow, "the program overflows the value stack"),
        VmError::BadFinalStack => (RejectionCode::BadFinalStack, "the program does not end with exactly one value"),
        VmError::StrideMismatch | VmError::ShortOutput => (RejectionCode::Malformed, "malformed program"),
    };
    Rejection::new(code, message.to_owned())
}

/// The probe suite a wasm Facet of ABI `abi` is certified on.
pub fn probe_plan_for(abi: AbiKind) -> (v: Vec<ProbePlan>)
    ensures
        abi == AbiKind::Gather ==> gather_plan(v@),
        abi == AbiKind::Propagation ==> propagation_plan(v@),
{
    match abi {
        AbiKind::Gather => gather_probe_plan(),
        AbiKind::Propagation => propagation_probe_plan(),
    }
}

/// The admission step of certifying the wasm module `bytes`: the profile check, and on
/// admission the ABI it found with the probe suite of that ABI.
pub fn admit_for_certify(bytes: &[u8]) -> (r: Result<(AbiKind, Vec<ProbePlan>), Rejection>)
    ensures
        verdict_matches(
            match r {
                Ok((abi, _)) => Ok(abi),
                Err(e) => Err(e),
            },
            check_profile_spec(bytes@),
        ),
        r matches Ok((abi, v)) ==> (abi == AbiKind::Gather ==> gather_plan(v@)) && (abi
            == AbiKind::Propagation ==> propagation_plan(v@)),
{
    match check_profile(bytes) {
        Ok(abi) => Ok((abi, probe_plan_for(abi))),
        Err(e) => Err(e),
    }
}

/// What a wasm Facet's certificate records besides its probes.
#[derive(Debug)]
pub struct CertificateHead {
    pub certify_version: u32,
    /// Lowercase hex SHA-256 of the module bytes.
    pub wasm_sha256: String,
    pub abi_kind: AbiKind,
    pub profile: Profile,
}

/// What a bytecode program's certificate records besides its probes.
#[derive(Debug)]
pub struct ProgramCertificateHead {
    pub certify_version: u32,
    /// Lowercase hex SHA-256 of the program bytes.
    pub program_sha256: String,
    pub stride: u32,
}

/// The profile this build enforces, as a value.
pub open spec fn current_profile() -> Profile {
    Profile {
        max_module_bytes: MAX_MODULE_BYTES,
        max_memory_pages: MAX_MEMORY_PAGES,
        max_table_elements: MAX_TABLE_ELEMENTS,
        max_functions: MAX_FUNCTIONS,
        max_function_body_bytes: MAX_FUNCTION_BODY_BYTES,
    }
}

/// The verdict of certifying the wasm module `bytes`, admitted with ABI `abi`, once its
/// probes gave `outcomes`: refused if no probe produced tokens, else a certificate of this
/// version bound to the bytes by their SHA-256, recording the ABI and the profile.
pub fn certificate_head(bytes: &[u8], abi: AbiKind, outcomes: &Vec<ProbeOutcome>) -> (r: Result<
    CertificateHead,
    Rejection,
>)
    ensures
        any_tokens(outcomes@) ==> (r matches Ok(h) && h.certify_version == CERTIFY_VERSION
            && h.wasm_sha256@ == hex_lower(sha256_of(bytes@)) && h.abi_kind == abi && h.profile
            == current_profile()),
        !any_tokens(outcomes@) ==> (r matches Err(rej) && rej.code == RejectionCode::NeverProducesTokens
            && rej.message@ == "Facet"@
            + " produced no tokens on any probe (it trapped on every one)"@),
{
    match conclude_probes(outcomes, false) {
        Err(rej) => Err(rej),
        Ok(()) => Ok(
            CertificateHead {
                certify_version: CERTIFY_VERSION,
                wasm_sha256: sha256_hex(bytes),
                abi_kind: abi,
                profile: Profile::current(),
            },
        ),
    }
}

/// The verdict of certifying a bytecode program of stride `stride`, once its probes gave
/// `outcomes`: refused if no probe produced tokens, else a certificate of this version bound
/// to the program by its SHA-256, recording the stride.
pub fn program_certificate_head(program: &[u8], stride: u32, outcomes: &Vec<ProbeOutcome>) -> (r: Result<
    ProgramCertificateHead,
    Rejection,
>)
    ensures
        any_tokens(outcomes@) ==> (r matches Ok(h) && h.certify_version == CERTIFY_VERSION
            && h.program_sha256@ == hex_lower(sha256_of(program@)) && h.stride == stride),
        !any_tokens(outcomes@) ==> (r matches Err(rej) && rej.code == RejectionCode::NeverProducesTokens
            && rej.message@ == "program"@
            + " produced no tokens on any probe (it trapped on every one)"@),
{
    match conclude_probes(outcomes, true) {
        Err(rej) => Err(rej),
        Ok(()) => Ok(
            ProgramCertificateHead {
                certify_version: CERTIFY_VERSION,
                program_sha256: sha256_hex(program),
                stride,
            },
        ),
    }
}

} // verus!
