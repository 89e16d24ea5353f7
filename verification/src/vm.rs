//! The Facet DSL bytecode: its format, the static validator, and the instruction decoder.
//!
//! A Facet authored in the DSL compiles to a compact bytecode *program*. [`validate`]
//! performs a full static pass over untrusted bytes — magic, bounds on every
//! feature/param/table index, a stack-effect simulation that guarantees no
//! underflow/overflow and a single result at `END`, and (because the code is straight-line)
//! guaranteed termination. A validated [`Program`] then hands out its params, table entries
//! and decoded instructions without any out-of-bounds access.
//!
//! Layout (all integers little-endian):
//! `magic:u32 | stride:u16 | n_params:u16 | n_tables:u16 | params: n_params × u32 |
//!  tables: n_tables × (len:u16, len × u32 codepoints) | code_len:u32 | code`.

pub mod op;
pub mod eval;

pub use eval::{hash_pair, run, Lane};

use vstd::prelude::*;

verus! {

/// Magic prefix, bytes `M V M 1`.
pub const MAGIC: u32 = 0x314D_564D;
/// Maximum value-stack depth. Programs whose static stack effect exceeds this are rejected.
pub const MAX_STACK: usize = 64;
/// Maximum params a program may declare.
pub const MAX_PARAMS: usize = 64;
/// Maximum codepoint tables a program may declare.
pub const MAX_TABLES: usize = 16;
/// Maximum entries in one table.
pub const MAX_TABLE_LEN: usize = 512;
/// Maximum code section length, in bytes.
pub const MAX_CODE: usize = 65536;
/// Highest valid Unicode scalar; also the cap on table entries.
pub const MAX_CODEPOINT: u32 = 0x10_FFFF;

/// Why a program was rejected or an evaluation could not proceed. Always a value.
#[derive(Debug, Clone, Copy, PartialEq, Eq, Structural)]
pub enum VmError {
    BadMagic,
    /// The byte stream ended inside a header field, operand, or section.
    Truncated,
    /// A declared count exceeded its cap.
    TooLarge,
    /// A table entry was not a valid Unicode scalar (`> MAX_CODEPOINT`).
    BadCodepoint,
    /// An unknown opcode byte.
    BadOpcode,
    /// A `LOADF` slot was `>= stride`.
    BadFeatureSlot,
    /// A `LOADP` index was `>= n_params`.
    BadParamIndex,
    /// A `TABLE` id was `>= n_tables`.
    BadTableIndex,
    /// The static stack effect underflowed.
    StackUnderflow,
    /// The static stack effect exceeded [`MAX_STACK`].
    StackOverflow,
    /// The program did not end with exactly one value on the stack.
    BadFinalStack,
    /// An evaluation was given a feature buffer whose length is not `ncells * stride`, or a
    /// stride that disagrees with the program's declared stride.
    StrideMismatch,
    /// The output buffer was shorter than `ncells`.
    ShortOutput,
}

/// Little-endian `u16` at `off`.
pub open spec fn le16(b: Seq<u8>, off: int) -> int {
    b[off] as int + 256 * (b[off + 1] as int)
}

/// Little-endian `u32` at `off`.
pub open spec fn le32(b: Seq<u8>, off: int) -> int {
    b[off] as int + 256 * (b[off + 1] as int) + 65536 * (b[off + 2] as int) + 16777216 * (
    b[off + 3] as int)
}

/// Where a well-formed program keeps its sections: the declared stride and param count,
/// each table as `(offset of its first entry, entry count)`, and the code section.
pub struct Layout {
    pub stride: int,
    pub n_params: int,
    pub tables: Seq<(int, int)>,
    pub code_off: int,
    pub code_len: int,
}

/// The first error among the `len - i` table entries starting at entry `i` of the table whose
/// entries begin at `start`: a truncated entry, or one above [`MAX_CODEPOINT`].
pub open spec fn entries_error(b: Seq<u8>, start: int, i: int, len: int) -> Option<VmError>
    decreases len - i,
{
    if i >= len {
        None
    } else if start + 4 * i + 4 > b.len() {
        Some(VmError::Truncated)
    } else if le32(b, start + 4 * i) > MAX_CODEPOINT as int {
        Some(VmError::BadCodepoint)
    } else {
        entries_error(b, start, i + 1, len)
    }
}

/// Read the table whose length field is at `off`: `(offset of its first entry, entry count)`,
/// or the first error.
pub open spec fn spec_table(b: Seq<u8>, off: int) -> Result<(int, int), VmError> {
    if off + 2 > b.len() {
        Err(VmError::Truncated)
    } else if le16(b, off) > MAX_TABLE_LEN as int {
        Err(VmError::TooLarge)
    } else {
        match entries_error(b, off + 2, 0, le16(b, off)) {
            Some(e) => Err(e),
            None => Ok((off + 2, le16(b, off))),
        }
    }
}

/// Read `n` tables starting at `off`: their `(entries offset, length)` and the offset just
/// past the last one, or the first error.
pub open spec fn spec_tables(b: Seq<u8>, off: int, n: nat) -> Result<(Seq<(int, int)>, int), VmError>
    decreases n,
{
    if n == 0 {
        Ok((Seq::empty(), off))
    } else {
        match spec_table(b, off) {
            Err(e) => Err(e),
            Ok((s, l)) => match spec_tables(b, s + 4 * l, (n - 1) as nat) {
                Err(e) => Err(e),
                Ok((ts, end)) => Ok((seq![(s, l)] + ts, end)),
            },
        }
    }
}

/// The header, params and tables of a program, read in order, with the first error found.
pub open spec fn spec_header(b: Seq<u8>) -> Result<Layout, VmError> {
    if b.len() < 4 {
        Err(VmError::Truncated)
    } else if le32(b, 0) != MAGIC as int {
        Err(VmError::BadMagic)
    } else if b.len() < 10 {
        Err(VmError::Truncated)
    } else if le16(b, 6) > MAX_PARAMS as int || le16(b, 8) > MAX_TABLES as int {
        Err(VmError::TooLarge)
    } else if b.len() < 10 + 4 * le16(b, 6) {
        Err(VmError::Truncated)
    } else {
        header_rest(b, spec_tables(b, 10 + 4 * le16(b, 6), le16(b, 8) as nat))
    }
}

/// The end of the header, once the tables were read with outcome `tables`: the code length
/// field and the code section it announces.
pub open spec fn header_rest(b: Seq<u8>, tables: Result<(Seq<(int, int)>, int), VmError>) -> Result<
    Layout,
    VmError,
> {
    match tables {
        Err(e) => Err(e),
        Ok((ts, off)) => if b.len() < off + 4 {
            Err(VmError::Truncated)
        } else if le32(b, off) > MAX_CODE as int {
            Err(VmError::TooLarge)
        } else if b.len() < off + 4 + le32(b, off) {
            Err(VmError::Truncated)
        } else {
            Ok(
                Layout {
                    stride: le16(b, 4),
                    n_params: le16(b, 6),
                    tables: ts,
                    code_off: off + 4,
                    code_len: le32(b, off),
                },
            )
        },
    }
}

/// Stack effect `(pops, pushes)` of an opcode without operands, or `None` if the byte is
/// not such an opcode.
pub open spec fn op_effect(opc: u8) -> Option<(int, int)> {
    if opc == op::DUP {
        Some((1, 2))
    } else if opc == op::POP {
        Some((1, 0))
    } else if opc == op::NEG || opc == op::NOT || opc == op::ABS || opc == op::FLOOR || opc
        == op::TRUNC {
        Some((1, 1))
    } else if opc == op::ADD || opc == op::SUB || opc == op::MUL || opc == op::DIV || opc
        == op::LT || opc == op::LE || opc == op::GT || opc == op::GE || opc == op::EQ || opc
        == op::AND || opc == op::OR || opc == op::MIN || opc == op::MAX || opc == op::HASH {
        Some((2, 1))
    } else if opc == op::CLAMP || opc == op::SELECT {
        Some((3, 1))
    } else {
        None
    }
}

/// The static check of the code section from `pc` with `depth` values on the simulated
/// stack: every opcode known, every operand present and in range, the stack never below
/// empty nor above [`MAX_STACK`], and an `END` reached with exactly one value.
pub open spec fn spec_code(code: Seq<u8>, pc: int, depth: int, stride: int, np: int, nt: int) -> Result<(), VmError>
    decreases code.len() - pc,
{
    if pc < 0 || pc >= code.len() {
        Err(VmError::BadFinalStack)
    } else {
        let opc = code[pc];
        if opc == op::END {
            if depth == 1 {
                Ok(())
            } else {
                Err(VmError::BadFinalStack)
            }
        } else if opc == op::CONST {
            if pc + 5 > code.len() {
                Err(VmError::Truncated)
            } else if depth + 1 > MAX_STACK as int {
                Err(VmError::StackOverflow)
            } else {
                spec_code(code, pc + 5, depth + 1, stride, np, nt)
            }
        } else if opc == op::LOADF || opc == op::LOADP || opc == op::TABLE {
            if pc + 3 > code.len() {
                Err(VmError::Truncated)
            } else if opc == op::LOADF && le16(code, pc + 1) >= stride {
                Err(VmError::BadFeatureSlot)
            } else if opc == op::LOADP && le16(code, pc + 1) >= np {
                Err(VmError::BadParamIndex)
            } else if opc == op::TABLE && le16(code, pc + 1) >= nt {
                Err(VmError::BadTableIndex)
            } else if opc == op::TABLE && depth < 1 {
                Err(VmError::StackUnderflow)
            } else if opc != op::TABLE && depth + 1 > MAX_STACK as int {
                Err(VmError::StackOverflow)
            } else {
                spec_code(
                    code,
                    pc + 3,
                    if opc == op::TABLE {
                        depth
                    } else {
                        depth + 1
                    },
                    stride,
                    np,
                    nt,
                )
            }
        } else {
            match op_effect(opc) {
                None => Err(VmError::BadOpcode),
                Some((need, produce)) => if depth < need {
                    Err(VmError::StackUnderflow)
                } else if depth - need + produce > MAX_STACK as int {
                    Err(VmError::StackOverflow)
                } else {
                    spec_code(code, pc + 1, depth - need + produce, stride, np, nt)
                },
            }
        }
    }
}

/// The code section of a program with layout `l`.
pub open spec fn code_of(b: Seq<u8>, l: Layout) -> Seq<u8> {
    b.subrange(l.code_off, l.code_off + l.code_len)
}

/// What [`validate`] decides for `b`: the layout of an accepted program, or the first error.
pub open spec fn spec_validate(b: Seq<u8>) -> Result<Layout, VmError> {
    match spec_header(b) {
        Err(e) => Err(e),
        Ok(l) => match spec_code(code_of(b, l), 0, 0, l.stride, l.n_params, l.tables.len() as int) {
            Ok(_) => Ok(l),
            Err(e) => Err(e),
        },
    }
}

fn read_u16(bytes: &[u8], off: usize) -> (r: Result<u16, VmError>)
    ensures
        (off + 2 <= bytes@.len()) <==> r is Ok,
        r matches Ok(v) ==> v as int == le16(bytes@, off as int),
        r matches Err(e) ==> e == VmError::Truncated,
{
    if off > bytes.len() || bytes.len() - off < 2 {
        return Err(VmError::Truncated);
    }
    let lo = bytes[off] as u16;
    let hi = bytes[off + 1] as u16;
    Ok(lo + hi * 256)
}

fn read_u32(bytes: &[u8], off: usize) -> (r: Result<u32, VmError>)
    ensures
        (off + 4 <= bytes@.len()) <==> r is Ok,
        r matches Ok(v) ==> v as int == le32(bytes@, off as int),
        r matches Err(e) ==> e == VmError::Truncated,
{
    if off > bytes.len() || bytes.len() - off < 4 {
        return Err(VmError::Truncated);
    }
    let b0 = bytes[off] as u32;
    let b1 = bytes[off + 1] as u32;
    let b2 = bytes[off + 2] as u32;
    let b3 = bytes[off + 3] as u32;
    Ok(b0 + b1 * 256 + b2 * 65536 + b3 * 16777216)
}

/// A validated, borrowed program: offsets into the byte slice it was read from. Produced by
/// [`validate`]; every access its methods make is in bounds.
#[derive(Debug)]
pub struct Program<'a> {
    bytes: &'a [u8],
    stride: u16,
    params_off: usize,
    n_params: usize,
    table_off: Vec<usize>,
    table_len: Vec<usize>,
    n_tables: usize,
    code_off: usize,
    code_len: usize,
}

/// One decoded instruction.
#[derive(Debug, Clone, Copy, PartialEq, Eq, Structural)]
pub enum Instr {
    End,
    /// Push a constant, given by its `f32` bit pattern.
    Const(u32),
    /// Push a feature slot.
    LoadF(u16),
    /// Push a param.
    LoadP(u16),
    /// Look up a table.
    Table(u16),
    /// An opcode without operands (its byte).
    Op(u8),
}

/// The instruction at `pc` of `code` and the offset of the next one, decoded the way
/// evaluation reads it.
pub open spec fn spec_fetch(code: Seq<u8>, pc: int) -> Result<(Instr, int), VmError> {
    if pc < 0 || pc >= code.len() {
        Err(VmError::Truncated)
    } else {
        let opc = code[pc];
        if opc == op::END {
            Ok((Instr::End, pc + 1))
        } else if opc == op::CONST {
            if pc + 5 > code.len() {
                Err(VmError::Truncated)
            } else {
                Ok((Instr::Const(le32(code, pc + 1) as u32), pc + 5))
            }
        } else if opc == op::LOADF || opc == op::LOADP || opc == op::TABLE {
            if pc + 3 > code.len() {
                Err(VmError::Truncated)
            } else {
                let v = le16(code, pc + 1) as u16;
                Ok(
                    (
                        if opc == op::LOADF {
                            Instr::LoadF(v)
                        } else if opc == op::LOADP {
                            Instr::LoadP(v)
                        } else {
                            Instr::Table(v)
                        },
                        pc + 3,
                    ),
                )
            }
        } else if op_effect(opc) is Some {
            Ok((Instr::Op(opc), pc + 1))
        } else {
            Err(VmError::BadOpcode)
        }
    }
}

/// Stack effect `(pops, pushes)` of a decoded instruction (`END` pops the result).
pub open spec fn instr_effect(ins: Instr) -> (int, int) {
    match ins {
        Instr::End => (1, 0),
        Instr::Const(_) => (0, 1),
        Instr::LoadF(_) => (0, 1),
        Instr::LoadP(_) => (0, 1),
        Instr::Table(_) => (1, 1),
        Instr::Op(o) => match op_effect(o) {
            Some(e) => e,
            None => (0, 0),
        },
    }
}

proof fn lemma_entries_ok(b: Seq<u8>, start: int, i: int, len: int)
    requires
        0 <= i <= len,
        entries_error(b, start, i, len) is None,
    ensures
        start + 4 * len <= b.len() || i == len,
        forall|k: int| i <= k < len ==> #[trigger] le32(b, start + 4 * k) <= MAX_CODEPOINT as int
            && start + 4 * k + 4 <= b.len(),
    decreases len - i,
{
    if i < len {
        lemma_entries_ok(b, start, i + 1, len);
    }
}

proof fn lemma_tables_ok(b: Seq<u8>, off: int, n: nat)
    requires
        spec_tables(b, off, n) is Ok,
    ensures
        ({
            let (ts, end) = spec_tables(b, off, n)->Ok_0;
            &&& ts.len() == n
            &&& off <= end
            &&& forall|k: int|
                0 <= k < ts.len() ==> off + 2 <= #[trigger] ts[k].0 && 0 <= ts[k].1
                    <= MAX_TABLE_LEN as int && ts[k].0 + 4 * ts[k].1 <= end
            &&& forall|k: int, j: int|
                0 <= k < ts.len() && 0 <= j < ts[k].1 ==> #[trigger] le32(b, ts[k].0 + 4 * j)
                    <= MAX_CODEPOINT as int && ts[k].0 + 4 * j + 4 <= b.len()
        }),
    decreases n,
{
    if n > 0 {
        let len = le16(b, off);
        lemma_entries_ok(b, off + 2, 0, len);
        lemma_tables_ok(b, off + 2 + 4 * len, (n - 1) as nat);
        let (ts, end) = spec_tables(b, off, n)->Ok_0;
        let (rest, end2) = spec_tables(b, off + 2 + 4 * len, (n - 1) as nat)->Ok_0;
        assert(ts == seq![(off + 2, len)] + rest);
        assert forall|k: int, j: int|
            0 <= k < ts.len() && 0 <= j < ts[k].1 implies #[trigger] le32(b, ts[k].0 + 4 * j)
            <= MAX_CODEPOINT as int && ts[k].0 + 4 * j + 4 <= b.len() by {
            if k > 0 {
                assert(ts[k] == rest[k - 1]);
            }
        }
        assert forall|k: int|
            0 <= k < ts.len() implies off + 2 <= #[trigger] ts[k].0 && 0 <= ts[k].1
            <= MAX_TABLE_LEN as int && ts[k].0 + 4 * ts[k].1 <= end by {
            if k > 0 {
                assert(ts[k] == rest[k - 1]);
            }
        }
    }
}

pub open spec fn prepend_tables(
    pre: Seq<(int, int)>,
    r: Result<(Seq<(int, int)>, int), VmError>,
) -> Result<(Seq<(int, int)>, int), VmError> {
    match r {
        Ok((ts, e)) => Ok((pre + ts, e)),
        Err(e) => Err(e),
    }
}

impl<'a> Program<'a> {
    /// The bytes this program was validated from.
    pub closed spec fn spec_bytes(&self) -> Seq<u8> {
        self.bytes@
    }

    /// The layout the fields record.
    pub closed spec fn layout(&self) -> Layout {
        Layout {
            stride: self.stride as int,
            n_params: self.n_params as int,
            tables: Seq::new(
                self.n_tables as nat,
                |i: int| (self.table_off@[i] as int, self.table_len@[i] as int),
            ),
            code_off: self.code_off as int,
            code_len: self.code_len as int,
        }
    }

    /// The fields agree with what validation found in the bytes.
    pub closed spec fn wf(&self) -> bool {
        &&& self.table_off@.len() == self.n_tables
        &&& self.table_len@.len() == self.n_tables
        &&& self.params_off == 10
        &&& spec_validate(self.bytes@) == Ok::<Layout, VmError>(self.layout())
        &&& self.code_off + self.code_len <= self.bytes@.len()
        &&& 10 + 4 * self.n_params <= self.bytes@.len()
        &&& self.n_params <= MAX_PARAMS
        &&& self.n_tables <= MAX_TABLES
        &&& forall|t: int|
            0 <= t < self.n_tables ==> #[trigger] self.table_len@[t] <= MAX_TABLE_LEN
                && self.table_off@[t] + 4 * self.table_len@[t] <= self.bytes@.len()
        &&& forall|t: int, j: int|
            0 <= t < self.n_tables && 0 <= j < self.table_len@[t] ==> #[trigger] le32(
                self.bytes@,
                self.table_off@[t] + 4 * j,
            ) <= MAX_CODEPOINT as int
    }

    /// The code section of a validated program passes the static check from its start.
    pub proof fn lemma_code_checked(&self)
        requires
            self.wf(),
        ensures
            spec_code(
                self.code(),
                0,
                0,
                self.layout().stride,
                self.layout().n_params,
                self.layout().tables.len() as int,
            ) is Ok,
    {
    }

    /// The code section.
    pub open spec fn code(&self) -> Seq<u8> {
        code_of(self.spec_bytes(), self.layout())
    }

    /// Feature stride the program was compiled for.
    pub fn stride(&self) -> (s: u16)
        requires
            self.wf(),
        ensures
            s as int == self.layout().stride,
    {
        self.stride
    }

    /// Number of params the program declares.
    pub fn n_params(&self) -> (n: usize)
        requires
            self.wf(),
        ensures
            n as int == self.layout().n_params,
    {
        self.n_params
    }

    /// Number of tables the program declares.
    pub fn n_tables(&self) -> (n: usize)
        requires
            self.wf(),
        ensures
            n as int == self.layout().tables.len(),
    {
        self.n_tables
    }

    /// Length of the code section.
    pub fn code_len(&self) -> (n: usize)
        requires
            self.wf(),
        ensures
            n as int == self.layout().code_len,
    {
        self.code_len
    }

    /// The bit pattern of param `i`.
    pub fn param_bits(&self, i: usize) -> (r: Result<u32, VmError>)
        requires
            self.wf(),
        ensures
            i as int >= self.layout().n_params ==> r == Err::<u32, VmError>(
                VmError::BadParamIndex,
            ),
            (i as int) < self.layout().n_params ==> r == Ok::<u32, VmError>(
                le32(self.spec_bytes(), 10 + 4 * i) as u32,
            ),
    {
        if i >= self.n_params {
            return Err(VmError::BadParamIndex);
        }
        read_u32(self.bytes, self.params_off + i * 4)
    }

    /// Entry `i` of table `t`, with the index clamped to the table (`0` for an empty table).
    /// Every entry a validated program holds is a valid codepoint.
    pub fn table_entry(&self, t: usize, i: usize) -> (r: Result<u32, VmError>)
        requires
            self.wf(),
        ensures
            t as int >= self.layout().tables.len() ==> r == Err::<u32, VmError>(
                VmError::BadTableIndex,
            ),
            t as int >= self.layout().tables.len() || ({
                let (off, len) = self.layout().tables[t as int];
                &&& len == 0 ==> r == Ok::<u32, VmError>(0)
                &&& len > 0 ==> r == Ok::<u32, VmError>(
                    le32(
                        self.spec_bytes(),
                        off + 4 * (if i < len {
                            i as int
                        } else {
                            len - 1
                        }),
                    ) as u32,
                )
            }),
            r matches Ok(c) ==> c <= MAX_CODEPOINT,
    {
        if t >= self.n_tables {
            return Err(VmError::BadTableIndex);
        }
        let len = self.table_len[t];
        let _total = self.bytes.len();
        assert(self.table_len@[t as int] <= MAX_TABLE_LEN);
        if len == 0 {
            return Ok(0);
        }
        let idx = if i < len {
            i
        } else {
            len - 1
        };
        let r = read_u32(self.bytes, self.table_off[t] + idx * 4);
        proof {
            assert(le32(self.bytes@, self.table_off@[t as int] + 4 * idx) <= MAX_CODEPOINT as int);
        }
        r
    }

    /// Decode the instruction at `pc` of the code section, returning it with the offset of
    /// the next instruction.
    pub fn fetch(&self, pc: usize) -> (r: Result<(Instr, usize), VmError>)
        requires
            self.wf(),
        ensures
            match spec_fetch(self.code(), pc as int) {
                Ok((ins, next)) => r == Ok::<(Instr, usize), VmError>((ins, next as usize)),
                Err(e) => r == Err::<(Instr, usize), VmError>(e),
            },
    {
        let ghost code = self.code();
        let _total = self.bytes.len();
        let len = self.code_len;
        let base = self.code_off;
        if pc >= len {
            return Err(VmError::Truncated);
        }
        let opc = self.bytes[base + pc];
        assert(opc == code[pc as int]);
        if opc == op::END {
            Ok((Instr::End, pc + 1))
        } else if opc == op::CONST {
            if len - pc < 5 {
                return Err(VmError::Truncated);
            }
            let v = read_u32(self.bytes, base + pc + 1);
            match v {
                Ok(v) => {
                    assert(le32(code, pc + 1) == le32(self.bytes@, base + pc + 1));
                    Ok((Instr::Const(v), pc + 5))
                },
                Err(e) => Err(e),
            }
        } else if opc == op::LOADF || opc == op::LOADP || opc == op::TABLE {
            if len - pc < 3 {
                return Err(VmError::Truncated);
            }
            let v = read_u16(self.bytes, base + pc + 1);
            match v {
                Ok(v) => {
                    assert(le16(code, pc + 1) == le16(self.bytes@, base + pc + 1));
                    let ins = if opc == op::LOADF {
                        Instr::LoadF(v)
                    } else if opc == op::LOADP {
                        Instr::LoadP(v)
                    } else {
                        Instr::Table(v)
                    };
                    Ok((ins, pc + 3))
                },
                Err(e) => Err(e),
            }
        } else if is_plain_op(opc) {
            Ok((Instr::Op(opc), pc + 1))
        } else {
            Err(VmError::BadOpcode)
        }
    }

    /// Check the shape of an evaluation request against this program: the caller's stride
    /// must be the declared one, the feature buffer exactly `ncells * stride` long
    /// (saturating), and the output at least `ncells` long.
    pub fn check_run_shape(&self, features_len: usize, ncells: usize, stride: usize, out_len: usize) -> (r: Result<(), VmError>)
        requires
            self.wf(),
        ensures
            r == shape_verdict(self.layout().stride, features_len as int, ncells as int, stride as int, out_len as int),
    {
        if stride != self.stride as usize {
            return Err(VmError::StrideMismatch);
        }
        let want = match ncells.checked_mul(stride) {
            Some(v) => v,
            None => usize::MAX,
        };
        if features_len != want {
            return Err(VmError::StrideMismatch);
        }
        if out_len < ncells {
            return Err(VmError::ShortOutput);
        }
        Ok(())
    }
}

/// What an evaluation request of `ncells` cells at `stride` makes of a program declaring
/// `declared`, with `features_len` features and room for `out_len` tokens: the caller's
/// stride must be the declared one, the features exactly `ncells * stride` (saturating),
/// and the output at least `ncells` long.
pub open spec fn shape_verdict(declared: int, features_len: int, ncells: int, stride: int, out_len: int) -> Result<(), VmError> {
    if stride != declared || features_len != (if ncells * stride > usize::MAX {
        usize::MAX as int
    } else {
        ncells * stride
    }) {
        Err(VmError::StrideMismatch)
    } else if out_len < ncells {
        Err(VmError::ShortOutput)
    } else {
        Ok(())
    }
}

fn is_plain_op(opc: u8) -> (b: bool)
    ensures
        b == op_effect(opc) is Some,
{
    opc == op::DUP || opc == op::POP || opc == op::NEG || opc == op::NOT || opc == op::ABS || opc
        == op::FLOOR || opc == op::TRUNC || opc == op::ADD || opc == op::SUB || opc == op::MUL
        || opc == op::DIV || opc == op::LT || opc == op::LE || opc == op::GT || opc == op::GE
        || opc == op::EQ || opc == op::AND || opc == op::OR || opc == op::MIN || opc == op::MAX
        || opc == op::HASH || opc == op::CLAMP || opc == op::SELECT
}

fn plain_effect(opc: u8) -> (r: (usize, usize))
    requires
        op_effect(opc) is Some,
    ensures
        op_effect(opc) == Some((r.0 as int, r.1 as int)),
{
    if opc == op::DUP {
        (1, 2)
    } else if opc == op::POP {
        (1, 0)
    } else if opc == op::NEG || opc == op::NOT || opc == op::ABS || opc == op::FLOOR || opc
        == op::TRUNC {
        (1, 1)
    } else if opc == op::CLAMP || opc == op::SELECT {
        (3, 1)
    } else {
        (2, 1)
    }
}

/// Read and check one table whose length field is at `off`.
fn read_table(bytes: &[u8], off: usize) -> (r: Result<(usize, usize), VmError>)
    requires
        off <= 266 + 2050 * 16,
    ensures
        match spec_table(bytes@, off as int) {
            Ok((s, l)) => r == Ok::<(usize, usize), VmError>((s as usize, l as usize)) && s
                == off + 2 && 0 <= l <= MAX_TABLE_LEN,
            Err(e) => r == Err::<(usize, usize), VmError>(e),
        },
{
    let len = match read_u16(bytes, off) {
        Ok(v) => v as usize,
        Err(e) => return Err(e),
    };
    if len > MAX_TABLE_LEN {
        return Err(VmError::TooLarge);
    }
    let start = off + 2;
    let mut i: usize = 0;
    while i < len
        invariant
            i <= len <= MAX_TABLE_LEN,
            start == off + 2,
            off <= 266 + 2050 * 16,
            len as int == le16(bytes@, off as int),
            entries_error(bytes@, start as int, 0, len as int) == entries_error(
                bytes@,
                start as int,
                i as int,
                len as int,
            ),
        decreases len - i,
    {
        match read_u32(bytes, start + i * 4) {
            Err(e) => return Err(e),
            Ok(v) => if v > MAX_CODEPOINT {
                return Err(VmError::BadCodepoint);
            },
        }
        i += 1;
    }
    Ok((start, len))
}

/// Validate a bytecode program end to end. On success the returned [`Program`] hands out
/// params, table entries and instructions without any out-of-bounds access.
pub fn validate<'a>(bytes: &'a [u8]) -> (r: Result<Program<'a>, VmError>)
    ensures
        match spec_validate(bytes@) {
            Ok(l) => r matches Ok(p) && p.wf() && p.layout() == l && p.spec_bytes() == bytes@,
            Err(e) => r matches Err(e2) && e2 == e,
        },
{
    let ghost b = bytes@;
    let _total = bytes.len();
    match read_u32(bytes, 0) {
        Err(e) => return Err(e),
        Ok(m) => if m != MAGIC {
            return Err(VmError::BadMagic);
        },
    }
    let stride = match read_u16(bytes, 4) {
        Ok(v) => v,
        Err(e) => return Err(e),
    };
    let n_params = match read_u16(bytes, 6) {
        Ok(v) => v as usize,
        Err(e) => return Err(e),
    };
    let n_tables = match read_u16(bytes, 8) {
        Ok(v) => v as usize,
        Err(e) => return Err(e),
    };
    if n_params > MAX_PARAMS || n_tables > MAX_TABLES {
        return Err(VmError::TooLarge);
    }
    let params_off: usize = 10;
    let mut off: usize = params_off + n_params * 4;
    if bytes.len() < off {
        return Err(VmError::Truncated);
    }
    let ghost off0 = off as int;
    assert(spec_header(b) == header_rest(b, spec_tables(b, off0, n_tables as nat)));
    let mut table_off: Vec<usize> = Vec::new();
    let mut table_len: Vec<usize> = Vec::new();
    let mut t: usize = 0;
    while t < n_tables
        invariant
            b == bytes@,
            n_tables <= MAX_TABLES,
            t <= n_tables,
            table_off@.len() == t,
            table_len@.len() == t,
            off <= 266 + 2050 * t,
            spec_header(b) == header_rest(b, spec_tables(b, off0, n_tables as nat)),
            spec_tables(b, off0, n_tables as nat) == prepend_tables(
                Seq::new(t as nat, |i: int| (table_off@[i] as int, table_len@[i] as int)),
                spec_tables(b, off as int, (n_tables - t) as nat),
            ),
        decreases n_tables - t,
    {
        let ghost pre = Seq::new(t as nat, |i: int| (table_off@[i] as int, table_len@[i] as int));
        let (start, len) = match read_table(bytes, off) {
            Ok(v) => v,
            Err(e) => {
                assert(spec_tables(b, off as int, (n_tables - t) as nat) == Err::<
                    (Seq<(int, int)>, int),
                    VmError,
                >(e));
                return Err(e);
            },
        };
        table_off.push(start);
        table_len.push(len);
        off = start + len * 4;
        proof {
            let post = Seq::new(
                (t + 1) as nat,
                |i: int| (table_off@[i] as int, table_len@[i] as int),
            );
            assert(post =~= pre.push((start as int, len as int)));
            let rest = spec_tables(b, off as int, (n_tables - t - 1) as nat);
            match rest {
                Ok((ts, e)) => {
                    assert(pre + (seq![(start as int, len as int)] + ts) =~= post + ts);
                },
                Err(_) => {},
            }
        }
        t += 1;
    }
    let ghost tseq = Seq::new(
        n_tables as nat,
        |i: int| (table_off@[i] as int, table_len@[i] as int),
    );
    assert(spec_tables(b, off0, n_tables as nat) == Ok::<(Seq<(int, int)>, int), VmError>(
        (tseq, off as int),
    )) by {
        assert(tseq + Seq::<(int, int)>::empty() =~= tseq);
    }
    let code_len = match read_u32(bytes, off) {
        Ok(v) => v as usize,
        Err(e) => return Err(e),
    };
    off += 4;
    if code_len > MAX_CODE {
        return Err(VmError::TooLarge);
    }
    let code_off = off;
    if bytes.len() < code_off + code_len {
        return Err(VmError::Truncated);
    }
    let program = Program {
        bytes,
        stride,
        params_off,
        n_params,
        table_off,
        table_len,
        n_tables,
        code_off,
        code_len,
    };
    proof {
        lemma_tables_ok(b, off0, n_tables as nat);
        assert(spec_header(b) == Ok::<Layout, VmError>(program.layout()));
        assert(program.layout().tables =~= tseq);
    }
    match validate_code(&program) {
        Err(e) => Err(e),
        Ok(()) => {
            proof {
                assert forall|t: int|
                    0 <= t < program.n_tables implies #[trigger] program.table_len@[t]
                    <= MAX_TABLE_LEN && program.table_off@[t] + 4 * program.table_len@[t]
                    <= program.bytes@.len() by {
                    assert(tseq[t].0 == program.table_off@[t] as int && tseq[t].1
                        == program.table_len@[t] as int);
                }
                assert forall|t: int, j: int|
                    0 <= t < program.n_tables && 0 <= j
                        < program.table_len@[t] implies #[trigger] le32(
                    program.bytes@,
                    program.table_off@[t] + 4 * j,
                ) <= MAX_CODEPOINT as int by {
                    assert(tseq[t].0 == program.table_off@[t] as int && tseq[t].1
                        == program.table_len@[t] as int);
                }
            }
            Ok(program)
        },
    }
}

/// Walk the code once, checking opcodes and operands and simulating the stack effect.
fn validate_code(p: &Program) -> (r: Result<(), VmError>)
    requires
        p.code_off + p.code_len <= p.bytes@.len(),
        p.table_off@.len() == p.n_tables,
        p.table_len@.len() == p.n_tables,
    ensures
        r == spec_code(p.code(), 0, 0, p.stride as int, p.n_params as int, p.n_tables as int),
{
    let ghost code = p.code();
    let ghost st = p.stride as int;
    let ghost np = p.n_params as int;
    let ghost nt = p.n_tables as int;
    let base = p.code_off;
    let len = p.code_len;
    let _total = p.bytes.len();
    let mut pc: usize = 0;
    let mut depth: usize = 0;
    assert(code.len() == len);
    while pc < len
        invariant
            code == p.code(),
            code.len() == len,
            _total == p.bytes@.len(),
            base + len <= p.bytes@.len(),
            base == p.code_off,
            len == p.code_len,
            pc <= len,
            depth <= MAX_STACK,
            st == p.stride as int,
            np == p.n_params as int,
            nt == p.n_tables as int,
            spec_code(code, 0, 0, st, np, nt) == spec_code(code, pc as int, depth as int, st, np, nt),
        decreases len - pc,
    {
        let opc = p.bytes[base + pc];
        assert(opc == code[pc as int]);
        if opc == op::END {
            if depth == 1 {
                return Ok(());
            } else {
                return Err(VmError::BadFinalStack);
            }
        } else if opc == op::CONST {
            if len - pc < 5 {
                return Err(VmError::Truncated);
            }
            if depth + 1 > MAX_STACK {
                return Err(VmError::StackOverflow);
            }
            pc += 5;
            depth += 1;
        } else if opc == op::LOADF || opc == op::LOADP || opc == op::TABLE {
            if len - pc < 3 {
                return Err(VmError::Truncated);
            }
            let v = match read_u16(p.bytes, base + pc + 1) {
                Ok(v) => v,
                Err(e) => return Err(e),
            };
            assert(le16(code, pc + 1) == le16(p.bytes@, base + pc + 1));
            if opc == op::LOADF && v >= p.stride {
                return Err(VmError::BadFeatureSlot);
            }
            if opc == op::LOADP && v as usize >= p.n_params {
                return Err(VmError::BadParamIndex);
            }
            if opc == op::TABLE && v as usize >= p.n_tables {
                return Err(VmError::BadTableIndex);
            }
            if opc == op::TABLE {
                if depth < 1 {
                    return Err(VmError::StackUnderflow);
                }
            } else {
                if depth + 1 > MAX_STACK {
                    return Err(VmError::StackOverflow);
                }
                depth += 1;
            }
            pc += 3;
        } else if is_plain_op(opc) {
            let (need, produce) = plain_effect(opc);
            if depth < need {
                return Err(VmError::StackUnderflow);
            }
            if depth - need + produce > MAX_STACK {
                return Err(VmError::StackOverflow);
            }
            depth = depth - need + produce;
            pc += 1;
        } else {
            return Err(VmError::BadOpcode);
        }
    }
    Err(VmError::BadFinalStack)
}

/// A validated code section stays valid under evaluation: at any point the static code
/// check accepts, the next instruction decodes, its operands are in range, its pops are
/// available, its pushes fit the stack, and either it is `END` with exactly the one result
/// on the stack, or the code check accepts again from the next instruction with the new
/// depth.
pub proof fn lemma_validated_step(code: Seq<u8>, pc: int, depth: int, stride: int, np: int, nt: int)
    requires
        0 <= depth <= MAX_STACK as int,
        spec_code(code, pc, depth, stride, np, nt) is Ok,
    ensures
        spec_fetch(code, pc) is Ok,
        ({
            let (ins, next) = spec_fetch(code, pc)->Ok_0;
            let (pops, pushes) = instr_effect(ins);
            &&& pc < next <= code.len()
            &&& pops <= depth
            &&& depth - pops + pushes <= MAX_STACK as int
            &&& (ins matches Instr::LoadF(s) ==> (s as int) < stride)
            &&& (ins matches Instr::LoadP(i) ==> (i as int) < np)
            &&& (ins matches Instr::Table(t) ==> (t as int) < nt)
            &&& (ins is End ==> depth == 1)
            &&& (!(ins is End) ==> spec_code(code, next, depth - pops + pushes, stride, np, nt) is Ok)
        }),
{
    let opc = code[pc];
    if opc == op::END {
        assert(spec_fetch(code, pc) == Ok::<(Instr, int), VmError>((Instr::End, pc + 1)));
    } else if opc == op::CONST {
        let c = le32(code, pc + 1) as u32;
        assert(spec_fetch(code, pc) == Ok::<(Instr, int), VmError>((Instr::Const(c), pc + 5)));
        assert(spec_code(code, pc + 5, depth + 1, stride, np, nt) is Ok);
    } else if opc == op::LOADF || opc == op::LOADP || opc == op::TABLE {
        let v = le16(code, pc + 1);
        assert(0 <= v < 65536);
        assert((v as u16) as int == v);
        let ins = if opc == op::LOADF {
            Instr::LoadF(v as u16)
        } else if opc == op::LOADP {
            Instr::LoadP(v as u16)
        } else {
            Instr::Table(v as u16)
        };
        assert(spec_fetch(code, pc) == Ok::<(Instr, int), VmError>((ins, pc + 3)));
        if opc == op::TABLE {
            assert(spec_code(code, pc + 3, depth, stride, np, nt) is Ok);
        } else {
            assert(spec_code(code, pc + 3, depth + 1, stride, np, nt) is Ok);
        }
    } else {
        let (need, produce) = op_effect(opc)->Some_0;
        assert(spec_fetch(code, pc) == Ok::<(Instr, int), VmError>((Instr::Op(opc), pc + 1)));
        assert(instr_effect(Instr::Op(opc)) == (need, produce));
        assert(spec_code(code, pc + 1, depth - need + produce, stride, np, nt) is Ok);
    }
}

} // verus!
