//! Opcodes of the bytecode. Each is one byte; a few carry little-endian operands (noted).
//! The set is straight-line (no jumps), so every program terminates.

use vstd::prelude::*;

verus! {

/// End: require exactly one value on the stack; the result is the top as a codepoint.
pub const END: u8 = 0x00;
/// Push an `f32` constant (operand: 4 bytes LE, the value's bit pattern).
pub const CONST: u8 = 0x01;
/// Push `features[cell*stride + slot]` (operand: `u16` slot, LE).
pub const LOADF: u8 = 0x02;
/// Push `params[idx]` (operand: `u16` idx, LE).
pub const LOADP: u8 = 0x03;
/// Duplicate the top of stack.
pub const DUP: u8 = 0x04;
/// Discard the top of stack.
pub const POP: u8 = 0x05;
pub const ADD: u8 = 0x10;
pub const SUB: u8 = 0x11;
pub const MUL: u8 = 0x12;
pub const DIV: u8 = 0x13;
pub const NEG: u8 = 0x14;
pub const LT: u8 = 0x20;
pub const LE: u8 = 0x21;
pub const GT: u8 = 0x22;
pub const GE: u8 = 0x23;
pub const EQ: u8 = 0x24;
pub const NOT: u8 = 0x25;
pub const AND: u8 = 0x26;
pub const OR: u8 = 0x27;
pub const MIN: u8 = 0x30;
pub const MAX: u8 = 0x31;
pub const ABS: u8 = 0x32;
/// `clamp(x, lo, hi)` — pops `hi, lo, x` (x pushed first).
pub const CLAMP: u8 = 0x33;
pub const FLOOR: u8 = 0x34;
pub const TRUNC: u8 = 0x35;
/// Deterministic integer hash of two values to `[0, 1)` — pops `y, x`.
pub const HASH: u8 = 0x36;
/// `cond ? t : f` — pops `f, t, cond` (cond pushed first); a branchless select.
pub const SELECT: u8 = 0x40;
/// Table lookup (operand: `u16` table id, LE): pop an index, push
/// `table[clamp(index, 0, len-1)]` as a codepoint.
pub const TABLE: u8 = 0x50;

} // verus!
