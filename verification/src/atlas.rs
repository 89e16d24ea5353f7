//! The shared glyph atlas for the ASCII engine's structural method: each candidate glyph's
//! codepoint and its 8×8 ink bitmap, ordered sparse → structured → dense.

use vstd::prelude::*;

verus! {

/// Sub-cell patch height (rows), in samples.
pub const PATCH_ROWS: usize = 8;
/// Sub-cell patch width (columns), in samples.
pub const PATCH_COLS: usize = 8;
/// Total slots in one patch — the structural feature stride.
pub const PATCH_SLOTS: usize = 64;

/// One atlas entry: a Unicode codepoint and its 8×8 ink bitmap. Each `bits[row]` byte is a
/// row, bit `0x80` = leftmost column (col 0), bit `0x01` = col 7.
#[derive(Debug, Clone, Copy)]
pub struct Glyph {
    pub codepoint: u32,
    pub bits: [u8; 8],
}

/// The atlas as `(codepoint, rows)` pairs: `' '` first and `U+2588` (full block) last, so
/// the two density extremes anchor the set.
pub open spec fn atlas_table() -> Seq<(u32, Seq<u8>)> {
    seq![
        (0x20, seq![0x00, 0x00, 0x00, 0x00, 0x00, 0x00, 0x00, 0x00]),
        (0x27, seq![0x18, 0x18, 0x00, 0x00, 0x00, 0x00, 0x00, 0x00]),
        (0x2E, seq![0x00, 0x00, 0x00, 0x00, 0x00, 0x00, 0x18, 0x18]),
        (0x3A, seq![0x00, 0x18, 0x18, 0x00, 0x00, 0x18, 0x18, 0x00]),
        (0x5F, seq![0x00, 0x00, 0x00, 0x00, 0x00, 0x00, 0xFF, 0xFF]),
        (0x2D, seq![0x00, 0x00, 0x00, 0xFF, 0xFF, 0x00, 0x00, 0x00]),
        (0x7C, seq![0x18, 0x18, 0x18, 0x18, 0x18, 0x18, 0x18, 0x18]),
        (0x2F, seq![0x03, 0x06, 0x0C, 0x18, 0x30, 0x60, 0xC0, 0x80]),
        (0x5C, seq![0xC0, 0x60, 0x30, 0x18, 0x0C, 0x06, 0x03, 0x01]),
        (0x2B, seq![0x18, 0x18, 0x18, 0xFF, 0xFF, 0x18, 0x18, 0x18]),
        (0x78, seq![0xC3, 0x66, 0x3C, 0x18, 0x3C, 0x66, 0xC3, 0x81]),
        (0x6F, seq![0x00, 0x00, 0x3C, 0x66, 0x66, 0x3C, 0x00, 0x00]),
        (0x4F, seq![0x3C, 0x66, 0xC3, 0xC3, 0xC3, 0xC3, 0x66, 0x3C]),
        (0x23, seq![0x24, 0x24, 0xFF, 0x24, 0x24, 0xFF, 0x24, 0x24]),
        (0x40, seq![0x7E, 0xFF, 0xFF, 0xFF, 0xFF, 0xFF, 0xFF, 0x7E]),
        (0x2588, seq![0xFF, 0xFF, 0xFF, 0xFF, 0xFF, 0xFF, 0xFF, 0xFF]),
    ]
}

/// A Unicode scalar value: a codepoint that is not a surrogate and not above `U+10FFFF`.
pub open spec fn is_scalar(c: u32) -> bool {
    c <= 0x10FFFF && !(0xD800 <= c <= 0xDFFF)
}

/// The candidate glyphs, in atlas order.
pub fn atlas() -> (v: Vec<Glyph>)
    ensures
        v@.len() == atlas_table().len(),
        forall|i: int| 0 <= i < v@.len() ==> (#[trigger] v@[i]).codepoint == atlas_table()[i].0
            && v@[i].bits@ == atlas_table()[i].1,
{
    let mut v: Vec<Glyph> = Vec::new();
    // ' ' — empty (darkest).
    v.push(Glyph { codepoint: 0x20, bits: [0x00, 0x00, 0x00, 0x00, 0x00, 0x00, 0x00, 0x00] });
    // '\'' — top tick.
    v.push(Glyph { codepoint: 0x27, bits: [0x18, 0x18, 0x00, 0x00, 0x00, 0x00, 0x00, 0x00] });
    // '.' — bottom dot.
    v.push(Glyph { codepoint: 0x2E, bits: [0x00, 0x00, 0x00, 0x00, 0x00, 0x00, 0x18, 0x18] });
    // ':' — two dots.
    v.push(Glyph { codepoint: 0x3A, bits: [0x00, 0x18, 0x18, 0x00, 0x00, 0x18, 0x18, 0x00] });
    // '_' — bottom bar.
    v.push(Glyph { codepoint: 0x5F, bits: [0x00, 0x00, 0x00, 0x00, 0x00, 0x00, 0xFF, 0xFF] });
    // '-' — mid bar.
    v.push(Glyph { codepoint: 0x2D, bits: [0x00, 0x00, 0x00, 0xFF, 0xFF, 0x00, 0x00, 0x00] });
    // '|' — vertical bar.
    v.push(Glyph { codepoint: 0x7C, bits: [0x18, 0x18, 0x18, 0x18, 0x18, 0x18, 0x18, 0x18] });
    // '/' — forward diagonal.
    v.push(Glyph { codepoint: 0x2F, bits: [0x03, 0x06, 0x0C, 0x18, 0x30, 0x60, 0xC0, 0x80] });
    // '\\' — back diagonal.
    v.push(Glyph { codepoint: 0x5C, bits: [0xC0, 0x60, 0x30, 0x18, 0x0C, 0x06, 0x03, 0x01] });
    // '+' — cross.
    v.push(Glyph { codepoint: 0x2B, bits: [0x18, 0x18, 0x18, 0xFF, 0xFF, 0x18, 0x18, 0x18] });
    // 'x' — both diagonals.
    v.push(Glyph { codepoint: 0x78, bits: [0xC3, 0x66, 0x3C, 0x18, 0x3C, 0x66, 0xC3, 0x81] });
    // 'o' — small ring.
    v.push(Glyph { codepoint: 0x6F, bits: [0x00, 0x00, 0x3C, 0x66, 0x66, 0x3C, 0x00, 0x00] });
    // 'O' — large ring.
    v.push(Glyph { codepoint: 0x4F, bits: [0x3C, 0x66, 0xC3, 0xC3, 0xC3, 0xC3, 0x66, 0x3C] });
    // '#' — hatch.
    v.push(Glyph { codepoint: 0x23, bits: [0x24, 0x24, 0xFF, 0x24, 0x24, 0xFF, 0x24, 0x24] });
    // '@' — dense blob.
    v.push(Glyph { codepoint: 0x40, bits: [0x7E, 0xFF, 0xFF, 0xFF, 0xFF, 0xFF, 0xFF, 0x7E] });
    // '█' U+2588 — full block (brightest).
    v.push(Glyph { codepoint: 0x2588, bits: [0xFF, 0xFF, 0xFF, 0xFF, 0xFF, 0xFF, 0xFF, 0xFF] });
    proof {
        assert forall|i: int| 0 <= i < v@.len() implies (#[trigger] v@[i]).codepoint == atlas_table()[i].0
            && v@[i].bits@ == atlas_table()[i].1 by {
            assert(v@[i].bits@ =~= atlas_table()[i].1);
        }
    }
    v
}

/// Every glyph of the atlas is a valid character.
pub proof fn lemma_atlas_codepoints_are_scalars()
    ensures
        forall|i: int| 0 <= i < atlas_table().len() ==> is_scalar(#[trigger] atlas_table()[i].0),
{
}

/// Whether glyph bitmap `bits` has ink at `(row, col)`.
pub open spec fn ink_at(bits: Seq<u8>, row: int, col: int) -> bool {
    (bits[row] >> ((7 - col) as u8)) & 1 == 1
}

/// A bitmap row is read most significant bit first: column 0 is the row byte's bit of
/// weight 128, column 7 its bit of weight 1, so the byte is the sum, over its inked
/// columns `c`, of `2^(7 - c)`.
pub proof fn lemma_ink_columns_msb_first(bits: Seq<u8>, row: int)
    requires
        0 <= row < bits.len(),
    ensures
        bits[row] == (if ink_at(bits, row, 0) { 128int } else { 0 }) + (if ink_at(bits, row, 1) { 64int } else {
            0
        }) + (if ink_at(bits, row, 2) { 32int } else { 0 }) + (if ink_at(bits, row, 3) { 16int } else { 0 })
            + (if ink_at(bits, row, 4) { 8int } else { 0 }) + (if ink_at(bits, row, 5) { 4int } else { 0 }) + (
        if ink_at(bits, row, 6) {
            2int
        } else {
            0
        }) + (if ink_at(bits, row, 7) { 1int } else { 0 }),
{
    let v = bits[row];
    let i0 = ink_at(bits, row, 0);
    let i1 = ink_at(bits, row, 1);
    let i2 = ink_at(bits, row, 2);
    let i3 = ink_at(bits, row, 3);
    let i4 = ink_at(bits, row, 4);
    let i5 = ink_at(bits, row, 5);
    let i6 = ink_at(bits, row, 6);
    let i7 = ink_at(bits, row, 7);
    assert(i0 == ((v >> 7u8) & 1 == 1) && i1 == ((v >> 6u8) & 1 == 1) && i2 == ((v >> 5u8) & 1 == 1));
    assert(i3 == ((v >> 4u8) & 1 == 1) && i4 == ((v >> 3u8) & 1 == 1) && i5 == ((v >> 2u8) & 1 == 1));
    assert(i6 == ((v >> 1u8) & 1 == 1) && i7 == ((v >> 0u8) & 1 == 1));
    assert(v == (if (v >> 7u8) & 1 == 1 { 128u8 } else { 0u8 }) + (if (v >> 6u8) & 1 == 1 { 64u8 } else { 0u8 })
        + (if (v >> 5u8) & 1 == 1 { 32u8 } else { 0u8 }) + (if (v >> 4u8) & 1 == 1 { 16u8 } else { 0u8 }) + (
    if (v >> 3u8) & 1 == 1 {
        8u8
    } else {
        0u8
    }) + (if (v >> 2u8) & 1 == 1 { 4u8 } else { 0u8 }) + (if (v >> 1u8) & 1 == 1 { 2u8 } else { 0u8 }) + (if (v
        >> 0u8) & 1 == 1 {
        1u8
    } else {
        0u8
    })) by (bit_vector);
}

/// Whether `g` has ink at `(row, col)` of its 8×8 bitmap.
pub fn glyph_ink(g: &Glyph, row: usize, col: usize) -> (b: bool)
    requires
        row < PATCH_ROWS,
        col < PATCH_COLS,
    ensures
        b == ink_at(g.bits@, row as int, col as int),
{
    let shift: u8 = (7 - col) as u8;
    (g.bits[row] >> shift) & 1 == 1
}

} // verus!
