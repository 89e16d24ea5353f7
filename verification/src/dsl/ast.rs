//! The syntax tree the parser builds and the code generator walks.
//!
//! Every value of the language is an `f32`; constants are carried as the bit patterns of
//! their values, so the tree holds integers only.

use vstd::prelude::*;

verus! {

/// An expression, after parsing and desugaring.
#[derive(Debug)]
pub enum Expr {
    /// A constant: the bit pattern of its `f32` value.
    Num(u32),
    Feature(u16),
    Param(u16),
    /// A shared subexpression, by its index among the parser's bindings: a `let` binding,
    /// or an argument that a builtin uses more than once. Emitted where used.
    LetRef(usize),
    Neg(Box<Expr>),
    Not(Box<Expr>),
    /// A binary operation, by its opcode.
    Bin(u8, Box<Expr>, Box<Expr>),
    /// `a != b`: compiled to `EQ` then `NOT`.
    Ne(Box<Expr>, Box<Expr>),
    Ternary(Box<Expr>, Box<Expr>, Box<Expr>),
    /// `abs`, `floor`, `trunc`, by opcode.
    Op1(u8, Box<Expr>),
    /// `min`, `max`, `noise`, by opcode.
    Op2(u8, Box<Expr>, Box<Expr>),
    Clamp(Box<Expr>, Box<Expr>, Box<Expr>),
    Select(Box<Expr>, Box<Expr>, Box<Expr>),
    /// `ramp(v, set)`: the value, the glyph table's id and the set's length.
    Ramp(Box<Expr>, u16, usize),
    /// `glyph(i, set)`: the index and the glyph table's id.
    Glyph(Box<Expr>, u16),
}

/// Every shared reference in `e` names a binding below `k`.
pub open spec fn refs_below(e: Expr, k: int) -> bool
    decreases e,
{
    match e {
        Expr::Num(_) => true,
        Expr::Feature(_) => true,
        Expr::Param(_) => true,
        Expr::LetRef(i) => i < k,
        Expr::Neg(a) => refs_below(*a, k),
        Expr::Not(a) => refs_below(*a, k),
        Expr::Bin(_, a, b) => refs_below(*a, k) && refs_below(*b, k),
        Expr::Ne(a, b) => refs_below(*a, k) && refs_below(*b, k),
        Expr::Ternary(a, b, c) => refs_below(*a, k) && refs_below(*b, k) && refs_below(*c, k),
        Expr::Op1(_, a) => refs_below(*a, k),
        Expr::Op2(_, a, b) => refs_below(*a, k) && refs_below(*b, k),
        Expr::Clamp(a, b, c) => refs_below(*a, k) && refs_below(*b, k) && refs_below(*c, k),
        Expr::Select(a, b, c) => refs_below(*a, k) && refs_below(*b, k) && refs_below(*c, k),
        Expr::Ramp(a, _, _) => refs_below(*a, k),
        Expr::Glyph(a, _) => refs_below(*a, k),
    }
}

/// Each binding refers only to bindings made before it, so expanding references ends.
pub open spec fn binds_wf(binds: Seq<Expr>) -> bool {
    forall|i: int| 0 <= i < binds.len() ==> refs_below(#[trigger] binds[i], i)
}

pub proof fn lemma_refs_below_mono(e: Expr, k: int, k2: int)
    requires
        refs_below(e, k),
        k <= k2,
    ensures
        refs_below(e, k2),
    decreases e,
{
    match e {
        Expr::Neg(a) => lemma_refs_below_mono(*a, k, k2),
        Expr::Not(a) => lemma_refs_below_mono(*a, k, k2),
        Expr::Bin(_, a, b) => {
            lemma_refs_below_mono(*a, k, k2);
            lemma_refs_below_mono(*b, k, k2);
        },
        Expr::Ne(a, b) => {
            lemma_refs_below_mono(*a, k, k2);
            lemma_refs_below_mono(*b, k, k2);
        },
        Expr::Ternary(a, b, c) => {
            lemma_refs_below_mono(*a, k, k2);
            lemma_refs_below_mono(*b, k, k2);
            lemma_refs_below_mono(*c, k, k2);
        },
        Expr::Op1(_, a) => lemma_refs_below_mono(*a, k, k2),
        Expr::Op2(_, a, b) => {
            lemma_refs_below_mono(*a, k, k2);
            lemma_refs_below_mono(*b, k, k2);
        },
        Expr::Clamp(a, b, c) => {
            lemma_refs_below_mono(*a, k, k2);
            lemma_refs_below_mono(*b, k, k2);
            lemma_refs_below_mono(*c, k, k2);
        },
        Expr::Select(a, b, c) => {
            lemma_refs_below_mono(*a, k, k2);
            lemma_refs_below_mono(*b, k, k2);
            lemma_refs_below_mono(*c, k, k2);
        },
        Expr::Ramp(a, _, _) => lemma_refs_below_mono(*a, k, k2),
        Expr::Glyph(a, _) => lemma_refs_below_mono(*a, k, k2),
        _ => {},
    }
}

// ---- f32 encodings of small integers ----

/// `0.5` as an `f32` bit pattern.
pub const HALF_BITS: u32 = 0x3F00_0000;
/// `1.0` as an `f32` bit pattern.
pub const ONE_BITS: u32 = 0x3F80_0000;
/// `2.0` as an `f32` bit pattern.
pub const TWO_BITS: u32 = 0x4000_0000;
/// `3.0` as an `f32` bit pattern.
pub const THREE_BITS: u32 = 0x4040_0000;
/// The implicit leading bit of a normal `f32` significand, `2^23`.
pub const LEAD: u32 = 0x80_0000;

/// `2^k`.
pub open spec fn two_pow(k: nat) -> nat
    decreases k,
{
    if k == 0 {
        1
    } else {
        2 * two_pow((k - 1) as nat)
    }
}

/// `bits` is the `f32` encoding of the integer `n`: zero, or a positive normal number whose
/// significand `2^23 + fraction`, scaled by `2^(exponent - 150)`, is exactly `n`.
pub open spec fn encodes_int(bits: u32, n: nat) -> bool {
    if n == 0 {
        bits == 0
    } else {
        let e = bits as int / LEAD as int;
        let m = bits as int % LEAD as int;
        &&& bits < 0x8000_0000
        &&& 127 <= e <= 150
        &&& LEAD + m == n * two_pow((150 - e) as nat)
    }
}

/// Shift `m` left while it is below `2^23`, lowering the exponent `e` in step.
pub open spec fn normalize(m: nat, e: int) -> (nat, int)
    decreases 2 * LEAD - m,
{
    if m == 0 || m >= LEAD {
        (m, e)
    } else {
        normalize(2 * m, e - 1)
    }
}

/// The `f32` bit pattern of the integer `n` (exact below `2^24`).
pub open spec fn int_bits(n: nat) -> u32 {
    if n == 0 {
        0
    } else {
        let (m, e) = normalize(n, 150);
        (e * LEAD + (m - LEAD)) as u32
    }
}

proof fn lemma_normalize(n: nat, m: nat, e: int)
    requires
        0 < n,
        0 < m < 2 * LEAD,
        127 <= e <= 150,
        m == n * two_pow((150 - e) as nat),
    ensures
        ({
            let (m2, e2) = normalize(m, e);
            &&& LEAD <= m2 < 2 * LEAD
            &&& 127 <= e2 <= 150
            &&& m2 == n * two_pow((150 - e2) as nat)
        }),
    decreases 2 * LEAD - m,
{
    if m < LEAD {
        lemma_double(n, (150 - e) as nat);
        if e == 127 {
            lemma_two_pow_23();
            lemma_n_pow_ge(n, 23);
            assert(false);
        }
        lemma_normalize(n, 2 * m, e - 1);
    }
}

proof fn lemma_double(n: nat, k: nat)
    ensures
        n * two_pow(k + 1) == 2 * (n * two_pow(k)),
{
    assert(two_pow(k + 1) == 2 * two_pow(k));
    let t = two_pow(k);
    assert(n * (2 * t) == 2 * (n * t)) by (nonlinear_arith);
}

proof fn lemma_two_pow_23()
    ensures
        two_pow(23) == LEAD,
{
    reveal_with_fuel(two_pow, 24);
}

proof fn lemma_n_pow_ge(n: nat, k: nat)
    requires
        n >= 1,
    ensures
        n * two_pow(k) >= two_pow(k),
{
    assert(n * two_pow(k) >= 1 * two_pow(k)) by (nonlinear_arith)
        requires
            n >= 1,
    ;
}

/// The pattern [`int_bits`] gives an integer below `2^24` is that integer's `f32` encoding.
pub proof fn lemma_int_bits_encodes(n: nat)
    requires
        n < 2 * LEAD,
    ensures
        encodes_int(int_bits(n), n),
{
    if n > 0 {
        assert(((150 - 150int) as nat) == 0 && two_pow(0) == 1);
        assert(n == n * two_pow(0));
        lemma_normalize(n, n, 150);
        let (m, e) = normalize(n, 150);
        let b = e * LEAD + (m - LEAD);
        assert(b < 0x8000_0000);
        assert(b / (LEAD as int) == e && b % (LEAD as int) == m - LEAD) by {
            vstd::arithmetic::div_mod::lemma_fundamental_div_mod_converse(
                b,
                LEAD as int,
                e,
                m - LEAD,
            );
        }
    }
}

/// The `f32` bit pattern of the integer `n`.
pub fn int_to_bits(n: u32) -> (b: u32)
    requires
        n < 2 * LEAD,
    ensures
        b == int_bits(n as nat),
        encodes_int(b, n as nat),
{
    proof {
        lemma_int_bits_encodes(n as nat);
    }
    if n == 0 {
        return 0;
    }
    let mut m: u32 = n;
    let mut e: u32 = 150;
    proof {
        assert(((150 - 150int) as nat) == 0 && two_pow(0) == 1);
        assert(n == n * two_pow(0));
    }
    while m < LEAD
        invariant
            0 < n < 2 * LEAD,
            0 < m < 2 * LEAD,
            127 <= e <= 150,
            m == n * two_pow((150 - e) as nat),
            normalize(m as nat, e as int) == normalize(n as nat, 150),
        decreases 2 * LEAD - m,
    {
        proof {
            lemma_double(n as nat, (150 - e) as nat);
            assert((150 - (e - 1)) as nat == ((150 - e) as nat) + 1);
            if e == 127 {
                lemma_two_pow_23();
                lemma_n_pow_ge(n as nat, 23);
                assert(false);
            }
        }
        m = m * 2;
        e = e - 1;
    }
    e * LEAD + (m - LEAD)
}

} // verus!
