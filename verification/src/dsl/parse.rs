//! The parser: a token stream to a syntax tree, collecting the glyph tables that `ramp` and
//! `glyph` name and the shared subexpressions that `let` and the curve builtins introduce.
//!
//! The grammar, loosest first:
//!
//! ```text
//! expr    := "let" NAME "=" expr ";" expr | ternary
//! ternary := or ("?" ternary ":" ternary)?
//! or      := and ("||" and)*          and := cmp ("&&" cmp)*
//! cmp     := add (("<"|"<="|">"|">="|"=="|"!=") add)*
//! add     := mul (("+"|"-") mul)*     mul := unary (("*"|"/") unary)*
//! unary   := ("-"|"!") unary | primary
//! primary := NUMBER | CHAR | "(" expr ")" | NAME "(" args ")" | NAME
//! ```
//!
//! The specification below is written over plain values: [`Ctx`] is what the parser reads
//! and [`PState`] what it carries from step to step.

use vstd::prelude::*;

use crate::dsl::ast::{
    Expr, binds_wf, refs_below, int_bits, int_to_bits, lemma_refs_below_mono, ONE_BITS,
    TWO_BITS, THREE_BITS,
};
use crate::dsl::{Tok, TokV, tok_view, toks_view, CompileError, err, err_str, chars_of, copy_chars};
use crate::text::{debug_quoted, debug_text, string_of_chars};
use crate::vm::op;
use vstd::string::StringExecFns;

verus! {

/// How deeply expressions may nest; deeper sources are refused with an error.
pub const MAX_PARSE_DEPTH: usize = 256;

/// What the parser reads: the tokens with their byte offsets, the value (an `f32` bit
/// pattern) of each number token by position, the schema's feature names with their slots,
/// and its param names in order.
pub struct Ctx {
    pub toks: Seq<(TokV, nat)>,
    pub vals: Seq<u32>,
    pub feats: Seq<(Seq<char>, u16)>,
    pub params: Seq<Seq<char>>,
}

/// The parser's state: the position of the next token, the glyph tables collected so far,
/// the shared subexpressions, and the `let` names in scope with their binding indices.
pub struct PState {
    pub pos: int,
    pub tables: Seq<Seq<u32>>,
    pub binds: Seq<Expr>,
    pub scopes: Seq<(Seq<char>, usize)>,
}

/// The token at `p`.
pub open spec fn tok_at(c: Ctx, p: int) -> TokV {
    c.toks[p].0
}

/// The byte offset of the token at `p`.
pub open spec fn off_at(c: Ctx, p: int) -> nat {
    c.toks[p].1
}

/// `s`, moved to position `p`.
pub open spec fn moved(s: PState, p: int) -> PState {
    PState { pos: p, ..s }
}

/// A marker opcode standing for `!=`, which has no opcode of its own.
pub const NE_MARK: u8 = 0xFF;

/// The operator that token `t` stands for at binary level `lv` (0 `||`, 1 `&&`,
/// 2 comparisons, 3 `+ -`, 4 `* /`), if any.
pub open spec fn level_op(lv: nat, t: TokV) -> Option<u8> {
    if lv == 0 {
        if t is OrOr { Some(op::OR) } else { None }
    } else if lv == 1 {
        if t is AndAnd { Some(op::AND) } else { None }
    } else if lv == 2 {
        match t {
            TokV::Lt => Some(op::LT),
            TokV::Le => Some(op::LE),
            TokV::Gt => Some(op::GT),
            TokV::Ge => Some(op::GE),
            TokV::EqEq => Some(op::EQ),
            TokV::Ne => Some(NE_MARK),
            _ => None,
        }
    } else if lv == 3 {
        match t {
            TokV::Plus => Some(op::ADD),
            TokV::Minus => Some(op::SUB),
            _ => None,
        }
    } else if lv == 4 {
        match t {
            TokV::Star => Some(op::MUL),
            TokV::Slash => Some(op::DIV),
            _ => None,
        }
    } else {
        None
    }
}

/// `l opc r`.
pub open spec fn combine(opc: u8, l: Expr, r: Expr) -> Expr {
    if opc == NE_MARK {
        Expr::Ne(Box::new(l), Box::new(r))
    } else {
        Expr::Bin(opc, Box::new(l), Box::new(r))
    }
}

pub open spec fn sbin(opc: u8, a: Expr, b: Expr) -> Expr {
    Expr::Bin(opc, Box::new(a), Box::new(b))
}

/// `clamp(e, 0, 1)`.
pub open spec fn clamp01(e: Expr) -> Expr {
    Expr::Clamp(Box::new(e), Box::new(Expr::Num(0)), Box::new(Expr::Num(ONE_BITS)))
}

/// How a token that cannot start an operand is named in a diagnostic.
pub open spec fn tok_label(t: TokV) -> Seq<char> {
    match t {
        TokV::Num(_) => "Num"@,
        TokV::Ident(_) => "Ident"@,
        TokV::Char(_) => "Char"@,
        TokV::Str(s) => "Str("@ + debug_text(s) + ")"@,
        TokV::Plus => "Plus"@,
        TokV::Minus => "Minus"@,
        TokV::Star => "Star"@,
        TokV::Slash => "Slash"@,
        TokV::Lt => "Lt"@,
        TokV::Le => "Le"@,
        TokV::Gt => "Gt"@,
        TokV::Ge => "Ge"@,
        TokV::EqEq => "EqEq"@,
        TokV::Ne => "Ne"@,
        TokV::AndAnd => "AndAnd"@,
        TokV::OrOr => "OrOr"@,
        TokV::Bang => "Bang"@,
        TokV::Question => "Question"@,
        TokV::Colon => "Colon"@,
        TokV::Comma => "Comma"@,
        TokV::Eq => "Eq"@,
        TokV::Semi => "Semi"@,
        TokV::LParen => "LParen"@,
        TokV::RParen => "RParen"@,
        TokV::Eof => "Eof"@,
    }
}

/// The binding of the innermost `let` named `name` among the first `k` scopes.
pub open spec fn scope_find(scopes: Seq<(Seq<char>, usize)>, name: Seq<char>, k: int) -> Option<usize>
    decreases k,
{
    if k <= 0 || k > scopes.len() {
        None
    } else if scopes[k - 1].0 == name {
        Some(scopes[k - 1].1)
    } else {
        scope_find(scopes, name, k - 1)
    }
}

/// The slot of the first feature named `name`, from index `i` on.
pub open spec fn feature_find(feats: Seq<(Seq<char>, u16)>, name: Seq<char>, i: int) -> Option<u16>
    decreases feats.len() - i,
{
    if i < 0 || i >= feats.len() {
        None
    } else if feats[i].0 == name {
        Some(feats[i].1)
    } else {
        feature_find(feats, name, i + 1)
    }
}

/// The index of the first param named `name`, from index `i` on.
pub open spec fn param_find(params: Seq<Seq<char>>, name: Seq<char>, i: int) -> Option<int>
    decreases params.len() - i,
{
    if i < 0 || i >= params.len() {
        None
    } else if params[i] == name {
        Some(i)
    } else {
        param_find(params, name, i + 1)
    }
}

/// A bare name: the innermost `let` binding of that name, else the feature, else the param.
pub open spec fn name_ref(c: Ctx, s: PState, name: Seq<char>, pos: nat) -> Result<(Expr, PState), (nat, Seq<char>, Seq<Seq<u32>>)> {
    match scope_find(s.scopes, name, s.scopes.len() as int) {
        Some(idx) => Ok((Expr::LetRef(idx), s)),
        None => match feature_find(c.feats, name, 0) {
            Some(slot) => Ok((Expr::Feature(slot), s)),
            None => match param_find(c.params, name, 0) {
                Some(i) => Ok((Expr::Param(i as u16), s)),
                None => fail(s, pos, "unknown feature or param `"@ + name + "`"@),
            },
        },
    }
}

/// The number of expression arguments of the builtins that take only expressions.
#[verifier::opaque]
pub open spec fn call_arity(name: Seq<char>) -> Option<nat> {
    if name == "abs"@ || name == "floor"@ || name == "trunc"@ {
        Some(1)
    } else if name == "min"@ || name == "max"@ || name == "noise"@ {
        Some(2)
    } else if name == "clamp"@ || name == "select"@ || name == "mix"@ || name == "smoothstep"@ {
        Some(3)
    } else if name == "remap"@ {
        Some(5)
    } else {
        None
    }
}

/// `s` with `e` added as a shared binding.
pub open spec fn shared(s: PState, e: Expr) -> PState {
    PState { binds: s.binds.push(e), ..s }
}

/// The expression a builtin with expression arguments `a` stands for, and the state after
/// the bindings its desugaring shares.
#[verifier::opaque]
pub open spec fn build_call(name: Seq<char>, a: Seq<Expr>, s: PState) -> (Expr, PState) {
    if name == "abs"@ {
        (Expr::Op1(op::ABS, Box::new(a[0])), s)
    } else if name == "floor"@ {
        (Expr::Op1(op::FLOOR, Box::new(a[0])), s)
    } else if name == "trunc"@ {
        (Expr::Op1(op::TRUNC, Box::new(a[0])), s)
    } else if name == "min"@ {
        (Expr::Op2(op::MIN, Box::new(a[0]), Box::new(a[1])), s)
    } else if name == "max"@ {
        (Expr::Op2(op::MAX, Box::new(a[0]), Box::new(a[1])), s)
    } else if name == "noise"@ {
        (Expr::Op2(op::HASH, Box::new(a[0]), Box::new(a[1])), s)
    } else if name == "clamp"@ {
        (Expr::Clamp(Box::new(a[0]), Box::new(a[1]), Box::new(a[2])), s)
    } else if name == "select"@ {
        (Expr::Select(Box::new(a[0]), Box::new(a[1]), Box::new(a[2])), s)
    } else if name == "mix"@ {
        // a + (b - a) * t, with `a` shared
        let ra = Expr::LetRef(s.binds.len() as usize);
        (sbin(op::ADD, ra, sbin(op::MUL, sbin(op::SUB, a[1], ra), a[2])), shared(s, a[0]))
    } else if name == "remap"@ {
        // out_lo + (out_hi - out_lo) * clamp((x - in_lo) / (in_hi - in_lo), 0, 1)
        let r_in = Expr::LetRef(s.binds.len() as usize);
        let s1 = shared(s, a[1]);
        let t = clamp01(sbin(op::DIV, sbin(op::SUB, a[0], r_in), sbin(op::SUB, a[2], r_in)));
        let r_out = Expr::LetRef(s1.binds.len() as usize);
        (sbin(op::ADD, r_out, sbin(op::MUL, sbin(op::SUB, a[4], r_out), t)), shared(s1, a[3]))
    } else {
        // smoothstep: t * t * (3 - 2 * t), t = clamp((x - e0) / (e1 - e0), 0, 1)
        let r0 = Expr::LetRef(s.binds.len() as usize);
        let s1 = shared(s, a[0]);
        let t0 = clamp01(sbin(op::DIV, sbin(op::SUB, a[2], r0), sbin(op::SUB, a[1], r0)));
        let rt = Expr::LetRef(s1.binds.len() as usize);
        (
            sbin(
                op::MUL,
                sbin(op::MUL, rt, rt),
                sbin(op::SUB, Expr::Num(THREE_BITS), sbin(op::MUL, Expr::Num(TWO_BITS), rt)),
            ),
            shared(s1, t0),
        )
    }
}

/// The builtins that are one VM operator name that operator, over their arguments in
/// order: `min`, `max` and `noise` are `MIN`, `MAX` and `HASH` of their two arguments;
/// `abs`, `floor` and `trunc` are `ABS`, `FLOOR` and `TRUNC` of their one argument. None of
/// them binds anything.
pub proof fn lemma_builtin_operators(a: Seq<Expr>, s: PState)
    requires
        a.len() >= 2,
    ensures
        build_call("min"@, a, s) == (Expr::Op2(op::MIN, Box::new(a[0]), Box::new(a[1])), s),
        build_call("max"@, a, s) == (Expr::Op2(op::MAX, Box::new(a[0]), Box::new(a[1])), s),
        build_call("noise"@, a, s) == (Expr::Op2(op::HASH, Box::new(a[0]), Box::new(a[1])), s),
        build_call("abs"@, a, s) == (Expr::Op1(op::ABS, Box::new(a[0])), s),
        build_call("floor"@, a, s) == (Expr::Op1(op::FLOOR, Box::new(a[0])), s),
        build_call("trunc"@, a, s) == (Expr::Op1(op::TRUNC, Box::new(a[0])), s),
        op::MIN == 0x30u8 && op::MAX == 0x31u8 && op::HASH == 0x36u8,
{
    reveal(build_call);
    reveal_strlit("abs");
    reveal_strlit("floor");
    reveal_strlit("trunc");
    reveal_strlit("min");
    reveal_strlit("max");
    reveal_strlit("noise");
    assert("min"@ != "abs"@ && "min"@ != "floor"@ && "min"@ != "trunc"@) by {
        assert("min"@[0] != "abs"@[0] && "min"@[0] != "floor"@[0] && "min"@[0] != "trunc"@[0]);
    }
    assert("max"@ != "abs"@ && "max"@ != "floor"@ && "max"@ != "trunc"@ && "max"@ != "min"@) by {
        assert("max"@[0] != "abs"@[0] && "max"@[0] != "floor"@[0] && "max"@[0] != "trunc"@[0]);
        assert("max"@[1] != "min"@[1]);
    }
    assert("noise"@ != "abs"@ && "noise"@ != "floor"@ && "noise"@ != "trunc"@ && "noise"@ != "min"@
        && "noise"@ != "max"@) by {
        assert("noise"@[0] != "abs"@[0] && "noise"@[0] != "floor"@[0] && "noise"@[0] != "trunc"@[0]
            && "noise"@[0] != "min"@[0] && "noise"@[0] != "max"@[0]);
    }
    assert("floor"@ != "abs"@) by {
        assert("floor"@[0] != "abs"@[0]);
    }
    assert("trunc"@ != "abs"@ && "trunc"@ != "floor"@) by {
        assert("trunc"@[0] != "abs"@[0] && "trunc"@[0] != "floor"@[0]);
    }
}

/// The closing parenthesis of a call whose value is `e`.
pub open spec fn close_call(c: Ctx, s: PState, e: Expr) -> Result<(Expr, PState), (nat, Seq<char>, Seq<Seq<u32>>)> {
    if tok_at(c, s.pos) is RParen {
        Ok((e, moved(s, s.pos + 1)))
    } else {
        fail(s, off_at(c, s.pos), "expected `)` to close the call"@)
    }
}

/// The codepoints of a glyph set.
pub open spec fn codepoints(cs: Seq<char>) -> Seq<u32> {
    cs.map_values(|ch: char| ch as u32)
}

/// The `f32` bit pattern of `n - 1`: the top index of a glyph set of `n` characters, exact
/// for every set a program can hold (a longer set is refused before the program is built).
pub open spec fn top_index_bits(n: nat) -> u32 {
    if n >= 1 && n - 1 < 0x100_0000 {
        int_bits((n - 1) as nat)
    } else {
        0
    }
}

/// A parse failure at byte `p` with message `m`, in state `s`: the error, and the tables
/// the parser holds when it stops.
pub open spec fn fail<T>(s: PState, p: nat, m: Seq<char>) -> Result<(T, PState), (nat, Seq<char>, Seq<Seq<u32>>)> {
    Err((p, m, s.tables))
}

// ---- the grammar ----
//
// Each rule returns the expression and the state after it, or the error (byte offset and
// message). `d` is the nesting depth; the three-part measure (depth left, rule rank, tokens
// left) orders the rules so that every cycle of calls consumes depth or tokens.

/// `expr`: a `let` or a ternary.
pub open spec fn p_expr(c: Ctx, s: PState, d: int) -> Result<(Expr, PState), (nat, Seq<char>, Seq<Seq<u32>>)>
    decreases MAX_PARSE_DEPTH - d, 13int, c.toks.len() - s.pos,
{
    if tok_at(c, s.pos) == TokV::Ident("let"@) {
        p_let(c, s, d)
    } else {
        p_ternary(c, s, d)
    }
}

/// `let NAME = value ; body`, with `NAME` bound over `body` only.
pub open spec fn p_let(c: Ctx, s: PState, d: int) -> Result<(Expr, PState), (nat, Seq<char>, Seq<Seq<u32>>)>
    decreases MAX_PARSE_DEPTH - d, 12int, c.toks.len() - s.pos,
{
    if d + 1 > MAX_PARSE_DEPTH {
        fail(s, off_at(c, s.pos), "expression nests too deeply"@)
    } else {
        let np = s.pos + 1;
        match tok_at(c, np) {
            TokV::Ident(name) => if name == "let"@ {
                fail(s, off_at(c, np), "`let` is a reserved word"@)
            } else if !(tok_at(c, np + 1) is Eq) {
                fail(s, off_at(c, np + 1), "expected `=` after the let name"@)
            } else {
                match p_expr(c, moved(s, np + 2), d + 1) {
                    Err(e) => Err(e),
                    Ok((v, s1)) => if !(tok_at(c, s1.pos) is Semi) {
                        fail(s1, off_at(c, s1.pos), "expected `;` after the let value"@)
                    } else {
                        let idx = s1.binds.len() as usize;
                        let s2 = PState {
                            pos: s1.pos + 1,
                            binds: s1.binds.push(v),
                            scopes: s1.scopes.push((name, idx)),
                            ..s1
                        };
                        match p_expr(c, s2, d + 1) {
                            Err(e) => Err(e),
                            Ok((b, s3)) => Ok((b, PState { scopes: s3.scopes.drop_last(), ..s3 })),
                        }
                    },
                }
            },
            _ => fail(s, off_at(c, np), "expected a name after `let`"@),
        }
    }
}

/// `cond ? a : b`, right-associative.
pub open spec fn p_ternary(c: Ctx, s: PState, d: int) -> Result<(Expr, PState), (nat, Seq<char>, Seq<Seq<u32>>)>
    decreases MAX_PARSE_DEPTH - d, 11int, c.toks.len() - s.pos,
{
    match p_bin(c, s, d, 0) {
        Err(e) => Err(e),
        Ok((cond, s1)) => if tok_at(c, s1.pos) is Question {
            let s2 = moved(s1, s1.pos + 1);
            if !(s.pos < s2.pos <= c.toks.len()) {
                fail(s, 0, Seq::empty())
            } else {
                match p_ternary(c, s2, d) {
                    Err(e) => Err(e),
                    Ok((a, s3)) => if !(tok_at(c, s3.pos) is Colon) {
                        fail(s3, off_at(c, s3.pos), "expected `:` in ternary"@)
                    } else {
                        let s4 = moved(s3, s3.pos + 1);
                        if !(s.pos < s4.pos <= c.toks.len()) {
                            fail(s, 0, Seq::empty())
                        } else {
                            match p_ternary(c, s4, d) {
                                Err(e) => Err(e),
                                Ok((b, s5)) => Ok(
                                    (Expr::Ternary(Box::new(cond), Box::new(a), Box::new(b)), s5),
                                ),
                            }
                        }
                    },
                }
            }
        } else {
            Ok((cond, s1))
        },
    }
}

/// Binary level `lv`: an operand of the next level, then its operators, left to right.
pub open spec fn p_bin(c: Ctx, s: PState, d: int, lv: nat) -> Result<(Expr, PState), (nat, Seq<char>, Seq<Seq<u32>>)>
    decreases MAX_PARSE_DEPTH - d, 2 * (5 - lv), c.toks.len() - s.pos,
{
    if lv > 4 {
        fail(s, 0, Seq::empty())
    } else {
        match (if lv == 4 { p_unary(c, s, d) } else { p_bin(c, s, d, lv + 1) }) {
            Err(e) => Err(e),
            Ok((e, s1)) => p_rest(c, s1, d, lv, e),
        }
    }
}

/// The operators of level `lv` that follow the operand `lhs`.
pub open spec fn p_rest(c: Ctx, s: PState, d: int, lv: nat, lhs: Expr) -> Result<(Expr, PState), (nat, Seq<char>, Seq<Seq<u32>>)>
    decreases MAX_PARSE_DEPTH - d, 2 * (5 - lv) - 1, c.toks.len() - s.pos,
{
    if lv > 4 {
        fail(s, 0, Seq::empty())
    } else {
        match level_op(lv, tok_at(c, s.pos)) {
            None => Ok((lhs, s)),
            Some(opc) => {
                let s1 = moved(s, s.pos + 1);
                match (if lv == 4 { p_unary(c, s1, d) } else { p_bin(c, s1, d, lv + 1) }) {
                    Err(e) => Err(e),
                    Ok((r, s2)) => if !(s.pos < s2.pos <= c.toks.len()) {
                        fail(s, 0, Seq::empty())
                    } else {
                        p_rest(c, s2, d, lv, combine(opc, lhs, r))
                    },
                }
            },
        }
    }
}

/// A unary operand, one level deeper.
pub open spec fn p_unary(c: Ctx, s: PState, d: int) -> Result<(Expr, PState), (nat, Seq<char>, Seq<Seq<u32>>)>
    decreases MAX_PARSE_DEPTH - d, 0int, c.toks.len() - s.pos,
{
    if d + 1 > MAX_PARSE_DEPTH {
        fail(s, off_at(c, s.pos), "expression nests too deeply"@)
    } else {
        p_unary_inner(c, s, d + 1)
    }
}

/// `-x`, `!x`, or a primary.
pub open spec fn p_unary_inner(c: Ctx, s: PState, d: int) -> Result<(Expr, PState), (nat, Seq<char>, Seq<Seq<u32>>)>
    decreases MAX_PARSE_DEPTH - d, 17int, c.toks.len() - s.pos,
{
    if tok_at(c, s.pos) is Minus {
        match p_unary(c, moved(s, s.pos + 1), d) {
            Err(e) => Err(e),
            Ok((e, s1)) => Ok((Expr::Neg(Box::new(e)), s1)),
        }
    } else if tok_at(c, s.pos) is Bang {
        match p_unary(c, moved(s, s.pos + 1), d) {
            Err(e) => Err(e),
            Ok((e, s1)) => Ok((Expr::Not(Box::new(e)), s1)),
        }
    } else {
        p_primary(c, s, d)
    }
}

/// A number, a char literal, a parenthesized expression, a call, or a name.
pub open spec fn p_primary(c: Ctx, s: PState, d: int) -> Result<(Expr, PState), (nat, Seq<char>, Seq<Seq<u32>>)>
    decreases MAX_PARSE_DEPTH - d, 16int, c.toks.len() - s.pos,
{
    let s1 = moved(s, s.pos + 1);
    let pos = off_at(c, s.pos);
    match tok_at(c, s.pos) {
        TokV::Num(_) => Ok((Expr::Num(c.vals[s.pos]), s1)),
        TokV::Char(ch) => Ok((Expr::Num(int_bits(ch as nat)), s1)),
        TokV::LParen => match p_expr(c, s1, d) {
            Err(e) => Err(e),
            Ok((e, s2)) => if tok_at(c, s2.pos) is RParen {
                Ok((e, moved(s2, s2.pos + 1)))
            } else {
                fail(s2, off_at(c, s2.pos), "expected `)`"@)
            },
        },
        TokV::Ident(name) => if tok_at(c, s1.pos) is LParen {
            p_call(c, s1, d, name, pos)
        } else {
            name_ref(c, s1, name, pos)
        },
        t => fail(s, pos, "unexpected token in expression: "@ + tok_label(t)),
    }
}

/// A call of the builtin `name` (written at byte `pos`), from its opening parenthesis.
pub open spec fn p_call(c: Ctx, s: PState, d: int, name: Seq<char>, pos: nat) -> Result<(Expr, PState), (nat, Seq<char>, Seq<Seq<u32>>)>
    decreases MAX_PARSE_DEPTH - d, 15int, c.toks.len() - s.pos,
{
    let s1 = moved(s, s.pos + 1);
    match call_arity(name) {
        Some(n) => match p_args(c, s1, d, n, Seq::empty()) {
            Err(e) => Err(e),
            Ok((a, s2)) => {
                let (e, s3) = build_call(name, a, s2);
                close_call(c, s3, e)
            },
        },
        None => if name == "ramp"@ || name == "glyph"@ {
            p_set_call(c, s1, d, name)
        } else {
            fail(s, pos, "unknown function `"@ + name + "`"@)
        },
    }
}

/// The arguments of `ramp` or `glyph`: an expression, then a glyph set.
pub open spec fn p_set_call(c: Ctx, s: PState, d: int, name: Seq<char>) -> Result<(Expr, PState), (nat, Seq<char>, Seq<Seq<u32>>)>
    decreases MAX_PARSE_DEPTH - d, 14int, c.toks.len() - s.pos,
{
    match p_expr(c, s, d) {
        Err(e) => Err(e),
        Ok((v, s2)) => glyph_set_arg(c, s2, v, name),
    }
}

/// After the first argument `v` of `ramp` or `glyph`: the comma, the glyph set (added as a
/// table), and the closing parenthesis.
pub open spec fn glyph_set_arg(c: Ctx, s: PState, v: Expr, name: Seq<char>) -> Result<(Expr, PState), (nat, Seq<char>, Seq<Seq<u32>>)> {
    if !(tok_at(c, s.pos) is Comma) {
        fail(s, off_at(c, s.pos), "expected `,`"@)
    } else {
        match tok_at(c, s.pos + 1) {
            TokV::Str(set) => if set.len() == 0 {
                fail(
                    s,
                    off_at(c, s.pos + 1),
                    if name == "ramp"@ {
                        "ramp glyph set is empty"@
                    } else {
                        "glyph set is empty"@
                    },
                )
            } else {
                let id = s.tables.len() as u16;
                let s3 = PState { pos: s.pos + 2, tables: s.tables.push(codepoints(set)), ..s };
                close_call(
                    c,
                    s3,
                    if name == "ramp"@ {
                        Expr::Ramp(Box::new(v), id, set.len() as usize)
                    } else {
                        Expr::Glyph(Box::new(v), id)
                    },
                )
            },
            _ => fail(s, off_at(c, s.pos + 1), "expected a string literal (glyph set)"@),
        }
    }
}

/// `n` comma-separated expression arguments, appended to `acc`.
pub open spec fn p_args(c: Ctx, s: PState, d: int, n: nat, acc: Seq<Expr>) -> Result<(Seq<Expr>, PState), (nat, Seq<char>, Seq<Seq<u32>>)>
    decreases MAX_PARSE_DEPTH - d, 14int, c.toks.len() - s.pos,
{
    match p_expr(c, s, d) {
        Err(e) => Err(e),
        Ok((a, s1)) => if n <= 1 {
            Ok((acc.push(a), s1))
        } else if !(tok_at(c, s1.pos) is Comma) {
            fail(s1, off_at(c, s1.pos), "expected `,`"@)
        } else {
            let s2 = moved(s1, s1.pos + 1);
            if !(s.pos < s2.pos <= c.toks.len()) {
                fail(s, 0, Seq::empty())
            } else {
                p_args(c, s2, d, (n - 1) as nat, acc.push(a))
            }
        },
    }
}

/// A whole token stream: one expression, then the end of input.
pub open spec fn p_source(c: Ctx) -> Result<(Expr, PState), (nat, Seq<char>, Seq<Seq<u32>>)> {
    let s0 = PState { pos: 0, tables: Seq::empty(), binds: Seq::empty(), scopes: Seq::empty() };
    match p_expr(c, s0, 0) {
        Err(e) => Err(e),
        Ok((e, s)) => if tok_at(c, s.pos) is Eof {
            Ok((e, s))
        } else {
            fail(s, off_at(c, s.pos), "unexpected trailing input"@)
        },
    }
}


// ---- the parser ----

/// What the parser reads, as executable values.
pub struct Cx<'a> {
    pub toks: &'a Vec<(Tok, usize)>,
    pub vals: &'a Vec<u32>,
    pub feats: Vec<(Vec<char>, u16)>,
    pub params: Vec<Vec<char>>,
}

impl<'a> Cx<'a> {
    pub open spec fn ctx(&self) -> Ctx {
        Ctx {
            toks: toks_view(self.toks@),
            vals: self.vals@,
            feats: self.feats@.map_values(|f: (Vec<char>, u16)| (f.0@, f.1)),
            params: self.params@.map_values(|p: Vec<char>| p@),
        }
    }

    /// The stream ends with `Eof`, and every token has a number value slot.
    pub open spec fn wf(&self) -> bool {
        &&& 1 <= self.toks@.len() <= usize::MAX
        &&& self.toks@.last().0 is Eof
        &&& self.vals@.len() == self.toks@.len()
    }
}

/// The parser's state, as executable values.
pub struct St {
    pub pos: usize,
    pub tables: Vec<Vec<u32>>,
    pub binds: Vec<Expr>,
    pub scopes: Vec<(Vec<char>, usize)>,
}

impl St {
    pub open spec fn ps(&self) -> PState {
        PState {
            pos: self.pos as int,
            tables: self.tables@.map_values(|t: Vec<u32>| t@),
            binds: self.binds@,
            scopes: self.scopes@.map_values(|p: (Vec<char>, usize)| (p.0@, p.1)),
        }
    }

    /// Inside a stream of `n` tokens, with acyclic bindings and scopes naming bindings.
    pub open spec fn wf(&self, n: nat) -> bool {
        &&& self.pos < n
        &&& binds_wf(self.binds@)
        &&& forall|j: int| 0 <= j < self.scopes@.len() ==> (#[trigger] self.scopes@[j]).1 < self.binds@.len()
    }
}

/// The executable result `r`, with the state `after`, is what the rule specified gives.
pub open spec fn parsed(r: Result<Expr, CompileError>, after: PState, want: Result<(Expr, PState), (nat, Seq<char>, Seq<Seq<u32>>)>) -> bool {
    match want {
        Ok((e, s)) => r matches Ok(x) && x == e && after == s,
        Err((p, m, t)) => r matches Err(x) && x.pos == p && x.message@ == m && after.tables == t,
    }
}

/// A successful step keeps the state well formed, consumes tokens, only adds bindings,
/// and returns an expression over the bindings made so far.
pub open spec fn advanced(r: Result<Expr, CompileError>, before: St, after: St, n: nat) -> bool {
    r matches Ok(e) ==> {
        &&& after.wf(n)
        &&& before.pos < after.pos
        &&& before.binds@.len() <= after.binds@.len()
        &&& after.scopes@ == before.scopes@
        &&& refs_below(e, after.binds@.len() as int)
    }
}

proof fn lemma_binds_push(b: Seq<Expr>, e: Expr)
    requires
        binds_wf(b),
        refs_below(e, b.len() as int),
    ensures
        binds_wf(b.push(e)),
{
    assert forall|i: int| 0 <= i < b.push(e).len() implies refs_below(#[trigger] b.push(e)[i], i) by {
        if i < b.len() {
            assert(b.push(e)[i] == b[i]);
        }
    }
}

proof fn lemma_not_last(cx: &Cx, p: int)
    requires
        cx.wf(),
        0 <= p < cx.toks@.len(),
        !(cx.toks@[p].0 is Eof),
    ensures
        p + 1 < cx.toks@.len(),
{
}

fn chars_eq(a: &Vec<char>, b: &Vec<char>) -> (r: bool)
    ensures
        r == (a@ == b@),
{
    if a.len() != b.len() {
        return false;
    }
    let mut i: usize = 0;
    while i < a.len()
        invariant
            a@.len() == b@.len(),
            i <= a@.len(),
            forall|j: int| 0 <= j < i ==> a@[j] == b@[j],
        decreases a@.len() - i,
    {
        if a[i] != b[i] {
            return false;
        }
        i += 1;
    }
    assert(a@ =~= b@);
    true
}

fn is_word(n: &Vec<char>, w: &str) -> (r: bool)
    ensures
        r == (n@ == w@),
{
    let wc = chars_of(w);
    chars_eq(n, &wc)
}

fn level_op_exec(t: &Tok, lv: usize) -> (r: Option<u8>)
    requires
        lv <= 4,
    ensures
        r == level_op(lv as nat, tok_view(*t)),
{
    match t {
        Tok::OrOr => if lv == 0 { Some(op::OR) } else { None },
        Tok::AndAnd => if lv == 1 { Some(op::AND) } else { None },
        Tok::Lt => if lv == 2 { Some(op::LT) } else { None },
        Tok::Le => if lv == 2 { Some(op::LE) } else { None },
        Tok::Gt => if lv == 2 { Some(op::GT) } else { None },
        Tok::Ge => if lv == 2 { Some(op::GE) } else { None },
        Tok::EqEq => if lv == 2 { Some(op::EQ) } else { None },
        Tok::Ne => if lv == 2 { Some(NE_MARK) } else { None },
        Tok::Plus => if lv == 3 { Some(op::ADD) } else { None },
        Tok::Minus => if lv == 3 { Some(op::SUB) } else { None },
        Tok::Star => if lv == 4 { Some(op::MUL) } else { None },
        Tok::Slash => if lv == 4 { Some(op::DIV) } else { None },
        _ => None,
    }
}

fn combine_exec(opc: u8, l: Expr, r: Expr) -> (e: Expr)
    ensures
        e == combine(opc, l, r),
{
    if opc == NE_MARK {
        Expr::Ne(Box::new(l), Box::new(r))
    } else {
        Expr::Bin(opc, Box::new(l), Box::new(r))
    }
}

/// `expr`.
fn expr(cx: &Cx, st: &mut St, d: usize) -> (r: Result<Expr, CompileError>)
    requires
        cx.wf(),
        old(st).wf(cx.toks@.len()),
        d <= MAX_PARSE_DEPTH,
    ensures
        parsed(r, final(st).ps(), p_expr(cx.ctx(), old(st).ps(), d as int)),
        advanced(r, *old(st), *final(st), cx.toks@.len()),
    decreases MAX_PARSE_DEPTH - d, 13int, cx.toks@.len() - old(st).pos,
{
    let is_let = match &cx.toks[st.pos].0 {
        Tok::Ident(n) => is_word(n, "let"),
        _ => false,
    };
    if is_let {
        parse_let(cx, st, d)
    } else {
        ternary(cx, st, d)
    }
}

/// `let NAME = value ; body`.
fn parse_let(cx: &Cx, st: &mut St, d: usize) -> (r: Result<Expr, CompileError>)
    requires
        cx.wf(),
        old(st).wf(cx.toks@.len()),
        d <= MAX_PARSE_DEPTH,
        cx.toks@[old(st).pos as int].0 is Ident,
    ensures
        parsed(r, final(st).ps(), p_let(cx.ctx(), old(st).ps(), d as int)),
        advanced(r, *old(st), *final(st), cx.toks@.len()),
    decreases MAX_PARSE_DEPTH - d, 12int, cx.toks@.len() - old(st).pos,
{
    if d + 1 > MAX_PARSE_DEPTH {
        return err_str(cx.toks[st.pos].1, "expression nests too deeply");
    }
    proof {
        lemma_not_last(cx, st.pos as int);
    }
    let np = st.pos + 1;
    let name: Vec<char> = match &cx.toks[np].0 {
        Tok::Ident(v) => {
            let c = copy_chars(v, 0, v.len());
            assert(c@ =~= v@);
            c
        },
        _ => {
            return err_str(cx.toks[np].1, "expected a name after `let`");
        },
    };
    if is_word(&name, "let") {
        return err_str(cx.toks[np].1, "`let` is a reserved word");
    }
    proof {
        lemma_not_last(cx, np as int);
    }
    if !matches!(cx.toks[np + 1].0, Tok::Eq) {
        return err_str(cx.toks[np + 1].1, "expected `=` after the let name");
    }
    proof {
        lemma_not_last(cx, np + 1);
    }
    st.pos = np + 2;
    let value = match expr(cx, st, d + 1) {
        Ok(v) => v,
        Err(x) => return Err(x),
    };
    if !matches!(cx.toks[st.pos].0, Tok::Semi) {
        return err_str(cx.toks[st.pos].1, "expected `;` after the let value");
    }
    proof {
        lemma_not_last(cx, st.pos as int);
    }
    let ghost s1 = st.ps();
    let ghost sc1 = st.scopes@;
    let idx = st.binds.len();
    st.pos = st.pos + 1;
    proof {
        lemma_binds_push(st.binds@, value);
    }
    st.binds.push(value);
    st.scopes.push((name, idx));
    proof {
        assert(st.ps().scopes =~= s1.scopes.push((name@, idx)));
        assert(st.ps().tables =~= s1.tables);
        assert forall|j: int| 0 <= j < st.scopes@.len() implies (#[trigger] st.scopes@[j]).1
            < st.binds@.len() by {
            if j < sc1.len() {
                assert(st.scopes@[j] == sc1[j]);
            }
        }
    }
    let body = match expr(cx, st, d + 1) {
        Ok(b) => b,
        Err(x) => return Err(x),
    };
    let ghost s3 = st.ps();
    let ghost sc3 = st.scopes@;
    st.scopes.pop();
    proof {
        assert(sc3 == sc1.push((name, idx)));
        assert(st.scopes@ =~= sc1);
        assert(st.ps().scopes =~= s3.scopes.drop_last());
    }
    Ok(body)
}


/// `cond ? a : b`.
fn ternary(cx: &Cx, st: &mut St, d: usize) -> (r: Result<Expr, CompileError>)
    requires
        cx.wf(),
        old(st).wf(cx.toks@.len()),
        d <= MAX_PARSE_DEPTH,
    ensures
        parsed(r, final(st).ps(), p_ternary(cx.ctx(), old(st).ps(), d as int)),
        advanced(r, *old(st), *final(st), cx.toks@.len()),
    decreases MAX_PARSE_DEPTH - d, 11int, cx.toks@.len() - old(st).pos,
{
    let cond = match bin(cx, st, d, 0) {
        Ok(e) => e,
        Err(x) => return Err(x),
    };
    if matches!(cx.toks[st.pos].0, Tok::Question) {
        proof {
            lemma_not_last(cx, st.pos as int);
        }
        st.pos = st.pos + 1;
        let ghost n1 = st.binds@.len();
        let a = match ternary(cx, st, d) {
            Ok(e) => e,
            Err(x) => return Err(x),
        };
        if !matches!(cx.toks[st.pos].0, Tok::Colon) {
            return err_str(cx.toks[st.pos].1, "expected `:` in ternary");
        }
        proof {
            lemma_not_last(cx, st.pos as int);
        }
        st.pos = st.pos + 1;
        let ghost n2 = st.binds@.len();
        let b = match ternary(cx, st, d) {
            Ok(e) => e,
            Err(x) => return Err(x),
        };
        proof {
            lemma_refs_below_mono(cond, n1 as int, st.binds@.len() as int);
            lemma_refs_below_mono(a, n2 as int, st.binds@.len() as int);
        }
        Ok(Expr::Ternary(Box::new(cond), Box::new(a), Box::new(b)))
    } else {
        Ok(cond)
    }
}

/// Binary level `lv`.
fn bin(cx: &Cx, st: &mut St, d: usize, lv: usize) -> (r: Result<Expr, CompileError>)
    requires
        cx.wf(),
        old(st).wf(cx.toks@.len()),
        d <= MAX_PARSE_DEPTH,
        lv <= 4,
    ensures
        parsed(r, final(st).ps(), p_bin(cx.ctx(), old(st).ps(), d as int, lv as nat)),
        advanced(r, *old(st), *final(st), cx.toks@.len()),
    decreases MAX_PARSE_DEPTH - d, 2 * (5 - lv), cx.toks@.len() - old(st).pos,
{
    let first = if lv == 4 {
        unary(cx, st, d)
    } else {
        bin(cx, st, d, lv + 1)
    };
    let mut e = match first {
        Ok(e) => e,
        Err(x) => return Err(x),
    };
    let mut done = false;
    while !done
        invariant
            cx.wf(),
            st.wf(cx.toks@.len()),
            d <= MAX_PARSE_DEPTH,
            lv <= 4,
            p_bin(cx.ctx(), old(st).ps(), d as int, lv as nat) == (if done {
                Ok((e, st.ps()))
            } else {
                p_rest(cx.ctx(), st.ps(), d as int, lv as nat, e)
            }),
            refs_below(e, st.binds@.len() as int),
            old(st).pos < st.pos,
            old(st).binds@.len() <= st.binds@.len(),
            st.scopes@ == old(st).scopes@,
        decreases cx.toks@.len() - st.pos + (if done { 0int } else { 1int }),
    {
        let ghost before = st.ps();
        match level_op_exec(&cx.toks[st.pos].0, lv) {
            None => {
                done = true;
            },
            Some(opc) => {
                proof {
                    lemma_not_last(cx, st.pos as int);
                }
                st.pos = st.pos + 1;
                let ghost nb = st.binds@.len();
                let rhs = if lv == 4 {
                    unary(cx, st, d)
                } else {
                    bin(cx, st, d, lv + 1)
                };
                let rhs = match rhs {
                    Ok(x) => x,
                    Err(x) => return Err(x),
                };
                proof {
                    lemma_refs_below_mono(e, nb as int, st.binds@.len() as int);
                }
                e = combine_exec(opc, e, rhs);
            },
        }
    }
    Ok(e)
}

/// A unary operand, one level deeper.
fn unary(cx: &Cx, st: &mut St, d: usize) -> (r: Result<Expr, CompileError>)
    requires
        cx.wf(),
        old(st).wf(cx.toks@.len()),
        d <= MAX_PARSE_DEPTH,
    ensures
        parsed(r, final(st).ps(), p_unary(cx.ctx(), old(st).ps(), d as int)),
        advanced(r, *old(st), *final(st), cx.toks@.len()),
    decreases MAX_PARSE_DEPTH - d, 0int, cx.toks@.len() - old(st).pos,
{
    if d + 1 > MAX_PARSE_DEPTH {
        return err_str(cx.toks[st.pos].1, "expression nests too deeply");
    }
    unary_inner(cx, st, d + 1)
}

/// `-x`, `!x`, or a primary.
fn unary_inner(cx: &Cx, st: &mut St, d: usize) -> (r: Result<Expr, CompileError>)
    requires
        cx.wf(),
        old(st).wf(cx.toks@.len()),
        d <= MAX_PARSE_DEPTH,
    ensures
        parsed(r, final(st).ps(), p_unary_inner(cx.ctx(), old(st).ps(), d as int)),
        advanced(r, *old(st), *final(st), cx.toks@.len()),
    decreases MAX_PARSE_DEPTH - d, 17int, cx.toks@.len() - old(st).pos,
{
    let neg = matches!(cx.toks[st.pos].0, Tok::Minus);
    if neg || matches!(cx.toks[st.pos].0, Tok::Bang) {
        proof {
            lemma_not_last(cx, st.pos as int);
        }
        st.pos = st.pos + 1;
        match unary(cx, st, d) {
            Ok(e) => if neg {
                Ok(Expr::Neg(Box::new(e)))
            } else {
                Ok(Expr::Not(Box::new(e)))
            },
            Err(x) => Err(x),
        }
    } else {
        primary(cx, st, d)
    }
}

fn tok_label_exec(t: &Tok) -> (s: String)
    ensures
        s@ == tok_label(tok_view(*t)),
{
    match t {
        Tok::Num(_) => "Num".to_owned(),
        Tok::Ident(_) => "Ident".to_owned(),
        Tok::Char(_) => "Char".to_owned(),
        Tok::Str(v) => {
            let text = string_of_chars(v);
            let q = debug_quoted(text.as_str());
            let mut m = String::new();
            m.append("Str(");
            m.append(q.as_str());
            m.append(")");
            m
        },
        Tok::Plus => "Plus".to_owned(),
        Tok::Minus => "Minus".to_owned(),
        Tok::Star => "Star".to_owned(),
        Tok::Slash => "Slash".to_owned(),
        Tok::Lt => "Lt".to_owned(),
        Tok::Le => "Le".to_owned(),
        Tok::Gt => "Gt".to_owned(),
        Tok::Ge => "Ge".to_owned(),
        Tok::EqEq => "EqEq".to_owned(),
        Tok::Ne => "Ne".to_owned(),
        Tok::AndAnd => "AndAnd".to_owned(),
        Tok::OrOr => "OrOr".to_owned(),
        Tok::Bang => "Bang".to_owned(),
        Tok::Question => "Question".to_owned(),
        Tok::Colon => "Colon".to_owned(),
        Tok::Comma => "Comma".to_owned(),
        Tok::Eq => "Eq".to_owned(),
        Tok::Semi => "Semi".to_owned(),
        Tok::LParen => "LParen".to_owned(),
        Tok::RParen => "RParen".to_owned(),
        Tok::Eof => "Eof".to_owned(),
    }
}

/// A number, a char literal, a parenthesized expression, a call, or a name.
#[verifier::rlimit(40)]
#[verifier::spinoff_prover]
fn primary(cx: &Cx, st: &mut St, d: usize) -> (r: Result<Expr, CompileError>)
    requires
        cx.wf(),
        old(st).wf(cx.toks@.len()),
        d <= MAX_PARSE_DEPTH,
    ensures
        parsed(r, final(st).ps(), p_primary(cx.ctx(), old(st).ps(), d as int)),
        advanced(r, *old(st), *final(st), cx.toks@.len()),
    decreases MAX_PARSE_DEPTH - d, 16int, cx.toks@.len() - old(st).pos,
{
    let p = st.pos;
    let pos = cx.toks[p].1;
    match &cx.toks[p].0 {
        Tok::Num(_) => {
            proof {
                lemma_not_last(cx, p as int);
            }
            st.pos = p + 1;
            Ok(Expr::Num(cx.vals[p]))
        },
        Tok::Char(ch) => {
            proof {
                lemma_not_last(cx, p as int);
            }
            st.pos = p + 1;
            let c = *ch;
            assert((c as u32) <= 0x10FFFF);
            Ok(Expr::Num(int_to_bits(c as u32)))
        },
        Tok::LParen => {
            proof {
                lemma_not_last(cx, p as int);
            }
            st.pos = p + 1;
            let e = match expr(cx, st, d) {
                Ok(e) => e,
                Err(x) => return Err(x),
            };
            if !matches!(cx.toks[st.pos].0, Tok::RParen) {
                return err_str(cx.toks[st.pos].1, "expected `)`");
            }
            proof {
                lemma_not_last(cx, st.pos as int);
            }
            st.pos = st.pos + 1;
            Ok(e)
        },
        Tok::Ident(name) => {
            proof {
                lemma_not_last(cx, p as int);
            }
            st.pos = p + 1;
            if matches!(cx.toks[st.pos].0, Tok::LParen) {
                call(cx, st, d, name, pos)
            } else {
                name_ref_exec(cx, st, name, pos)
            }
        },
        t => {
            let label = tok_label_exec(t);
            let mut m = String::new();
            m.append("unexpected token in expression: ");
            m.append(label.as_str());
            err(pos, m)
        },
    }
}

/// A bare name.
fn name_ref_exec(cx: &Cx, st: &St, name: &Vec<char>, pos: usize) -> (r: Result<Expr, CompileError>)
    requires
        cx.wf(),
        st.wf(cx.toks@.len()),
    ensures
        parsed(r, st.ps(), name_ref(cx.ctx(), st.ps(), name@, pos as nat)),
        r matches Ok(e) ==> refs_below(e, st.binds@.len() as int),
{
    let ghost sv = st.ps().scopes;
    let mut k = st.scopes.len();
    while k > 0
        invariant
            k <= st.scopes@.len(),
            st.wf(cx.toks@.len()),
            sv == st.ps().scopes,
            scope_find(sv, name@, sv.len() as int) == scope_find(sv, name@, k as int),
        decreases k,
    {
        if chars_eq(&st.scopes[k - 1].0, name) {
            proof {
                assert(st.scopes@[k - 1].1 < st.binds@.len());
                assert(sv[k - 1] == (st.scopes@[k - 1].0@, st.scopes@[k - 1].1));
            }
            return Ok(Expr::LetRef(st.scopes[k - 1].1));
        }
        proof {
            assert(sv[k - 1] == (st.scopes@[k - 1].0@, st.scopes@[k - 1].1));
        }
        k -= 1;
    }
    let ghost fv = cx.ctx().feats;
    let mut i: usize = 0;
    while i < cx.feats.len()
        invariant
            i <= cx.feats@.len(),
            fv == cx.ctx().feats,
            scope_find(sv, name@, sv.len() as int) is None,
            sv == st.ps().scopes,
            feature_find(fv, name@, 0) == feature_find(fv, name@, i as int),
        decreases cx.feats@.len() - i,
    {
        proof {
            assert(fv[i as int] == (cx.feats@[i as int].0@, cx.feats@[i as int].1));
        }
        if chars_eq(&cx.feats[i].0, name) {
            return Ok(Expr::Feature(cx.feats[i].1));
        }
        i += 1;
    }
    let ghost pv = cx.ctx().params;
    let mut j: usize = 0;
    while j < cx.params.len()
        invariant
            j <= cx.params@.len(),
            pv == cx.ctx().params,
            scope_find(sv, name@, sv.len() as int) is None,
            sv == st.ps().scopes,
            feature_find(fv, name@, 0) is None,
            fv == cx.ctx().feats,
            param_find(pv, name@, 0) == param_find(pv, name@, j as int),
        decreases cx.params@.len() - j,
    {
        proof {
            assert(pv[j as int] == cx.params@[j as int]@);
        }
        if chars_eq(&cx.params[j], name) {
            let slot: u16 = #[verifier::truncate] (j as u16);
            return Ok(Expr::Param(slot));
        }
        j += 1;
    }
    let mut m = String::new();
    m.append("unknown feature or param `");
    let text = string_of_chars(name);
    m.append(text.as_str());
    m.append("`");
    err(pos, m)
}

fn call_arity_exec(name: &Vec<char>) -> (r: Option<usize>)
    ensures
        r matches Some(k) ==> call_arity(name@) == Some(k as nat) && 1 <= k <= 5,
        r is None ==> call_arity(name@) is None,
{
    reveal(call_arity);
    if is_word(name, "abs") || is_word(name, "floor") || is_word(name, "trunc") {
        Some(1)
    } else if is_word(name, "min") || is_word(name, "max") || is_word(name, "noise") {
        Some(2)
    } else if is_word(name, "clamp") || is_word(name, "select") || is_word(name, "mix")
        || is_word(name, "smoothstep") {
        Some(3)
    } else if is_word(name, "remap") {
        Some(5)
    } else {
        None
    }
}

fn codepoints_exec(set: &Vec<char>) -> (v: Vec<u32>)
    ensures
        v@ == codepoints(set@),
{
    let mut v: Vec<u32> = Vec::new();
    let mut i: usize = 0;
    while i < set.len()
        invariant
            i <= set@.len(),
            v@ =~= codepoints(set@.take(i as int)),
        decreases set@.len() - i,
    {
        v.push(set[i] as u32);
        proof {
            assert(codepoints(set@.take(i + 1)) =~= codepoints(set@.take(i as int)).push(
                set@[i as int] as u32,
            ));
        }
        i += 1;
    }
    proof {
        assert(set@.take(set@.len() as int) =~= set@);
    }
    v
}

/// The closing parenthesis of a call.
fn close_exec(cx: &Cx, st: &mut St, e: Expr) -> (r: Result<Expr, CompileError>)
    requires
        cx.wf(),
        old(st).wf(cx.toks@.len()),
    ensures
        parsed(r, final(st).ps(), close_call(cx.ctx(), old(st).ps(), e)),
        r is Ok ==> final(st).wf(cx.toks@.len()) && final(st).pos == old(st).pos + 1
            && final(st).binds == old(st).binds && final(st).scopes == old(st).scopes
            && final(st).tables == old(st).tables,
{
    if matches!(cx.toks[st.pos].0, Tok::RParen) {
        proof {
            lemma_not_last(cx, st.pos as int);
        }
        st.pos = st.pos + 1;
        Ok(e)
    } else {
        err_str(cx.toks[st.pos].1, "expected `)` to close the call")
    }
}

fn bx(opc: u8, a: Expr, b: Expr) -> (e: Expr)
    ensures
        e == sbin(opc, a, b),
{
    Expr::Bin(opc, Box::new(a), Box::new(b))
}

fn clamp01_exec(e: Expr) -> (r: Expr)
    ensures
        r == clamp01(e),
{
    Expr::Clamp(Box::new(e), Box::new(Expr::Num(0)), Box::new(Expr::Num(ONE_BITS)))
}

/// The expression a builtin with expression arguments stands for.
fn build_call_exec(st: &mut St, name: &Vec<char>, a: Vec<Expr>) -> (e: Expr)
    requires
        call_arity(name@) == Some(a@.len()),
        binds_wf(old(st).binds@),
        forall|i: int| 0 <= i < a@.len() ==> refs_below(#[trigger] a@[i], old(st).binds@.len() as int),
    ensures
        (e, final(st).ps()) == build_call(name@, a@, old(st).ps()),
        final(st).pos == old(st).pos,
        final(st).scopes == old(st).scopes,
        final(st).tables == old(st).tables,
        binds_wf(final(st).binds@),
        old(st).binds@.len() <= final(st).binds@.len(),
        refs_below(e, final(st).binds@.len() as int),
{
    reveal(call_arity);
    reveal(build_call);
    reveal_with_fuel(refs_below, 6);
    let ghost av = a@;
    let ghost s0 = st.ps();
    let ghost n0 = st.binds@.len();
    let mut a = a;
    if is_word(name, "abs") || is_word(name, "floor") || is_word(name, "trunc") {
        let opc = if is_word(name, "abs") {
            op::ABS
        } else if is_word(name, "floor") {
            op::FLOOR
        } else {
            op::TRUNC
        };
        let x = a.pop().unwrap();
        Expr::Op1(opc, Box::new(x))
    } else if is_word(name, "min") || is_word(name, "max") || is_word(name, "noise") {
        let opc = if is_word(name, "min") {
            op::MIN
        } else if is_word(name, "max") {
            op::MAX
        } else {
            op::HASH
        };
        let y = a.pop().unwrap();
        let x = a.pop().unwrap();
        Expr::Op2(opc, Box::new(x), Box::new(y))
    } else if is_word(name, "clamp") || is_word(name, "select") {
        let z = a.pop().unwrap();
        let y = a.pop().unwrap();
        let x = a.pop().unwrap();
        if is_word(name, "clamp") {
            Expr::Clamp(Box::new(x), Box::new(y), Box::new(z))
        } else {
            Expr::Select(Box::new(x), Box::new(y), Box::new(z))
        }
    } else if is_word(name, "mix") {
        assert(av.len() == 3);
        let t = a.pop().unwrap();
        let b = a.pop().unwrap();
        let x = a.pop().unwrap();
        let ia = st.binds.len();
        proof {
            lemma_binds_push(st.binds@, x);
        }
        st.binds.push(x);
        proof {
            assert(st.ps() == shared(s0, av[0]));
            lemma_refs_below_mono(av[1], n0 as int, n0 + 1int);
            lemma_refs_below_mono(av[2], n0 as int, n0 + 1int);
        }
        bx(op::ADD, Expr::LetRef(ia), bx(op::MUL, bx(op::SUB, b, Expr::LetRef(ia)), t))
    } else if is_word(name, "remap") {
        proof {
            broadcast use vstd::string::group_string_axioms;

            reveal_strlit("remap");
            reveal_strlit("smoothstep");
            assert("remap"@.len() != "smoothstep"@.len());
        }
        assert(av.len() == 5);
        let out_hi = a.pop().unwrap();
        let out_lo = a.pop().unwrap();
        let in_hi = a.pop().unwrap();
        let in_lo = a.pop().unwrap();
        let x = a.pop().unwrap();
        let i1 = st.binds.len();
        proof {
            lemma_binds_push(st.binds@, in_lo);
        }
        st.binds.push(in_lo);
        let t = clamp01_exec(
            bx(op::DIV, bx(op::SUB, x, Expr::LetRef(i1)), bx(op::SUB, in_hi, Expr::LetRef(i1))),
        );
        let i2 = st.binds.len();
        proof {
            lemma_refs_below_mono(out_lo, n0 as int, n0 + 1int);
            lemma_binds_push(st.binds@, out_lo);
        }
        st.binds.push(out_lo);
        proof {
            assert(st.ps() == shared(shared(s0, av[1]), av[3]));
            lemma_refs_below_mono(av[0], n0 as int, n0 + 2int);
            lemma_refs_below_mono(av[2], n0 as int, n0 + 2int);
            lemma_refs_below_mono(av[3], n0 as int, n0 + 1int);
            lemma_refs_below_mono(av[4], n0 as int, n0 + 2int);
        }
        bx(op::ADD, Expr::LetRef(i2), bx(op::MUL, bx(op::SUB, out_hi, Expr::LetRef(i2)), t))
    } else {
        assert(av.len() == 3);
        let x = a.pop().unwrap();
        let e1 = a.pop().unwrap();
        let e0 = a.pop().unwrap();
        let i1 = st.binds.len();
        proof {
            lemma_binds_push(st.binds@, e0);
        }
        st.binds.push(e0);
        let t0 = clamp01_exec(
            bx(op::DIV, bx(op::SUB, x, Expr::LetRef(i1)), bx(op::SUB, e1, Expr::LetRef(i1))),
        );
        let i2 = st.binds.len();
        proof {
            lemma_refs_below_mono(av[1], n0 as int, n0 + 1int);
            lemma_refs_below_mono(av[2], n0 as int, n0 + 1int);
            lemma_binds_push(st.binds@, t0);
        }
        st.binds.push(t0);
        proof {
            assert(st.ps() == shared(shared(s0, av[0]), clamp01(
                sbin(op::DIV, sbin(op::SUB, av[2], Expr::LetRef(i1)), sbin(op::SUB, av[1], Expr::LetRef(i1))),
            )));
        }
        bx(
            op::MUL,
            bx(op::MUL, Expr::LetRef(i2), Expr::LetRef(i2)),
            bx(op::SUB, Expr::Num(THREE_BITS), bx(op::MUL, Expr::Num(TWO_BITS), Expr::LetRef(i2))),
        )
    }
}

/// `n` comma-separated expression arguments.
fn args(cx: &Cx, st: &mut St, d: usize, k: usize) -> (r: Result<Vec<Expr>, CompileError>)
    requires
        cx.wf(),
        old(st).wf(cx.toks@.len()),
        d <= MAX_PARSE_DEPTH,
        1 <= k <= 5,
    ensures
        match p_args(cx.ctx(), old(st).ps(), d as int, k as nat, Seq::empty()) {
            Ok((a, s)) => r matches Ok(v) && v@ == a && final(st).ps() == s,
            Err((p, m, t)) => r matches Err(x) && x.pos == p && x.message@ == m && final(st).ps().tables == t,
        },
        r matches Ok(v) ==> {
            &&& final(st).wf(cx.toks@.len())
            &&& old(st).pos < final(st).pos
            &&& old(st).binds@.len() <= final(st).binds@.len()
            &&& final(st).scopes@ == old(st).scopes@
            &&& v@.len() == k
            &&& forall|i: int| 0 <= i < v@.len() ==> refs_below(#[trigger] v@[i], final(st).binds@.len() as int)
        },
    decreases MAX_PARSE_DEPTH - d, 14int, cx.toks@.len() - old(st).pos,
{
    let mut out: Vec<Expr> = Vec::new();
    let mut left = k;
    loop
        invariant
            cx.wf(),
            st.wf(cx.toks@.len()),
            d <= MAX_PARSE_DEPTH,
            1 <= left <= k <= 5,
            out@.len() == k - left,
            p_args(cx.ctx(), old(st).ps(), d as int, k as nat, Seq::empty()) == p_args(
                cx.ctx(),
                st.ps(),
                d as int,
                left as nat,
                out@,
            ),
            forall|i: int| 0 <= i < out@.len() ==> refs_below(#[trigger] out@[i], st.binds@.len() as int),
            old(st).pos <= st.pos,
            out@.len() > 0 ==> old(st).pos < st.pos,
            old(st).binds@.len() <= st.binds@.len(),
            st.scopes@ == old(st).scopes@,
        decreases left,
    {
        let ghost nb = st.binds@.len();
        let ghost o0 = out@;
        let a = match expr(cx, st, d) {
            Ok(a) => a,
            Err(x) => return Err(x),
        };
        proof {
            assert forall|i: int| 0 <= i < o0.len() implies refs_below(#[trigger] o0[i], st.binds@.len() as int) by {
                lemma_refs_below_mono(o0[i], nb as int, st.binds@.len() as int);
            }
        }
        out.push(a);
        proof {
            assert forall|i: int| 0 <= i < out@.len() implies refs_below(#[trigger] out@[i], st.binds@.len() as int) by {
                if i < o0.len() {
                    assert(out@[i] == o0[i]);
                }
            }
        }
        if left <= 1 {
            return Ok(out);
        }
        if !matches!(cx.toks[st.pos].0, Tok::Comma) {
            return err_str(cx.toks[st.pos].1, "expected `,`");
        }
        proof {
            lemma_not_last(cx, st.pos as int);
        }
        st.pos = st.pos + 1;
        left = left - 1;
    }
}

/// A call of the builtin `name`, from its opening parenthesis.
#[verifier::rlimit(40)]
#[verifier::spinoff_prover]
fn call(cx: &Cx, st: &mut St, d: usize, name: &Vec<char>, pos: usize) -> (r: Result<Expr, CompileError>)
    requires
        cx.wf(),
        old(st).wf(cx.toks@.len()),
        d <= MAX_PARSE_DEPTH,
        cx.toks@[old(st).pos as int].0 is LParen,
    ensures
        parsed(r, final(st).ps(), p_call(cx.ctx(), old(st).ps(), d as int, name@, pos as nat)),
        advanced(r, *old(st), *final(st), cx.toks@.len()),
    decreases MAX_PARSE_DEPTH - d, 15int, cx.toks@.len() - old(st).pos,
{
    proof {
        lemma_not_last(cx, st.pos as int);
    }
    let arity = call_arity_exec(name);
    st.pos = st.pos + 1;
    match arity {
        Some(k) => {
            let a = match args(cx, st, d, k) {
                Ok(a) => a,
                Err(x) => return Err(x),
            };
            let e = build_call_exec(st, name, a);
            close_exec(cx, st, e)
        },
        None => {
            if is_word(name, "ramp") || is_word(name, "glyph") {
                set_call(cx, st, d, name)
            } else {
                let mut m = String::new();
                m.append("unknown function `");
                let text = string_of_chars(name);
                m.append(text.as_str());
                m.append("`");
                err(pos, m)
            }
        },
    }
}

/// The arguments of `ramp` or `glyph`.
fn set_call(cx: &Cx, st: &mut St, d: usize, name: &Vec<char>) -> (r: Result<Expr, CompileError>)
    requires
        cx.wf(),
        old(st).wf(cx.toks@.len()),
        d <= MAX_PARSE_DEPTH,
    ensures
        parsed(r, final(st).ps(), p_set_call(cx.ctx(), old(st).ps(), d as int, name@)),
        advanced(r, *old(st), *final(st), cx.toks@.len()),
    decreases MAX_PARSE_DEPTH - d, 14int, cx.toks@.len() - old(st).pos,
{
    let v = match expr(cx, st, d) {
        Ok(v) => v,
        Err(x) => return Err(x),
    };
    glyph_set_exec(cx, st, v, name)
}

/// The comma, glyph set and closing parenthesis after the first argument of `ramp`/`glyph`.
fn glyph_set_exec(cx: &Cx, st: &mut St, v: Expr, name: &Vec<char>) -> (r: Result<Expr, CompileError>)
    requires
        cx.wf(),
        old(st).wf(cx.toks@.len()),
        refs_below(v, old(st).binds@.len() as int),
    ensures
        parsed(r, final(st).ps(), glyph_set_arg(cx.ctx(), old(st).ps(), v, name@)),
        r matches Ok(e) ==> {
            &&& final(st).wf(cx.toks@.len())
            &&& old(st).pos < final(st).pos
            &&& final(st).binds == old(st).binds
            &&& final(st).scopes == old(st).scopes
            &&& refs_below(e, final(st).binds@.len() as int)
        },
{
    let is_ramp = is_word(name, "ramp");
    if !matches!(cx.toks[st.pos].0, Tok::Comma) {
        return err_str(cx.toks[st.pos].1, "expected `,`");
    }
    proof {
        lemma_not_last(cx, st.pos as int);
    }
    let sp = st.pos + 1;
    match &cx.toks[sp].0 {
        Tok::Str(set) => {
            if set.len() == 0 {
                return err_str(
                    cx.toks[sp].1,
                    if is_ramp {
                        "ramp glyph set is empty"
                    } else {
                        "glyph set is empty"
                    },
                );
            }
            proof {
                lemma_not_last(cx, sp as int);
            }
            let ghost s2 = st.ps();
            let id: u16 = #[verifier::truncate] (st.tables.len() as u16);
            let cps = codepoints_exec(set);
            st.tables.push(cps);
            st.pos = sp + 1;
            proof {
                assert(st.ps().tables =~= s2.tables.push(codepoints(set@)));
            }
            let e = if is_ramp {
                Expr::Ramp(Box::new(v), id, set.len())
            } else {
                Expr::Glyph(Box::new(v), id)
            };
            close_exec(cx, st, e)
        },
        _ => err_str(cx.toks[sp].1, "expected a string literal (glyph set)"),
    }
}

/// Parse a whole token stream: one expression, then the end of input.
pub fn parse_source(cx: &Cx, st: &mut St) -> (r: Result<Expr, CompileError>)
    requires
        cx.wf(),
        old(st).pos == 0,
        old(st).tables@.len() == 0,
        old(st).binds@.len() == 0,
        old(st).scopes@.len() == 0,
    ensures
        parsed(r, final(st).ps(), p_source(cx.ctx())),
        r matches Ok(e) ==> final(st).wf(cx.toks@.len()) && refs_below(e, final(st).binds@.len() as int),
{
    proof {
        assert(st.ps().tables =~= Seq::empty());
        assert(st.ps().binds =~= Seq::empty());
        assert(st.ps().scopes =~= Seq::empty());
        assert(st.ps() == PState { pos: 0, tables: Seq::empty(), binds: Seq::empty(), scopes: Seq::empty() });
    }
    let e = match expr(cx, st, 0) {
        Ok(e) => e,
        Err(x) => return Err(x),
    };
    if !matches!(cx.toks[st.pos].0, Tok::Eof) {
        return err_str(cx.toks[st.pos].1, "unexpected trailing input");
    }
    Ok(e)
}

} // verus!
