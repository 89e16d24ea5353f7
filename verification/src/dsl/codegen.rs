//! Code generation and assembly: a parsed expression to a bytecode program, checked by the
//! validator before it is handed out.

use vstd::prelude::*;

use crate::dsl::ast::{Expr, binds_wf, refs_below, HALF_BITS, ONE_BITS, int_to_bits};
use crate::dsl::parse::{Ctx, Cx, St, p_source, parse_source, top_index_bits};
use crate::dsl::{Tok, toks_view, CompileError, err, err_str, chars_of};
use crate::text::{decimal, push_decimal};
use crate::vm::{op, spec_validate, validate, VmError, MAGIC, MAX_CODE, MAX_PARAMS, MAX_TABLES, MAX_TABLE_LEN};
use vstd::string::StringExecFns;

verus! {

/// The compile-time environment: the engine's feature stride and named feature slots, and
/// the Facet's named params with their values (as `f32` bit patterns). Both are looked up by
/// the bare identifiers in the source.
#[derive(Debug, Clone)]
pub struct Schema<'a> {
    pub stride: u16,
    pub features: &'a [(&'a str, u16)],
    pub params: &'a [(&'a str, u32)],
}

impl<'a> Schema<'a> {
    /// The feature names with their slots.
    pub open spec fn feature_view(&self) -> Seq<(Seq<char>, u16)> {
        self.features@.map_values(|f: (&str, u16)| (f.0@, f.1))
    }

    /// The param names, in order.
    pub open spec fn param_names(&self) -> Seq<Seq<char>> {
        self.params@.map_values(|p: (&str, u32)| p.0@)
    }

    /// The param values, in order.
    pub open spec fn param_bits(&self) -> Seq<u32> {
        self.params@.map_values(|p: (&str, u32)| p.1)
    }
}

/// `v` as two little-endian bytes.
pub open spec fn u16_bytes(v: u16) -> Seq<u8> {
    seq![(v % 256) as u8, (v / 256) as u8]
}

/// `v` as four little-endian bytes.
pub open spec fn u32_bytes(v: u32) -> Seq<u8> {
    seq![(v % 256) as u8, ((v / 256) % 256) as u8, ((v / 65536) % 256) as u8, (v / 16777216) as u8]
}

/// `CONST` with the value `bits`.
pub open spec fn konst(bits: u32) -> Seq<u8> {
    seq![op::CONST] + u32_bytes(bits)
}

/// The message when the emitted code reaches the code limit.
pub open spec fn too_large_msg() -> Seq<char> {
    "compiled program is too large — reduce nesting or reuse subexpressions with `let`"@
}

/// The code for `e` appended to `pre`, expanding shared references below `k` in place; or
/// `None` once an expression is about to be emitted with the code already at the limit.
pub open spec fn emit_spec(e: Expr, binds: Seq<Expr>, k: nat, pre: Seq<u8>) -> Option<Seq<u8>>
    decreases k, e,
{
    if pre.len() >= MAX_CODE {
        None
    } else {
        match e {
            Expr::Num(b) => Some(pre + konst(b)),
            Expr::Feature(slot) => Some(pre + seq![op::LOADF] + u16_bytes(slot)),
            Expr::Param(i) => Some(pre + seq![op::LOADP] + u16_bytes(i)),
            Expr::LetRef(i) => if i < k && i < binds.len() {
                emit_spec(binds[i as int], binds, i as nat, pre)
            } else {
                None
            },
            Expr::Neg(a) => match emit_spec(*a, binds, k, pre) {
                None => None,
                Some(c) => Some(c.push(op::NEG)),
            },
            Expr::Not(a) => match emit_spec(*a, binds, k, pre) {
                None => None,
                Some(c) => Some(c.push(op::NOT)),
            },
            Expr::Bin(opc, a, b) => match emit_spec(*a, binds, k, pre) {
                None => None,
                Some(c1) => match emit_spec(*b, binds, k, c1) {
                    None => None,
                    Some(c2) => Some(c2.push(opc)),
                },
            },
            Expr::Ne(a, b) => match emit_spec(*a, binds, k, pre) {
                None => None,
                Some(c1) => match emit_spec(*b, binds, k, c1) {
                    None => None,
                    Some(c2) => Some(c2.push(op::EQ).push(op::NOT)),
                },
            },
            Expr::Ternary(a, b, c) => match emit_spec(*a, binds, k, pre) {
                None => None,
                Some(c1) => match emit_spec(*b, binds, k, c1) {
                    None => None,
                    Some(c2) => match emit_spec(*c, binds, k, c2) {
                        None => None,
                        Some(c3) => Some(c3.push(op::SELECT)),
                    },
                },
            },
            Expr::Select(a, b, c) => match emit_spec(*a, binds, k, pre) {
                None => None,
                Some(c1) => match emit_spec(*b, binds, k, c1) {
                    None => None,
                    Some(c2) => match emit_spec(*c, binds, k, c2) {
                        None => None,
                        Some(c3) => Some(c3.push(op::SELECT)),
                    },
                },
            },
            Expr::Op1(opc, a) => match emit_spec(*a, binds, k, pre) {
                None => None,
                Some(c) => Some(c.push(opc)),
            },
            Expr::Op2(opc, a, b) => match emit_spec(*a, binds, k, pre) {
                None => None,
                Some(c1) => match emit_spec(*b, binds, k, c1) {
                    None => None,
                    Some(c2) => Some(c2.push(opc)),
                },
            },
            Expr::Clamp(a, b, c) => match emit_spec(*a, binds, k, pre) {
                None => None,
                Some(c1) => match emit_spec(*b, binds, k, c1) {
                    None => None,
                    Some(c2) => match emit_spec(*c, binds, k, c2) {
                        None => None,
                        Some(c3) => Some(c3.push(op::CLAMP)),
                    },
                },
            },
            Expr::Ramp(v, id, len) => match emit_spec(*v, binds, k, pre) {
                None => None,
                Some(c) => Some(c + ramp_tail(id, len as nat)),
            },
            Expr::Glyph(v, id) => match emit_spec(*v, binds, k, pre) {
                None => None,
                Some(c) => Some(c + seq![op::FLOOR, op::TABLE] + u16_bytes(id)),
            },
        }
    }
}

/// What follows the value of `ramp`: `floor(clamp(v, 0, 1) * (len - 1) + 0.5)` as an index
/// into table `id`.
pub open spec fn ramp_tail(id: u16, len: nat) -> Seq<u8> {
    konst(0) + konst(ONE_BITS) + seq![op::CLAMP] + konst(top_index_bits(len)) + seq![op::MUL]
        + konst(HALF_BITS) + seq![op::ADD, op::FLOOR, op::TABLE] + u16_bytes(id)
}

/// `ws` as consecutive little-endian words.
pub open spec fn words_bytes(ws: Seq<u32>) -> Seq<u8>
    decreases ws.len(),
{
    if ws.len() == 0 {
        Seq::empty()
    } else {
        words_bytes(ws.drop_last()) + u32_bytes(ws.last())
    }
}

/// A glyph table: its length, then its codepoints.
pub open spec fn table_bytes(t: Seq<u32>) -> Seq<u8> {
    u16_bytes(t.len() as u16) + words_bytes(t)
}

/// The tables, one after another.
pub open spec fn tables_bytes(ts: Seq<Seq<u32>>) -> Seq<u8>
    decreases ts.len(),
{
    if ts.len() == 0 {
        Seq::empty()
    } else {
        tables_bytes(ts.drop_last()) + table_bytes(ts.last())
    }
}

/// The program: magic, stride, param and table counts, params, tables, code length, code.
pub open spec fn program_bytes(stride: u16, params: Seq<u32>, tables: Seq<Seq<u32>>, code: Seq<u8>) -> Seq<u8> {
    u32_bytes(MAGIC) + u16_bytes(stride) + u16_bytes(params.len() as u16) + u16_bytes(
        tables.len() as u16,
    ) + words_bytes(params) + tables_bytes(tables) + u32_bytes(code.len() as u32) + code
}

/// The index of the first table longer than [`MAX_TABLE_LEN`], from `i` on.
pub open spec fn first_long_table(ts: Seq<Seq<u32>>, i: int) -> Option<int>
    decreases ts.len() - i,
{
    if i < 0 || i >= ts.len() {
        None
    } else if ts[i].len() > MAX_TABLE_LEN {
        Some(i)
    } else {
        first_long_table(ts, i + 1)
    }
}

/// The name of a validator error, as its `Debug` form writes it.
pub open spec fn vm_error_name(e: VmError) -> Seq<char> {
    match e {
        VmError::BadMagic => "BadMagic"@,
        VmError::Truncated => "Truncated"@,
        VmError::TooLarge => "TooLarge"@,
        VmError::BadCodepoint => "BadCodepoint"@,
        VmError::BadOpcode => "BadOpcode"@,
        VmError::BadFeatureSlot => "BadFeatureSlot"@,
        VmError::BadParamIndex => "BadParamIndex"@,
        VmError::BadTableIndex => "BadTableIndex"@,
        VmError::StackUnderflow => "StackUnderflow"@,
        VmError::StackOverflow => "StackOverflow"@,
        VmError::BadFinalStack => "BadFinalStack"@,
        VmError::StrideMismatch => "StrideMismatch"@,
        VmError::ShortOutput => "ShortOutput"@,
    }
}

/// What compiling a token stream gives: the parse, the code, the admission limits of the
/// VM as clean errors, and the assembled program, which must pass the validator.
pub open spec fn compile_spec(c: Ctx, stride: u16, params: Seq<u32>) -> Result<Seq<u8>, (nat, Seq<char>)> {
    match p_source(c) {
        Err((p, m, _)) => Err((p, m)),
        Ok((ast, s)) => match emit_spec(ast, s.binds, s.binds.len(), Seq::empty()) {
            None => Err((0, too_large_msg())),
            Some(code0) => {
                let code = code0.push(op::END);
                if params.len() > MAX_PARAMS {
                    Err(
                        (
                            0,
                            "schema declares "@ + decimal(params.len()) + " parameters, exceeding the maximum of "@
                                + decimal(MAX_PARAMS as nat),
                        ),
                    )
                } else if s.tables.len() > MAX_TABLES {
                    Err(
                        (
                            0,
                            "program uses "@ + decimal(s.tables.len()) + " glyph sets, exceeding the maximum of "@
                                + decimal(MAX_TABLES as nat),
                        ),
                    )
                } else {
                    match first_long_table(s.tables, 0) {
                        Some(i) => Err(
                            (
                                0,
                                "a glyph set has "@ + decimal(s.tables[i].len()) + " characters, exceeding the maximum of "@
                                    + decimal(MAX_TABLE_LEN as nat),
                            ),
                        ),
                        None => {
                            let b = program_bytes(stride, params, s.tables, code);
                            match spec_validate(b) {
                                Ok(_) => Ok(b),
                                Err(e) => Err(
                                    (
                                        0,
                                        "internal compiler error: emitted invalid bytecode ("@ + vm_error_name(e)
                                            + ")"@,
                                    ),
                                ),
                            }
                        },
                    }
                }
            },
        },
    }
}

/// What the parser reads for a token stream, its number values and a schema.
pub open spec fn compile_ctx(toks: Seq<(Tok, usize)>, values: Seq<u32>, schema: Schema) -> Ctx {
    Ctx {
        toks: toks_view(toks),
        vals: values,
        feats: schema.feature_view(),
        params: schema.param_names(),
    }
}

fn push_u16(b: &mut Vec<u8>, v: u16)
    ensures
        final(b)@ == old(b)@ + u16_bytes(v),
{
    b.push((v % 256) as u8);
    b.push((v / 256) as u8);
    assert(final(b)@ =~= old(b)@ + u16_bytes(v));
}

fn push_u32(b: &mut Vec<u8>, v: u32)
    ensures
        final(b)@ == old(b)@ + u32_bytes(v),
{
    b.push((v % 256) as u8);
    b.push(((v / 256) % 256) as u8);
    b.push(((v / 65536) % 256) as u8);
    b.push((v / 16777216) as u8);
    assert(final(b)@ =~= old(b)@ + u32_bytes(v));
}

fn push_konst(b: &mut Vec<u8>, bits: u32)
    ensures
        final(b)@ == old(b)@ + konst(bits),
{
    b.push(op::CONST);
    push_u32(b, bits);
    assert(final(b)@ =~= old(b)@ + konst(bits));
}

/// Emit the code for `e` after `code`, expanding shared references in place; refused once an
/// expression is about to be emitted with the code already at [`MAX_CODE`] bytes.
fn emit(e: &Expr, code: &mut Vec<u8>, binds: &Vec<Expr>, k: usize) -> (r: Result<(), CompileError>)
    requires
        binds_wf(binds@),
        refs_below(*e, k as int),
        k <= binds@.len(),
    ensures
        match emit_spec(*e, binds@, k as nat, old(code)@) {
            Some(c) => r is Ok && final(code)@ == c,
            None => r matches Err(x) && x.pos == 0 && x.message@ == too_large_msg(),
        },
    decreases k, e,
{
    if code.len() >= MAX_CODE {
        return err_str(0, "compiled program is too large — reduce nesting or reuse subexpressions with `let`");
    }
    match e {
        Expr::Num(b) => {
            push_konst(code, *b);
            Ok(())
        },
        Expr::Feature(slot) => {
            code.push(op::LOADF);
            push_u16(code, *slot);
            Ok(())
        },
        Expr::Param(i) => {
            code.push(op::LOADP);
            push_u16(code, *i);
            Ok(())
        },
        Expr::LetRef(i) => {
            let i = *i;
            emit(&binds[i], code, binds, i)
        },
        Expr::Neg(a) => {
            match emit(&**a, code, binds, k) {
                Ok(()) => {},
                Err(x) => return Err(x),
            }
            code.push(op::NEG);
            Ok(())
        },
        Expr::Not(a) => {
            match emit(&**a, code, binds, k) {
                Ok(()) => {},
                Err(x) => return Err(x),
            }
            code.push(op::NOT);
            Ok(())
        },
        Expr::Bin(opc, a, b) => {
            match emit(&**a, code, binds, k) {
                Ok(()) => {},
                Err(x) => return Err(x),
            }
            match emit(&**b, code, binds, k) {
                Ok(()) => {},
                Err(x) => return Err(x),
            }
            code.push(*opc);
            Ok(())
        },
        Expr::Ne(a, b) => {
            match emit(&**a, code, binds, k) {
                Ok(()) => {},
                Err(x) => return Err(x),
            }
            match emit(&**b, code, binds, k) {
                Ok(()) => {},
                Err(x) => return Err(x),
            }
            code.push(op::EQ);
            code.push(op::NOT);
            Ok(())
        },
        Expr::Ternary(a, b, c) => {
            match emit(&**a, code, binds, k) {
                Ok(()) => {},
                Err(x) => return Err(x),
            }
            match emit(&**b, code, binds, k) {
                Ok(()) => {},
                Err(x) => return Err(x),
            }
            match emit(&**c, code, binds, k) {
                Ok(()) => {},
                Err(x) => return Err(x),
            }
            code.push(op::SELECT);
            Ok(())
        },
        Expr::Select(a, b, c) => {
            match emit(&**a, code, binds, k) {
                Ok(()) => {},
                Err(x) => return Err(x),
            }
            match emit(&**b, code, binds, k) {
                Ok(()) => {},
                Err(x) => return Err(x),
            }
            match emit(&**c, code, binds, k) {
                Ok(()) => {},
                Err(x) => return Err(x),
            }
            code.push(op::SELECT);
            Ok(())
        },
        Expr::Clamp(a, b, c) => {
            match emit(&**a, code, binds, k) {
                Ok(()) => {},
                Err(x) => return Err(x),
            }
            match emit(&**b, code, binds, k) {
                Ok(()) => {},
                Err(x) => return Err(x),
            }
            match emit(&**c, code, binds, k) {
                Ok(()) => {},
                Err(x) => return Err(x),
            }
            code.push(op::CLAMP);
            Ok(())
        },
        Expr::Op1(opc, a) => {
            match emit(&**a, code, binds, k) {
                Ok(()) => {},
                Err(x) => return Err(x),
            }
            code.push(*opc);
            Ok(())
        },
        Expr::Op2(opc, a, b) => {
            match emit(&**a, code, binds, k) {
                Ok(()) => {},
                Err(x) => return Err(x),
            }
            match emit(&**b, code, binds, k) {
                Ok(()) => {},
                Err(x) => return Err(x),
            }
            code.push(*opc);
            Ok(())
        },
        Expr::Ramp(v, id, len) => {
            match emit(&**v, code, binds, k) {
                Ok(()) => {},
                Err(x) => return Err(x),
            }
            let ghost c0 = code@;
            push_konst(code, 0);
            push_konst(code, ONE_BITS);
            code.push(op::CLAMP);
            let top: u32 = if *len >= 1 && *len - 1 < 0x100_0000 {
                int_to_bits((*len - 1) as u32)
            } else {
                0
            };
            push_konst(code, top);
            code.push(op::MUL);
            push_konst(code, HALF_BITS);
            code.push(op::ADD);
            code.push(op::FLOOR);
            code.push(op::TABLE);
            push_u16(code, *id);
            assert(code@ =~= c0 + ramp_tail(*id, *len as nat));
            Ok(())
        },
        Expr::Glyph(v, id) => {
            match emit(&**v, code, binds, k) {
                Ok(()) => {},
                Err(x) => return Err(x),
            }
            let ghost c0 = code@;
            code.push(op::FLOOR);
            code.push(op::TABLE);
            push_u16(code, *id);
            assert(code@ =~= c0 + seq![op::FLOOR, op::TABLE] + u16_bytes(*id));
            Ok(())
        },
    }
}


fn push_words(b: &mut Vec<u8>, ws: &Vec<u32>)
    ensures
        final(b)@ == old(b)@ + words_bytes(ws@),
{
    let mut i: usize = 0;
    assert(ws@.take(0) =~= Seq::<u32>::empty());
    assert(old(b)@ + words_bytes(Seq::<u32>::empty()) =~= old(b)@);
    while i < ws.len()
        invariant
            i <= ws@.len(),
            b@ == old(b)@ + words_bytes(ws@.take(i as int)),
        decreases ws@.len() - i,
    {
        push_u32(b, ws[i]);
        proof {
            assert(ws@.take(i + 1).drop_last() =~= ws@.take(i as int));
            assert(old(b)@ + words_bytes(ws@.take(i as int)) + u32_bytes(ws@[i as int]) =~= old(b)@
                + words_bytes(ws@.take(i + 1)));
        }
        i += 1;
    }
    assert(ws@.take(ws@.len() as int) =~= ws@);
}

fn push_params(b: &mut Vec<u8>, params: &[(&str, u32)])
    ensures
        final(b)@ == old(b)@ + words_bytes(params@.map_values(|p: (&str, u32)| p.1)),
{
    let ghost ws = params@.map_values(|p: (&str, u32)| p.1);
    let mut i: usize = 0;
    assert(ws.take(0) =~= Seq::<u32>::empty());
    assert(old(b)@ + words_bytes(Seq::<u32>::empty()) =~= old(b)@);
    while i < params.len()
        invariant
            i <= params@.len(),
            ws == params@.map_values(|p: (&str, u32)| p.1),
            b@ == old(b)@ + words_bytes(ws.take(i as int)),
        decreases params@.len() - i,
    {
        push_u32(b, params[i].1);
        proof {
            assert(ws.take(i + 1).drop_last() =~= ws.take(i as int));
            assert(old(b)@ + words_bytes(ws.take(i as int)) + u32_bytes(ws[i as int]) =~= old(b)@
                + words_bytes(ws.take(i + 1)));
        }
        i += 1;
    }
    assert(ws.take(ws.len() as int) =~= ws);
}

fn push_tables(b: &mut Vec<u8>, tables: &Vec<Vec<u32>>)
    ensures
        final(b)@ == old(b)@ + tables_bytes(tables@.map_values(|t: Vec<u32>| t@)),
{
    let ghost ts = tables@.map_values(|t: Vec<u32>| t@);
    let mut i: usize = 0;
    assert(ts.take(0) =~= Seq::<Seq<u32>>::empty());
    assert(old(b)@ + tables_bytes(Seq::<Seq<u32>>::empty()) =~= old(b)@);
    while i < tables.len()
        invariant
            i <= tables@.len(),
            ts == tables@.map_values(|t: Vec<u32>| t@),
            b@ == old(b)@ + tables_bytes(ts.take(i as int)),
        decreases tables@.len() - i,
    {
        let t = &tables[i];
        let len16: u16 = #[verifier::truncate] (t.len() as u16);
        push_u16(b, len16);
        push_words(b, t);
        proof {
            assert(ts[i as int] == t@);
            assert(ts.take(i + 1).drop_last() =~= ts.take(i as int));
            assert(old(b)@ + tables_bytes(ts.take(i as int)) + u16_bytes(len16) + words_bytes(t@)
                =~= old(b)@ + tables_bytes(ts.take(i + 1)));
        }
        i += 1;
    }
    assert(ts.take(ts.len() as int) =~= ts);
}

fn feature_names(features: &[(&str, u16)]) -> (v: Vec<(Vec<char>, u16)>)
    ensures
        v@.map_values(|f: (Vec<char>, u16)| (f.0@, f.1)) == features@.map_values(
            |f: (&str, u16)| (f.0@, f.1),
        ),
{
    let mut v: Vec<(Vec<char>, u16)> = Vec::new();
    let mut i: usize = 0;
    while i < features.len()
        invariant
            i <= features@.len(),
            v@.len() == i,
            forall|j: int| 0 <= j < i ==> (#[trigger] v@[j]).0@ == features@[j].0@ && v@[j].1 == features@[j].1,
        decreases features@.len() - i,
    {
        let name = chars_of(features[i].0);
        v.push((name, features[i].1));
        i += 1;
    }
    assert(v@.map_values(|f: (Vec<char>, u16)| (f.0@, f.1)) =~= features@.map_values(
        |f: (&str, u16)| (f.0@, f.1),
    ));
    v
}

fn param_names(params: &[(&str, u32)]) -> (v: Vec<Vec<char>>)
    ensures
        v@.map_values(|p: Vec<char>| p@) == params@.map_values(|p: (&str, u32)| p.0@),
{
    let mut v: Vec<Vec<char>> = Vec::new();
    let mut i: usize = 0;
    while i < params.len()
        invariant
            i <= params@.len(),
            v@.len() == i,
            forall|j: int| 0 <= j < i ==> (#[trigger] v@[j])@ == params@[j].0@,
        decreases params@.len() - i,
    {
        let name = chars_of(params[i].0);
        v.push(name);
        i += 1;
    }
    assert(v@.map_values(|p: Vec<char>| p@) =~= params@.map_values(|p: (&str, u32)| p.0@));
    v
}

fn vm_error_name_exec(e: VmError) -> (s: &'static str)
    ensures
        s@ == vm_error_name(e),
{
    match e {
        VmError::BadMagic => "BadMagic",
        VmError::Truncated => "Truncated",
        VmError::TooLarge => "TooLarge",
        VmError::BadCodepoint => "BadCodepoint",
        VmError::BadOpcode => "BadOpcode",
        VmError::BadFeatureSlot => "BadFeatureSlot",
        VmError::BadParamIndex => "BadParamIndex",
        VmError::BadTableIndex => "BadTableIndex",
        VmError::StackUnderflow => "StackUnderflow",
        VmError::StackOverflow => "StackOverflow",
        VmError::BadFinalStack => "BadFinalStack",
        VmError::StrideMismatch => "StrideMismatch",
        VmError::ShortOutput => "ShortOutput",
    }
}

fn limit_error(what: &str, count: usize, unit: &str, max: usize) -> (r: Result<Vec<u8>, CompileError>)
    ensures
        r matches Err(x) && x.pos == 0 && x.message@ == what@ + decimal(count as nat) + unit@
            + decimal(max as nat),
{
    let mut m = String::new();
    m.append(what);
    push_decimal(&mut m, count as u64);
    m.append(unit);
    push_decimal(&mut m, max as u64);
    err(0, m)
}

/// Compile a lexed source (see [`lex`](crate::dsl::lex)) to a validated bytecode program.
/// `values` holds, at the position of each number token, the `f32` bit pattern of its value.
///
/// The result is what [`compile_spec`] gives: the parse, the emitted code, the VM's
/// admission limits as clean errors, and the assembled program, which the validator must
/// accept; so every program handed out passes [`validate`].
#[verifier::loop_isolation(false)]
pub fn compile_tokens(toks: &Vec<(Tok, usize)>, values: &Vec<u32>, schema: &Schema) -> (r: Result<Vec<u8>, CompileError>)
    requires
        toks@.len() >= 1,
        toks@.last().0 is Eof,
        values@.len() == toks@.len(),
    ensures
        match compile_spec(compile_ctx(toks@, values@, *schema), schema.stride, schema.param_bits()) {
            Ok(b) => r matches Ok(v) && v@ == b,
            Err((p, m)) => r matches Err(x) && x.pos == p && x.message@ == m,
        },
        r matches Ok(b) ==> spec_validate(b@) is Ok,
{
    let _count = toks.len();
    let cx = Cx { toks, vals: values, feats: feature_names(schema.features), params: param_names(schema.params) };
    let ghost c = compile_ctx(toks@, values@, *schema);
    assert(cx.ctx() == c);
    let mut st = St { pos: 0, tables: Vec::new(), binds: Vec::new(), scopes: Vec::new() };
    let ast = match parse_source(&cx, &mut st) {
        Ok(e) => e,
        Err(x) => return Err(x),
    };
    let ghost s = st.ps();
    let mut code: Vec<u8> = Vec::new();
    match emit(&ast, &mut code, &st.binds, st.binds.len()) {
        Ok(()) => {},
        Err(x) => return Err(x),
    }
    code.push(op::END);
    let np = schema.params.len();
    if np > MAX_PARAMS {
        return limit_error("schema declares ", np, " parameters, exceeding the maximum of ", MAX_PARAMS);
    }
    let nt = st.tables.len();
    if nt > MAX_TABLES {
        return limit_error("program uses ", nt, " glyph sets, exceeding the maximum of ", MAX_TABLES);
    }
    let mut i: usize = 0;
    while i < nt
        invariant
            nt == st.tables@.len(),
            i <= nt,
            s == st.ps(),
            first_long_table(s.tables, 0) == first_long_table(s.tables, i as int),
        decreases nt - i,
    {
        proof {
            assert(s.tables[i as int] == st.tables@[i as int]@);
        }
        if st.tables[i].len() > MAX_TABLE_LEN {
            return limit_error(
                "a glyph set has ",
                st.tables[i].len(),
                " characters, exceeding the maximum of ",
                MAX_TABLE_LEN,
            );
        }
        i += 1;
    }
    let mut b: Vec<u8> = Vec::new();
    push_u32(&mut b, MAGIC);
    push_u16(&mut b, schema.stride);
    push_u16(&mut b, np as u16);
    push_u16(&mut b, nt as u16);
    push_params(&mut b, schema.params);
    push_tables(&mut b, &st.tables);
    let cl: u32 = #[verifier::truncate] (code.len() as u32);
    push_u32(&mut b, cl);
    let ghost code_v = code@;
    b.append(&mut code);
    proof {
        assert(b@ =~= program_bytes(schema.stride, schema.param_bits(), s.tables, code_v));
    }
    match validate(b.as_slice()) {
        Ok(_) => {},
        Err(e) => {
            let mut m = String::new();
            m.append("internal compiler error: emitted invalid bytecode (");
            m.append(vm_error_name_exec(e));
            m.append(")");
            return err(0, m);
        },
    }
    Ok(b)
}

} // verus!
