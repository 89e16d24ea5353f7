//! Evaluation of a validated program, one cell at a time. The evaluator owns the control
//! flow: decoding, the value stack, every index and every error. The values themselves, and
//! what the operators make of them, come from a [`Lane`].

use vstd::prelude::*;

use super::{
    Instr, Layout, Program, VmError, MAX_STACK, code_of, instr_effect, le32, lemma_validated_step, op,
    op_effect, shape_verdict, spec_code, spec_fetch, spec_validate,
};

verus! {

/// The values a program computes with, and the operations on them.
pub trait Lane: Copy + Sized {
    /// The value whose bit pattern a constant or a param holds.
    fn from_bits(bits: u32) -> Self;

    /// The value of a table entry.
    fn from_codepoint(cp: u32) -> Self;

    /// Whether the value counts as false where a condition is read.
    fn is_zero(self) -> bool;

    /// The table index the value selects: zero at or below zero, saturating above.
    fn to_index(self) -> usize;

    /// The token a cell's final value emits: zero at or below zero, saturating above.
    fn to_token(self) -> u32;

    /// An operator of one operand: `NEG`, `NOT`, `ABS`, `FLOOR` or `TRUNC`.
    fn unary(opc: u8, a: Self) -> Self;

    /// An operator of two operands, `a` pushed first: the arithmetic, comparison, logical,
    /// `MIN`, `MAX` and `HASH` opcodes.
    fn binary(opc: u8, a: Self, b: Self) -> Self;

    /// `clamp(x, lo, hi)`.
    fn clamp(x: Self, lo: Self, hi: Self) -> Self;
}

/// `a * b` in 32-bit wrapping arithmetic.
pub open spec fn mul32(a: u32, b: u32) -> u32 {
    ((a as nat * b as nat) % 0x1_0000_0000) as u32
}

/// The avalanche step of the `HASH` opcode: xor-shift, multiply, xor-shift, multiply,
/// xor-shift, all on 32 bits.
pub open spec fn mix32(h: u32) -> u32 {
    let a = h ^ (h >> 16u32);
    let b = mul32(a, 0x7FEB_352D);
    let c = b ^ (b >> 15u32);
    let d = mul32(c, 0x846C_A68B);
    d ^ (d >> 16u32)
}

/// The integer hash the `HASH` opcode takes of its operands' bit patterns `x` (pushed first)
/// and `y`; a lane scales its top 24 bits to `[0, 1)`.
pub open spec fn pair_hash(x: u32, y: u32) -> u32 {
    mix32(mul32(x, 0x9E37_79B1) ^ y)
}

/// [`pair_hash`] of `x` and `y`.
pub fn hash_pair(x: u32, y: u32) -> (h: u32)
    ensures
        h == pair_hash(x, y),
{
    let a = x.wrapping_mul(0x9E37_79B1) ^ y;
    let a = a ^ (a >> 16);
    let b = a.wrapping_mul(0x7FEB_352D);
    let c = b ^ (b >> 15);
    let d = c.wrapping_mul(0x846C_A68B);
    d ^ (d >> 16)
}

/// The bit pattern of param `i` of a program held in `b`.
pub open spec fn param_value(b: Seq<u8>, i: int) -> u32 {
    le32(b, 10 + 4 * i) as u32
}

/// Entry `i` of table `t` of a program held in `b` with layout `l`, the index clamped to
/// the table (`0` for an empty table).
pub open spec fn table_value(b: Seq<u8>, l: Layout, t: int, i: int) -> u32 {
    let (off, len) = l.tables[t];
    if len == 0 {
        0
    } else {
        le32(b, off + 4 * (if i < len { i } else { len - 1 })) as u32
    }
}

/// `s2` is a stack that instruction `ins` (not `END`) can leave from stack `s`, on the cell
/// whose features start at `base`: every new value is one the lane can give for the
/// operands the instruction takes.
pub open spec fn lane_step<L: Lane>(
    b: Seq<u8>,
    l: Layout,
    feats: Seq<L>,
    base: int,
    ins: Instr,
    s: Seq<L>,
    s2: Seq<L>,
) -> bool {
    match ins {
        Instr::End => false,
        Instr::Const(bits) => s2 == s.push(s2.last()) && call_ensures(L::from_bits, (bits,), s2.last()),
        Instr::LoadF(slot) => s2 == s.push(feats[base + slot as int]),
        Instr::LoadP(i) => s2 == s.push(s2.last()) && call_ensures(
            L::from_bits,
            (param_value(b, i as int),),
            s2.last(),
        ),
        Instr::Table(t) => s2 == s.drop_last().push(s2.last()) && exists|idx: usize|
            call_ensures(L::to_index, (s.last(),), idx) && #[trigger] call_ensures(
                L::from_codepoint,
                (table_value(b, l, t as int, idx as int),),
                s2.last(),
            ),
        Instr::Op(o) => if o == op::DUP {
            s2 == s.push(s.last())
        } else if o == op::POP {
            s2 == s.drop_last()
        } else if op_effect(o) == Some((1int, 1int)) {
            s2 == s.drop_last().push(s2.last()) && call_ensures(L::unary, (o, s.last()), s2.last())
        } else if o == op::CLAMP {
            s2 == s.drop_last().drop_last().drop_last().push(s2.last()) && call_ensures(
                L::clamp,
                (s.drop_last().drop_last().last(), s.drop_last().last(), s.last()),
                s2.last(),
            )
        } else if o == op::SELECT {
            exists|z: bool|
                #[trigger] call_ensures(L::is_zero, (s.drop_last().drop_last().last(),), z) && s2
                    == s.drop_last().drop_last().drop_last().push(
                    if z {
                        s.last()
                    } else {
                        s.drop_last().last()
                    },
                )
        } else {
            s2 == s.drop_last().drop_last().push(s2.last()) && call_ensures(
                L::binary,
                (o, s.drop_last().last(), s.last()),
                s2.last(),
            )
        },
    }
}

/// `token` is a token the program held in `b` with layout `l` can give on the cell whose
/// features start at `base`, evaluation being at `pc` with stack `s`: each instruction in
/// turn leaves a stack [`lane_step`] allows, and at `END` the lane turns the one value left
/// into `token`.
pub open spec fn evaluates<L: Lane>(
    b: Seq<u8>,
    l: Layout,
    feats: Seq<L>,
    base: int,
    pc: int,
    s: Seq<L>,
    token: u32,
) -> bool
    decreases code_of(b, l).len() - pc,
{
    match spec_fetch(code_of(b, l), pc) {
        Ok((ins, next)) => if ins is End {
            s.len() > 0 && call_ensures(L::to_token, (s.last(),), token)
        } else if pc < next <= code_of(b, l).len() {
            exists|s2: Seq<L>|
                #[trigger] lane_step(b, l, feats, base, ins, s, s2) && evaluates(b, l, feats, base, next, s2, token)
        } else {
            false
        },
        Err(_) => false,
    }
}

proof fn lemma_step_len<L: Lane>(
    b: Seq<u8>,
    l: Layout,
    feats: Seq<L>,
    base: int,
    ins: Instr,
    s: Seq<L>,
    s2: Seq<L>,
)
    requires
        lane_step(b, l, feats, base, ins, s, s2),
        ins matches Instr::Op(o) ==> op_effect(o) is Some,
        instr_effect(ins).0 <= s.len(),
    ensures
        s2.len() == s.len() - instr_effect(ins).0 + instr_effect(ins).1,
{
}

proof fn lemma_eval_local<L: Lane>(
    b: Seq<u8>,
    l: Layout,
    feats: Seq<L>,
    base: int,
    pc: int,
    s: Seq<L>,
    t: u32,
)
    requires
        0 <= base,
        base + l.stride <= feats.len(),
        s.len() <= MAX_STACK,
        spec_code(code_of(b, l), pc, s.len() as int, l.stride, l.n_params, l.tables.len() as int) is Ok,
    ensures
        evaluates(b, l, feats, base, pc, s, t) == evaluates(
            b,
            l,
            feats.subrange(base, base + l.stride),
            0,
            pc,
            s,
            t,
        ),
    decreases code_of(b, l).len() - pc,
{
    let code = code_of(b, l);
    let sub = feats.subrange(base, base + l.stride);
    lemma_validated_step(code, pc, s.len() as int, l.stride, l.n_params, l.tables.len() as int);
    let (ins, next) = spec_fetch(code, pc)->Ok_0;
    if !(ins is End) {
        assert forall|s2: Seq<L>| lane_step(b, l, feats, base, ins, s, s2) == lane_step(b, l, sub, 0, ins, s, s2) by {
            if let Instr::LoadF(slot) = ins {
                assert(feats[base + slot as int] == sub[slot as int]);
            }
        }
        if evaluates(b, l, feats, base, pc, s, t) {
            let s2 = choose|s2: Seq<L>|
                #[trigger] lane_step(b, l, feats, base, ins, s, s2) && evaluates(b, l, feats, base, next, s2, t);
            lemma_step_len(b, l, feats, base, ins, s, s2);
            lemma_eval_local(b, l, feats, base, next, s2, t);
            assert(lane_step(b, l, sub, 0, ins, s, s2));
        }
        if evaluates(b, l, sub, 0, pc, s, t) {
            let s2 = choose|s2: Seq<L>|
                #[trigger] lane_step(b, l, sub, 0, ins, s, s2) && evaluates(b, l, sub, 0, next, s2, t);
            assert(lane_step(b, l, feats, base, ins, s, s2));
            lemma_step_len(b, l, feats, base, ins, s, s2);
            lemma_eval_local(b, l, feats, base, next, s2, t);
        }
    }
}

/// A cell's tokens depend on that cell's features alone: evaluating a validated program at
/// `base` in a feature buffer allows exactly the tokens that evaluating it on the cell's own
/// `stride` features, on their own, allows.
pub proof fn lemma_cell_reads_only_its_features<L: Lane>(
    b: Seq<u8>,
    l: Layout,
    feats: Seq<L>,
    base: int,
    t: u32,
)
    requires
        spec_validate(b) == Ok::<Layout, VmError>(l),
        0 <= base,
        base + l.stride <= feats.len(),
    ensures
        evaluates(b, l, feats, base, 0, Seq::<L>::empty(), t) == evaluates(
            b,
            l,
            feats.subrange(base, base + l.stride),
            0,
            0,
            Seq::<L>::empty(),
            t,
        ),
{
    lemma_eval_local(b, l, feats, base, 0, Seq::<L>::empty(), t);
}

/// Each of the lane's operations gives one result for given operands: whenever the lane can
/// give two results for the same call, they are equal.
pub open spec fn lane_deterministic<L: Lane>() -> bool {
    &&& forall|x: u32, r1: L, r2: L|
        call_ensures(L::from_bits, (x,), r1) && call_ensures(L::from_bits, (x,), r2) ==> r1 == r2
    &&& forall|x: u32, r1: L, r2: L|
        call_ensures(L::from_codepoint, (x,), r1) && call_ensures(L::from_codepoint, (x,), r2) ==> r1 == r2
    &&& forall|a: L, r1: bool, r2: bool|
        call_ensures(L::is_zero, (a,), r1) && call_ensures(L::is_zero, (a,), r2) ==> r1 == r2
    &&& forall|a: L, r1: usize, r2: usize|
        call_ensures(L::to_index, (a,), r1) && call_ensures(L::to_index, (a,), r2) ==> r1 == r2
    &&& forall|a: L, r1: u32, r2: u32|
        call_ensures(L::to_token, (a,), r1) && call_ensures(L::to_token, (a,), r2) ==> r1 == r2
    &&& forall|o: u8, a: L, r1: L, r2: L|
        call_ensures(L::unary, (o, a), r1) && call_ensures(L::unary, (o, a), r2) ==> r1 == r2
    &&& forall|o: u8, a: L, b: L, r1: L, r2: L|
        call_ensures(L::binary, (o, a, b), r1) && call_ensures(L::binary, (o, a, b), r2) ==> r1 == r2
    &&& forall|x: L, lo: L, hi: L, r1: L, r2: L|
        call_ensures(L::clamp, (x, lo, hi), r1) && call_ensures(L::clamp, (x, lo, hi), r2) ==> r1 == r2
}

proof fn lemma_step_unique<L: Lane>(
    b: Seq<u8>,
    l: Layout,
    feats: Seq<L>,
    base: int,
    ins: Instr,
    s: Seq<L>,
    s2: Seq<L>,
    s3: Seq<L>,
)
    requires
        lane_deterministic::<L>(),
        lane_step(b, l, feats, base, ins, s, s2),
        lane_step(b, l, feats, base, ins, s, s3),
    ensures
        s2 == s3,
{
    match ins {
        Instr::Table(t) => {
            let i2 = choose|idx: usize|
                call_ensures(L::to_index, (s.last(),), idx) && #[trigger] call_ensures(
                    L::from_codepoint,
                    (table_value(b, l, t as int, idx as int),),
                    s2.last(),
                );
            let i3 = choose|idx: usize|
                call_ensures(L::to_index, (s.last(),), idx) && #[trigger] call_ensures(
                    L::from_codepoint,
                    (table_value(b, l, t as int, idx as int),),
                    s3.last(),
                );
            assert(i2 == i3);
            assert(s2.last() == s3.last());
        },
        Instr::Op(o) => {
            if o == op::SELECT {
                let z2 = choose|z: bool|
                    #[trigger] call_ensures(L::is_zero, (s.drop_last().drop_last().last(),), z) && s2
                        == s.drop_last().drop_last().drop_last().push(
                        if z {
                            s.last()
                        } else {
                            s.drop_last().last()
                        },
                    );
                let z3 = choose|z: bool|
                    #[trigger] call_ensures(L::is_zero, (s.drop_last().drop_last().last(),), z) && s3
                        == s.drop_last().drop_last().drop_last().push(
                        if z {
                            s.last()
                        } else {
                            s.drop_last().last()
                        },
                    );
                assert(z2 == z3);
            } else if o != op::DUP && o != op::POP {
                assert(s2.last() == s3.last());
            }
        },
        _ => {},
    }
}

proof fn lemma_eval_unique<L: Lane>(
    b: Seq<u8>,
    l: Layout,
    feats: Seq<L>,
    base: int,
    pc: int,
    s: Seq<L>,
    t1: u32,
    t2: u32,
)
    requires
        lane_deterministic::<L>(),
        evaluates(b, l, feats, base, pc, s, t1),
        evaluates(b, l, feats, base, pc, s, t2),
    ensures
        t1 == t2,
    decreases code_of(b, l).len() - pc,
{
    let (ins, next) = spec_fetch(code_of(b, l), pc)->Ok_0;
    if !(ins is End) {
        let s2 = choose|s2: Seq<L>|
            #[trigger] lane_step(b, l, feats, base, ins, s, s2) && evaluates(b, l, feats, base, next, s2, t1);
        let s3 = choose|s2: Seq<L>|
            #[trigger] lane_step(b, l, feats, base, ins, s, s2) && evaluates(b, l, feats, base, next, s2, t2);
        lemma_step_unique(b, l, feats, base, ins, s, s2, s3);
        lemma_eval_unique(b, l, feats, base, next, s2, t1, t2);
    }
}

/// Evaluation is deterministic per cell whenever the lane is: if each lane operation gives
/// one result for given operands, then a validated program allows one token for a cell, and
/// that token depends on the cell's own features alone. So two cells with equal features,
/// in the same buffer or in different ones, get equal tokens.
pub proof fn lemma_cell_token_determined<L: Lane>(
    b: Seq<u8>,
    l: Layout,
    feats1: Seq<L>,
    base1: int,
    feats2: Seq<L>,
    base2: int,
    t1: u32,
    t2: u32,
)
    requires
        lane_deterministic::<L>(),
        spec_validate(b) == Ok::<Layout, VmError>(l),
        0 <= base1,
        base1 + l.stride <= feats1.len(),
        0 <= base2,
        base2 + l.stride <= feats2.len(),
        feats1.subrange(base1, base1 + l.stride) == feats2.subrange(base2, base2 + l.stride),
        evaluates(b, l, feats1, base1, 0, Seq::<L>::empty(), t1),
        evaluates(b, l, feats2, base2, 0, Seq::<L>::empty(), t2),
    ensures
        t1 == t2,
{
    let cell = feats1.subrange(base1, base1 + l.stride);
    lemma_eval_local(b, l, feats1, base1, 0, Seq::<L>::empty(), t1);
    lemma_eval_local(b, l, feats2, base2, 0, Seq::<L>::empty(), t2);
    lemma_eval_unique(b, l, cell, 0, 0, Seq::<L>::empty(), t1, t2);
}

fn pop_value<L: Lane>(stack: &mut Vec<L>) -> (v: L)
    requires
        old(stack)@.len() > 0,
    ensures
        final(stack)@ == old(stack)@.drop_last(),
        v == old(stack)@.last(),
{
    let top = stack.pop();
    top.unwrap()
}

/// Evaluate the program on the cell whose features start at `base`, giving its token. A
/// validated program reaches its `END` with its one result, every index in range, and the
/// token is one the lane gives for what the program computes on that cell.
fn eval_cell<L: Lane>(program: &Program, features: &[L], base: usize) -> (r: Result<u32, VmError>)
    requires
        program.wf(),
        base + program.layout().stride <= features@.len(),
    ensures
        r matches Ok(t) && evaluates(
            program.spec_bytes(),
            program.layout(),
            features@,
            base as int,
            0,
            Seq::<L>::empty(),
            t,
        ),
{
    let ghost b = program.spec_bytes();
    let ghost l = program.layout();
    let ghost feats = features@;
    let ghost code = program.code();
    let ghost stride = program.layout().stride;
    let ghost np = program.layout().n_params;
    let ghost nt = program.layout().tables.len() as int;
    let mut stack: Vec<L> = Vec::new();
    let mut pc: usize = 0;
    proof {
        program.lemma_code_checked();
    }
    loop
        invariant
            program.wf(),
            b == program.spec_bytes(),
            l == program.layout(),
            feats == features@,
            code == program.code(),
            code == code_of(b, l),
            stride == program.layout().stride,
            np == program.layout().n_params,
            nt == program.layout().tables.len(),
            base + stride <= features@.len(),
            stack@.len() <= MAX_STACK,
            spec_code(code, pc as int, stack@.len() as int, stride, np, nt) is Ok,
            forall|t: u32|
                #[trigger] evaluates(b, l, feats, base as int, pc as int, stack@, t) ==> evaluates(
                    b,
                    l,
                    feats,
                    base as int,
                    0,
                    Seq::<L>::empty(),
                    t,
                ),
        decreases code.len() - pc,
    {
        proof {
            lemma_validated_step(code, pc as int, stack@.len() as int, stride, np, nt);
        }
        let fetched = program.fetch(pc);
        let (ins, next) = match fetched {
            Ok(x) => x,
            Err(e) => {
                return Err(e);
            },
        };
        let ghost depth = stack@.len();
        let ghost s0 = stack@;
        assert(spec_fetch(code, pc as int) == Ok::<(Instr, int), VmError>((ins, next as int)));
        match ins {
            Instr::End => {
                let v = pop_value(&mut stack);
                let t = v.to_token();
                proof {
                    assert(evaluates(b, l, feats, base as int, pc as int, s0, t));
                }
                return Ok(t);
            },
            Instr::Const(bits) => {
                let v = L::from_bits(bits);
                stack.push(v);
                proof {
                    assert(lane_step(b, l, feats, base as int, ins, s0, stack@));
                }
            },
            Instr::LoadF(slot) => {
                let _n = features.len();
                let v = features[base + slot as usize];
                stack.push(v);
                proof {
                    assert(lane_step(b, l, feats, base as int, ins, s0, stack@));
                }
            },
            Instr::LoadP(i) => {
                match program.param_bits(i as usize) {
                    Ok(pb) => {
                        let v = L::from_bits(pb);
                        stack.push(v);
                        proof {
                            assert(lane_step(b, l, feats, base as int, ins, s0, stack@));
                        }
                    },
                    Err(e) => {
                        return Err(e);
                    },
                }
            },
            Instr::Table(t) => {
                let x = pop_value(&mut stack);
                let idx = x.to_index();
                match program.table_entry(t as usize, idx) {
                    Ok(cp) => {
                        let v = L::from_codepoint(cp);
                        stack.push(v);
                        proof {
                            assert(cp == table_value(b, l, t as int, idx as int));
                            assert(call_ensures(L::to_index, (s0.last(),), idx) && call_ensures(
                                L::from_codepoint,
                                (table_value(b, l, t as int, idx as int),),
                                stack@.last(),
                            ));
                            assert(lane_step(b, l, feats, base as int, ins, s0, stack@));
                        }
                    },
                    Err(e) => {
                        return Err(e);
                    },
                }
            },
            Instr::Op(o) => {
                if o == op::DUP {
                    let v = pop_value(&mut stack);
                    stack.push(v);
                    stack.push(v);
                    assert(stack@ =~= s0.push(s0.last()));
                } else if o == op::POP {
                    pop_value(&mut stack);
                } else if o == op::NEG || o == op::NOT || o == op::ABS || o == op::FLOOR || o == op::TRUNC {
                    let a = pop_value(&mut stack);
                    let v = L::unary(o, a);
                    stack.push(v);
                    assert(op_effect(o) == Some((1int, 1int)));
                    assert(stack@ == s0.drop_last().push(stack@.last()));
                } else if o == op::CLAMP {
                    let hi = pop_value(&mut stack);
                    let lo = pop_value(&mut stack);
                    let x = pop_value(&mut stack);
                    let v = L::clamp(x, lo, hi);
                    stack.push(v);
                    assert(op_effect(o) != Some((1int, 1int)));
                    assert(stack@ == s0.drop_last().drop_last().drop_last().push(stack@.last()));
                } else if o == op::SELECT {
                    let f = pop_value(&mut stack);
                    let t = pop_value(&mut stack);
                    let c = pop_value(&mut stack);
                    let z = c.is_zero();
                    stack.push(if z { f } else { t });
                    proof {
                        assert(op_effect(o) != Some((1int, 1int)));
                        assert(call_ensures(L::is_zero, (s0.drop_last().drop_last().last(),), z));
                    }
                } else {
                    let bv = pop_value(&mut stack);
                    let a = pop_value(&mut stack);
                    let v = L::binary(o, a, bv);
                    stack.push(v);
                    assert(op_effect(o) != Some((1int, 1int)));
                    assert(stack@ == s0.drop_last().drop_last().push(stack@.last()));
                }
                proof {
                    assert(lane_step(b, l, feats, base as int, ins, s0, stack@));
                }
            },
        }
        proof {
            assert(stack@.len() == depth - super::instr_effect(ins).0 + super::instr_effect(ins).1);
            assert forall|t: u32|
                #[trigger] evaluates(b, l, feats, base as int, next as int, stack@, t) implies evaluates(
                b,
                l,
                feats,
                base as int,
                pc as int,
                s0,
                t,
            ) by {
                assert(lane_step(b, l, feats, base as int, ins, s0, stack@));
            }
        }
        pc = next;
    }
}

/// Evaluate `program` on each of `ncells` cells of `features` (each `stride` values),
/// writing one token per cell to `out`. A request of the wrong shape is refused before any
/// cell is evaluated; a validated program then runs on every cell without a runtime error,
/// and each cell's token is one [`evaluates`] allows for that cell.
pub fn run<L: Lane>(program: &Program, features: &[L], ncells: usize, stride: usize, out: &mut [u32]) -> (r:
    Result<(), VmError>)
    requires
        program.wf(),
        features@.len() == usize::MAX ==> ncells * stride <= usize::MAX,
    ensures
        final(out)@.len() == old(out)@.len(),
        r is Err ==> final(out)@ == old(out)@,
        forall|k: int| ncells <= k < old(out)@.len() ==> final(out)@[k] == old(out)@[k],
        r is Ok ==> forall|c: int|
            0 <= c < ncells ==> evaluates(
                program.spec_bytes(),
                program.layout(),
                features@,
                c * stride,
                0,
                Seq::<L>::empty(),
                #[trigger] final(out)@[c],
            ),
        r == shape_verdict(
            program.layout().stride,
            features@.len() as int,
            ncells as int,
            stride as int,
            old(out)@.len() as int,
        ),
{
    let n_features = features.len();
    program.check_run_shape(n_features, ncells, stride, out.len())?;
    let ghost before = out@;
    let mut cell: usize = 0;
    while cell < ncells
        invariant
            program.wf(),
            stride == program.layout().stride,
            features@.len() == ncells * stride,
            n_features == features@.len(),
            before == old(out)@,
            ncells <= out@.len(),
            cell <= ncells,
            out@.len() == before.len(),
            forall|k: int| ncells <= k < before.len() ==> out@[k] == before[k],
            forall|c: int|
                0 <= c < cell ==> evaluates(
                    program.spec_bytes(),
                    program.layout(),
                    features@,
                    c * stride,
                    0,
                    Seq::<L>::empty(),
                    #[trigger] out@[c],
                ),
        decreases ncells - cell,
    {
        proof {
            assert(cell * stride + stride <= ncells * stride) by (nonlinear_arith)
                requires
                    cell < ncells,
            ;
        }
        let base = cell * stride;
        let token = eval_cell(program, features, base)?;
        out[cell] = token;
        cell += 1;
    }
    Ok(())
}

} // verus!
