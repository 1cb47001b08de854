use vstd::prelude::*;

use crate::host::NumOp;
use crate::host::NumReply;
use crate::host::NUM_FALSE_BITS;
use crate::host::NUM_TRUE_BITS;
use crate::instr::Instruction;
use crate::instr::REGISTER_COUNT;
use crate::value::StackValue;
use crate::value::VmError;

verus! {

/// A configuration of the machine during one execution: the operand stack,
/// the register file, and the instruction pointer. An instruction pointer
/// at or beyond the end of the program means execution has halted.
pub ghost struct Config {
    pub stack: Seq<StackValue>,
    pub regs: Seq<Option<StackValue>>,
    pub ip: nat,
}

/// The shape of an ordinary step: no fault, and the given stack, registers
/// and next instruction pointer.
pub open spec fn goes_to(
    c2: Config,
    out: Option<VmError>,
    stack: Seq<StackValue>,
    regs: Seq<Option<StackValue>>,
    ip: nat,
) -> bool {
    &&& out is None
    &&& c2.stack =~= stack
    &&& c2.regs =~= regs
    &&& c2.ip == ip
}

/// The shape of a faulting step: the error raised and the stack the
/// instruction leaves behind; effects before the fault are kept, nothing
/// is rolled back. The register file is never changed by a faulting
/// instruction, and the instruction pointer stays where the fault arose.
pub open spec fn faults(
    c1: Config,
    c2: Config,
    out: Option<VmError>,
    e: VmError,
    stack: Seq<StackValue>,
) -> bool {
    &&& out == Some(e)
    &&& c2.stack =~= stack
    &&& c2.regs =~= c1.regs
    &&& c2.ip == c1.ip
}

/// The text of a boolean.
pub open spec fn text_of_bool(b: bool) -> Seq<char> {
    if b {
        "true"@
    } else {
        "false"@
    }
}

/// Whether `t` is a text that value `v` prints as: the literal text of a
/// string, `true`/`false` for a boolean, and for a number a text that the
/// host's `Fmt` answers for it.
pub open spec fn text_rel<F: Fn(NumOp) -> NumReply>(num: F, v: StackValue, t: Seq<char>) -> bool {
    match v {
        StackValue::Number(n) => exists|s: String|
            s@ == t && #[trigger] call_ensures(num, (NumOp::Fmt(n),), NumReply::Text(s)),
        StackValue::String(s) => t == s@,
        StackValue::Bool(b) => t == text_of_bool(b),
    }
}

/// Whether `r` is the structural equality of `a` and `b`: values of
/// different kinds are never equal, strings compare by their text, booleans
/// by value, and numbers as the host's `Equal` answers (double equality,
/// which is not bit equality).
pub open spec fn eq_rel<F: Fn(NumOp) -> NumReply>(
    num: F,
    a: StackValue,
    b: StackValue,
    r: bool,
) -> bool {
    match (a, b) {
        (StackValue::Number(x), StackValue::Number(y)) => call_ensures(
            num,
            (NumOp::Equal(x, y),),
            NumReply::Flag(r),
        ),
        (StackValue::String(s1), StackValue::String(s2)) => r == (s1@ == s2@),
        (StackValue::Bool(b1), StackValue::Bool(b2)) => r == (b1 == b2),
        _ => r == false,
    }
}

/// How popping two number operands transforms a stack: the first pop is
/// the right-hand operand, the second pop the left-hand one, so the
/// first-pushed operand is the left-hand side. On success the result is
/// `(left, right)`; a fault leaves the values popped before it consumed.
pub open spec fn pop2_rel(
    s1: Seq<StackValue>,
    r: Result<(u64, u64), VmError>,
    s2: Seq<StackValue>,
) -> bool {
    if s1.len() == 0 {
        r == Err::<(u64, u64), VmError>(VmError::StackUnderflow) && s2 =~= s1
    } else if !(s1.last() is Number) {
        r == Err::<(u64, u64), VmError>(VmError::TypeMismatch) && s2 =~= s1.drop_last()
    } else if s1.len() == 1 {
        r == Err::<(u64, u64), VmError>(VmError::StackUnderflow) && s2 =~= s1.drop_last()
    } else if !(s1[s1.len() - 2] is Number) {
        r == Err::<(u64, u64), VmError>(VmError::TypeMismatch) && s2 =~= s1.drop_last().drop_last()
    } else {
        r == Ok::<(u64, u64), VmError>((s1[s1.len() - 2]->Number_0, s1.last()->Number_0)) && s2
            =~= s1.drop_last().drop_last()
    }
}

/// The concatenation of a sequence of texts, leftmost first.
pub open spec fn join_texts(ts: Seq<Seq<char>>) -> Seq<char>
    decreases ts.len(),
{
    if ts.len() == 0 {
        Seq::empty()
    } else {
        ts.first() + join_texts(ts.drop_first())
    }
}

pub proof fn lemma_join_texts_push(ts: Seq<Seq<char>>, t: Seq<char>)
    ensures
        join_texts(ts.push(t)) =~= join_texts(ts) + t,
    decreases ts.len(),
{
    if ts.len() == 0 {
        assert(ts.push(t).first() == t);
        assert(ts.push(t).drop_first() =~= Seq::<Seq<char>>::empty());
        assert(join_texts(ts.push(t)) =~= t + join_texts(Seq::<Seq<char>>::empty()));
        assert(join_texts(ts.push(t)) =~= t);
        assert(join_texts(ts) + t =~= t);
    } else {
        assert(ts.push(t).first() == ts.first());
        assert(ts.push(t).drop_first() =~= ts.drop_first().push(t));
        lemma_join_texts_push(ts.drop_first(), t);
        assert(join_texts(ts.push(t)) =~= ts.first() + (join_texts(ts.drop_first()) + t));
        assert(ts.first() + (join_texts(ts.drop_first()) + t) =~= (ts.first() + join_texts(
            ts.drop_first(),
        )) + t);
    }
}

/// Whether the instruction is one of the four binary arithmetic ones.
pub open spec fn is_arith(i: Instruction) -> bool {
    ||| i is Add
    ||| i is Sub
    ||| i is Mul
    ||| i is Div
}

/// The host request of a binary arithmetic instruction, left operand first.
pub open spec fn arith_op(i: Instruction, l: u64, r: u64) -> NumOp
    recommends
        is_arith(i),
{
    match i {
        Instruction::Add => NumOp::Add(l, r),
        Instruction::Sub => NumOp::Sub(l, r),
        Instruction::Mul => NumOp::Mul(l, r),
        _ => NumOp::Div(l, r),
    }
}

/// The host request of a comparison branch, left operand first.
pub open spec fn cmp_op(i: Instruction, l: u64, r: u64) -> NumOp
    recommends
        i is Brgrt || i is Brlst,
{
    if i is Brgrt {
        NumOp::Greater(l, r)
    } else {
        NumOp::Less(l, r)
    }
}

/// One binary arithmetic step: both operands are popped, first the
/// right-hand one, and the host's answer for the operation is pushed.
pub open spec fn arith_rel<F: Fn(NumOp) -> NumReply>(
    num: F,
    i: Instruction,
    c1: Config,
    c2: Config,
    out: Option<VmError>,
) -> bool
    recommends
        is_arith(i),
{
    let s = c1.stack;
    if s.len() == 0 {
        faults(c1, c2, out, VmError::StackUnderflow, s)
    } else if !(s.last() is Number) {
        faults(c1, c2, out, VmError::TypeMismatch, s.drop_last())
    } else if s.len() == 1 {
        faults(c1, c2, out, VmError::StackUnderflow, s.drop_last())
    } else if !(s[s.len() - 2] is Number) {
        faults(c1, c2, out, VmError::TypeMismatch, s.drop_last().drop_last())
    } else {
        exists|v: u64|
            #[trigger] call_ensures(
                num,
                (arith_op(i, s[s.len() - 2]->Number_0, s.last()->Number_0),),
                NumReply::Num(v),
            ) && goes_to(
                c2,
                out,
                s.drop_last().drop_last().push(StackValue::Number(v)),
                c1.regs,
                c1.ip + 1,
            )
    }
}

/// One comparison branch step: two numbers are popped as in arithmetic,
/// and the branch is taken exactly when the host answers `true` for the
/// comparison of the first-pushed operand with the second-pushed one.
pub open spec fn brcmp_rel<F: Fn(NumOp) -> NumReply>(
    num: F,
    i: Instruction,
    c1: Config,
    c2: Config,
    out: Option<VmError>,
    t: nat,
) -> bool
    recommends
        i is Brgrt || i is Brlst,
{
    let s = c1.stack;
    if s.len() == 0 {
        faults(c1, c2, out, VmError::StackUnderflow, s)
    } else if !(s.last() is Number) {
        faults(c1, c2, out, VmError::TypeMismatch, s.drop_last())
    } else if s.len() == 1 {
        faults(c1, c2, out, VmError::StackUnderflow, s.drop_last())
    } else if !(s[s.len() - 2] is Number) {
        faults(c1, c2, out, VmError::TypeMismatch, s.drop_last().drop_last())
    } else {
        let l = s[s.len() - 2]->Number_0;
        let r = s.last()->Number_0;
        ||| (call_ensures(num, (cmp_op(i, l, r),), NumReply::Flag(true)) && goes_to(
            c2,
            out,
            s.drop_last().drop_last(),
            c1.regs,
            t,
        ))
        ||| (call_ensures(num, (cmp_op(i, l, r),), NumReply::Flag(false)) && goes_to(
            c2,
            out,
            s.drop_last().drop_last(),
            c1.regs,
            c1.ip + 1,
        ))
    }
}

/// One numeric coercion step: a number stays itself, a boolean becomes
/// one or zero, and a string is parsed by the host, faulting when it is
/// not a numeric literal.
pub open spec fn tonum_rel<F: Fn(NumOp) -> NumReply>(
    num: F,
    c1: Config,
    c2: Config,
    out: Option<VmError>,
) -> bool {
    let s = c1.stack;
    if s.len() == 0 {
        faults(c1, c2, out, VmError::StackUnderflow, s)
    } else {
        match s.last() {
            StackValue::Number(_) => goes_to(c2, out, s, c1.regs, c1.ip + 1),
            StackValue::Bool(b) => goes_to(
                c2,
                out,
                s.drop_last().push(
                    StackValue::Number(
                        if b {
                            NUM_TRUE_BITS
                        } else {
                            NUM_FALSE_BITS
                        },
                    ),
                ),
                c1.regs,
                c1.ip + 1,
            ),
            StackValue::String(txt) => {
                ||| exists|v: u64|
                    #[trigger] call_ensures(num, (NumOp::Parse(txt),), NumReply::Parsed(Some(v)))
                        && goes_to(
                        c2,
                        out,
                        s.drop_last().push(StackValue::Number(v)),
                        c1.regs,
                        c1.ip + 1,
                    )
                ||| (call_ensures(num, (NumOp::Parse(txt),), NumReply::Parsed(None)) && faults(
                    c1,
                    c2,
                    out,
                    VmError::InvalidNumericLiteral,
                    s.drop_last(),
                ))
            },
        }
    }
}

/// One conditional branch step on a single value: a number branches when
/// the host finds it equal to `test_bits`, a boolean when it equals
/// `test_bool`; a string operand is a type fault. The value is consumed
/// either way.
pub open spec fn brbool_rel<F: Fn(NumOp) -> NumReply>(
    num: F,
    c1: Config,
    c2: Config,
    out: Option<VmError>,
    t: nat,
    test_bits: u64,
    test_bool: bool,
) -> bool {
    let s = c1.stack;
    if s.len() == 0 {
        faults(c1, c2, out, VmError::StackUnderflow, s)
    } else {
        match s.last() {
            StackValue::Number(x) => {
                ||| (call_ensures(num, (NumOp::Equal(x, test_bits),), NumReply::Flag(true))
                    && goes_to(c2, out, s.drop_last(), c1.regs, t))
                ||| (call_ensures(num, (NumOp::Equal(x, test_bits),), NumReply::Flag(false))
                    && goes_to(c2, out, s.drop_last(), c1.regs, c1.ip + 1))
            },
            StackValue::Bool(b) => goes_to(
                c2,
                out,
                s.drop_last(),
                c1.regs,
                if b == test_bool {
                    t
                } else {
                    c1.ip + 1
                },
            ),
            StackValue::String(_) => faults(c1, c2, out, VmError::TypeMismatch, s.drop_last()),
        }
    }
}

/// One equality branch step: two values are popped unconditionally, and
/// the branch is taken exactly when they are structurally equal.
pub open spec fn brequ_rel<F: Fn(NumOp) -> NumReply>(
    num: F,
    c1: Config,
    c2: Config,
    out: Option<VmError>,
    t: nat,
) -> bool {
    let s = c1.stack;
    if s.len() == 0 {
        faults(c1, c2, out, VmError::StackUnderflow, s)
    } else if s.len() == 1 {
        faults(c1, c2, out, VmError::StackUnderflow, s.drop_last())
    } else {
        ||| (eq_rel(num, s.last(), s[s.len() - 2], true) && goes_to(
            c2,
            out,
            s.drop_last().drop_last(),
            c1.regs,
            t,
        ))
        ||| (eq_rel(num, s.last(), s[s.len() - 2], false) && goes_to(
            c2,
            out,
            s.drop_last().drop_last(),
            c1.regs,
            c1.ip + 1,
        ))
    }
}

/// One concatenation step: the topmost `n` values are popped and replaced
/// by one string that joins their texts in original push order, the
/// value pushed first among them leftmost.
pub open spec fn cncat_rel<F: Fn(NumOp) -> NumReply>(
    num: F,
    c1: Config,
    c2: Config,
    out: Option<VmError>,
    n: nat,
) -> bool {
    let s = c1.stack;
    if s.len() < n {
        faults(c1, c2, out, VmError::StackUnderflow, Seq::empty())
    } else {
        exists|ts: Seq<Seq<char>>|
            #![auto]
            {
                &&& ts.len() == n
                &&& forall|j: int| 0 <= j < n ==> text_rel(num, s[s.len() - n + j], ts[j])
                &&& out is None
                &&& c2.stack.len() == s.len() - n + 1
                &&& c2.stack.drop_last() =~= s.take(s.len() - n)
                &&& c2.stack.last() is String
                &&& c2.stack.last()->String_0@ == join_texts(ts)
                &&& c2.regs =~= c1.regs
                &&& c2.ip == c1.ip + 1
            }
    }
}

/// The one-step transition relation of the machine: from configuration
/// `c1`, executing the instruction `c1.ip` points at in `prog`, the
/// machine may reach `c2`, with `out` the fault it raises, if any.
/// `fns` is the set of registered native function names; a native call
/// may leave any operand stack behind, and that is all that is promised
/// of it.
pub open spec fn step_rel<F: Fn(NumOp) -> NumReply>(
    num: F,
    fns: Set<Seq<char>>,
    prog: Seq<Instruction>,
    c1: Config,
    c2: Config,
    out: Option<VmError>,
) -> bool {
    &&& c1.ip < prog.len()
    &&& match prog[c1.ip as int] {
        Instruction::PushN(n) => goes_to(
            c2,
            out,
            c1.stack.push(StackValue::Number(n)),
            c1.regs,
            c1.ip + 1,
        ),
        Instruction::PushS(s) => goes_to(
            c2,
            out,
            c1.stack.push(StackValue::String(s)),
            c1.regs,
            c1.ip + 1,
        ),
        Instruction::PushB(b) => goes_to(
            c2,
            out,
            c1.stack.push(StackValue::Bool(b)),
            c1.regs,
            c1.ip + 1,
        ),
        Instruction::StReg(id) => {
            if id as int >= REGISTER_COUNT as int {
                faults(c1, c2, out, VmError::RegisterOutOfBounds, c1.stack)
            } else if c1.stack.len() == 0 {
                faults(c1, c2, out, VmError::StackUnderflow, c1.stack)
            } else {
                &&& out is None
                &&& c2.stack =~= c1.stack.drop_last()
                &&& c2.regs =~= c1.regs.update(id as int, Some(c1.stack.last()))
                &&& c2.ip == c1.ip + 1
            }
        },
        Instruction::StVar(_) => faults(c1, c2, out, VmError::UnreachableOpcode, c1.stack),
        Instruction::LdReg(id) => {
            if id as int >= REGISTER_COUNT as int {
                faults(c1, c2, out, VmError::RegisterOutOfBounds, c1.stack)
            } else if c1.regs[id as int] is None {
                faults(c1, c2, out, VmError::UninitializedRegister, c1.stack)
            } else {
                goes_to(c2, out, c1.stack.push(c1.regs[id as int]->0), c1.regs, c1.ip + 1)
            }
        },
        Instruction::LdVar(_) => faults(c1, c2, out, VmError::UnreachableOpcode, c1.stack),
        Instruction::Pop => {
            if c1.stack.len() == 0 {
                faults(c1, c2, out, VmError::StackUnderflow, c1.stack)
            } else {
                goes_to(c2, out, c1.stack.drop_last(), c1.regs, c1.ip + 1)
            }
        },
        Instruction::Add => arith_rel(num, prog[c1.ip as int], c1, c2, out),
        Instruction::Sub => arith_rel(num, prog[c1.ip as int], c1, c2, out),
        Instruction::Mul => arith_rel(num, prog[c1.ip as int], c1, c2, out),
        Instruction::Div => arith_rel(num, prog[c1.ip as int], c1, c2, out),
        Instruction::ToNum => tonum_rel(num, c1, c2, out),
        Instruction::SCall(name) => {
            if !fns.contains(name@) {
                faults(c1, c2, out, VmError::UndefinedFunction, c1.stack)
            } else {
                &&& out is None
                &&& c2.regs =~= c1.regs
                &&& c2.ip == c1.ip + 1
            }
        },
        Instruction::FCall(_) => faults(c1, c2, out, VmError::UnreachableOpcode, c1.stack),
        Instruction::Brnch(t) => goes_to(c2, out, c1.stack, c1.regs, t as nat),
        Instruction::Brzer(t) => brbool_rel(num, c1, c2, out, t as nat, NUM_FALSE_BITS, false),
        Instruction::Brone(t) => brbool_rel(num, c1, c2, out, t as nat, NUM_TRUE_BITS, true),
        Instruction::Brequ(t) => brequ_rel(num, c1, c2, out, t as nat),
        Instruction::Brgrt(t) => brcmp_rel(num, prog[c1.ip as int], c1, c2, out, t as nat),
        Instruction::Brlst(t) => brcmp_rel(num, prog[c1.ip as int], c1, c2, out, t as nat),
        Instruction::Retrn => faults(c1, c2, out, VmError::UnreachableOpcode, c1.stack),
        Instruction::TermP => goes_to(c2, out, c1.stack, c1.regs, prog.len()),
        Instruction::Cncat(n) => cncat_rel(num, c1, c2, out, n as nat),
    }
}

/// Whether `tr` is a fault-free trace of `prog`: each consecutive pair of
/// configurations is one step of the transition relation, the first is
/// `c0` and the last is `c`.
pub open spec fn is_trace<F: Fn(NumOp) -> NumReply>(
    num: F,
    fns: Set<Seq<char>>,
    prog: Seq<Instruction>,
    tr: Seq<Config>,
    c0: Config,
    c: Config,
) -> bool {
    &&& tr.len() >= 1
    &&& tr.first() == c0
    &&& tr.last() == c
    &&& forall|i: int|
        0 <= i < tr.len() - 1 ==> #[trigger] step_rel(
            num,
            fns,
            prog,
            tr[i],
            tr[i + 1],
            None::<VmError>,
        )
}

/// Whether configuration `c` is reached from `c0` by exactly `n`
/// fault-free steps of `prog`.
pub open spec fn reach<F: Fn(NumOp) -> NumReply>(
    num: F,
    fns: Set<Seq<char>>,
    prog: Seq<Instruction>,
    c0: Config,
    c: Config,
    n: nat,
) -> bool {
    exists|tr: Seq<Config>| #[trigger] is_trace(num, fns, prog, tr, c0, c) && tr.len() == n + 1
}

/// A configuration is reached from itself by zero steps.
pub proof fn lemma_reach_zero<F: Fn(NumOp) -> NumReply>(
    num: F,
    fns: Set<Seq<char>>,
    prog: Seq<Instruction>,
    c0: Config,
)
    ensures
        reach(num, fns, prog, c0, c0, 0),
{
    let tr = seq![c0];
    assert(tr.first() == c0);
    assert(tr.last() == c0);
    assert(is_trace(num, fns, prog, tr, c0, c0));
    assert(tr.len() == 0 + 1);
}

/// A trace extends by one step: what `n` steps reach and one more step
/// takes to `c2` is reached in `n + 1` steps.
pub proof fn lemma_reach_snoc<F: Fn(NumOp) -> NumReply>(
    num: F,
    fns: Set<Seq<char>>,
    prog: Seq<Instruction>,
    c0: Config,
    c1: Config,
    c2: Config,
    n: nat,
)
    requires
        reach(num, fns, prog, c0, c1, n),
        step_rel(num, fns, prog, c1, c2, None::<VmError>),
    ensures
        reach(num, fns, prog, c0, c2, n + 1),
{
    let tr = choose|tr: Seq<Config>|
        #[trigger] is_trace(num, fns, prog, tr, c0, c1) && tr.len() == n + 1;
    let tr2 = tr.push(c2);
    assert(tr2.first() == tr.first());
    assert(tr2.last() == c2);
    assert forall|i: int| 0 <= i < tr2.len() - 1 implies #[trigger] step_rel(
        num,
        fns,
        prog,
        tr2[i],
        tr2[i + 1],
        None::<VmError>,
    ) by {
        if i < tr.len() - 1 {
            assert(tr2[i] == tr[i]);
            assert(tr2[i + 1] == tr[i + 1]);
            assert(step_rel(num, fns, prog, tr[i], tr[i + 1], None::<VmError>));
        } else {
            assert(i == tr.len() - 1);
            assert(tr2[i] == tr[i]);
            assert(tr[i] == tr.last());
            assert(tr2[i + 1] == c2);
        }
    }
    assert(is_trace(num, fns, prog, tr2, c0, c2));
    assert(tr2.len() == (n + 1) + 1);
}

} // verus!
