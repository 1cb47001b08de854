use vstd::prelude::*;

use crate::host::NumOp;
use crate::host::NumReply;
use crate::instr::Instruction;
use crate::sem::arith_op;
use crate::sem::arith_rel;
use crate::sem::brcmp_rel;
use crate::sem::cmp_op;
use crate::sem::is_arith;
use crate::sem::is_trace;
use crate::sem::goes_to;
use crate::sem::reach;
use crate::sem::step_rel;
use crate::sem::Config;
use crate::value::StackValue;
use crate::value::VmError;

verus! {

/// Law: a program that pushes `a`, then `b`, then runs one binary
/// arithmetic instruction halts after exactly three steps, with the
/// host's answer for the operation on `(a, b)` — the first-pushed value
/// as the left operand, despite it being popped second — on top of
/// whatever the stack held before, and the registers untouched. This
/// holds for `Add`, and for the non-commutative `Sub`, `Mul` and `Div`
/// it pins the operand order.
pub proof fn lemma_arith_order<F: Fn(NumOp) -> NumReply>(
    num: F,
    fns: Set<Seq<char>>,
    instr: Instruction,
    a: u64,
    b: u64,
    c0: Config,
    c: Config,
    n: nat,
)
    requires
        is_arith(instr),
        c0.ip == 0,
        reach(
            num,
            fns,
            seq![Instruction::PushN(a), Instruction::PushN(b), instr],
            c0,
            c,
            n,
        ),
        c.ip >= 3,
    ensures
        n == 3,
        c.regs =~= c0.regs,
        exists|v: u64|
            c.stack =~= c0.stack.push(StackValue::Number(v)) && #[trigger] call_ensures(
                num,
                (arith_op(instr, a, b),),
                NumReply::Num(v),
            ),
{
    let prog = seq![Instruction::PushN(a), Instruction::PushN(b), instr];
    assert(prog.len() == 3);
    assert(prog[0] == Instruction::PushN(a));
    assert(prog[1] == Instruction::PushN(b));
    assert(prog[2] == instr);
    let tr = choose|tr: Seq<Config>|
        #[trigger] is_trace(num, fns, prog, tr, c0, c) && tr.len() == n + 1;
    assert(is_trace(num, fns, prog, tr, c0, c));
    assert(tr[0] == c0);
    assert(tr.last() == tr[n as int]);
    if n == 0 {
        assert(c.ip == c0.ip);
        assert(false);
    }
    assert(step_rel(num, fns, prog, tr[0], tr[1], None::<VmError>));
    assert(tr[1].stack == c0.stack.push(StackValue::Number(a)));
    assert(tr[1].regs == c0.regs);
    assert(tr[1].ip == 1);
    if n == 1 {
        assert(c == tr[1]);
        assert(false);
    }
    assert(step_rel(num, fns, prog, tr[1], tr[2], None::<VmError>));
    assert(tr[2].stack == tr[1].stack.push(StackValue::Number(b)));
    assert(tr[2].regs == c0.regs);
    assert(tr[2].ip == 2);
    if n == 2 {
        assert(c == tr[2]);
        assert(false);
    }
    assert(step_rel(num, fns, prog, tr[2], tr[2int + 1], None::<VmError>));
    assert(tr[2int + 1] == tr[3]);
    assert(arith_rel(num, instr, tr[2], tr[3], None::<VmError>));
    let s = tr[2].stack;
    assert(s.len() == c0.stack.len() + 2);
    assert(s.last() == StackValue::Number(b));
    assert(s[s.len() - 2] == StackValue::Number(a));
    let v = choose|v: u64|
        #[trigger] call_ensures(
            num,
            (arith_op(instr, s[s.len() - 2]->Number_0, s.last()->Number_0),),
            NumReply::Num(v),
        ) && goes_to(
            tr[3],
            None::<VmError>,
            s.drop_last().drop_last().push(StackValue::Number(v)),
            tr[2].regs,
            tr[2].ip + 1,
        );
    assert(s.drop_last() =~= tr[1].stack);
    assert(s.drop_last().drop_last() =~= c0.stack);
    assert(tr[3].stack =~= c0.stack.push(StackValue::Number(v)));
    assert(tr[3].regs == c0.regs);
    assert(tr[3].ip == 3);
    if n > 3 {
        assert(step_rel(num, fns, prog, tr[3], tr[3int + 1], None::<VmError>));
        assert(tr[3].ip < prog.len());
        assert(false);
    }
    assert(n == 3);
    assert(c == tr[3]);
    assert(c.stack =~= c0.stack.push(StackValue::Number(v)) && call_ensures(
        num,
        (arith_op(instr, a, b),),
        NumReply::Num(v),
    ));
}

/// Law: a comparison branch pops its operands as arithmetic does, the
/// first-pushed value as the left-hand side: a program that pushes `a`,
/// then `b`, then branches on a comparison halts after exactly three
/// steps, jumped to the target exactly when the host finds the comparison
/// of `a` with `b` true, with the operands consumed and the registers
/// untouched.
pub proof fn lemma_cmp_order<F: Fn(NumOp) -> NumReply>(
    num: F,
    fns: Set<Seq<char>>,
    instr: Instruction,
    t: usize,
    a: u64,
    b: u64,
    c0: Config,
    c: Config,
    n: nat,
)
    requires
        instr == Instruction::Brgrt(t) || instr == Instruction::Brlst(t),
        t >= 3,
        c0.ip == 0,
        reach(
            num,
            fns,
            seq![Instruction::PushN(a), Instruction::PushN(b), instr],
            c0,
            c,
            n,
        ),
        c.ip >= 3,
    ensures
        n == 3,
        c.stack =~= c0.stack,
        c.regs =~= c0.regs,
        (c.ip == t && call_ensures(num, (cmp_op(instr, a, b),), NumReply::Flag(true))) || (c.ip
            == 3 && call_ensures(num, (cmp_op(instr, a, b),), NumReply::Flag(false))),
{
    let prog = seq![Instruction::PushN(a), Instruction::PushN(b), instr];
    assert(prog.len() == 3);
    assert(prog[0] == Instruction::PushN(a));
    assert(prog[1] == Instruction::PushN(b));
    assert(prog[2] == instr);
    let tr = choose|tr: Seq<Config>|
        #[trigger] is_trace(num, fns, prog, tr, c0, c) && tr.len() == n + 1;
    assert(is_trace(num, fns, prog, tr, c0, c));
    assert(tr[0] == c0);
    assert(tr.last() == tr[n as int]);
    if n == 0 {
        assert(c.ip == c0.ip);
        assert(false);
    }
    assert(step_rel(num, fns, prog, tr[0], tr[1], None::<VmError>));
    assert(tr[1].stack == c0.stack.push(StackValue::Number(a)));
    assert(tr[1].regs == c0.regs);
    assert(tr[1].ip == 1);
    if n == 1 {
        assert(c == tr[1]);
        assert(false);
    }
    assert(step_rel(num, fns, prog, tr[1], tr[2], None::<VmError>));
    assert(tr[2].stack == tr[1].stack.push(StackValue::Number(b)));
    assert(tr[2].regs == c0.regs);
    assert(tr[2].ip == 2);
    if n == 2 {
        assert(c == tr[2]);
        assert(false);
    }
    assert(step_rel(num, fns, prog, tr[2], tr[2int + 1], None::<VmError>));
    assert(tr[2int + 1] == tr[3]);
    assert(brcmp_rel(num, instr, tr[2], tr[3], None::<VmError>, t as nat));
    let s = tr[2].stack;
    assert(s.len() == c0.stack.len() + 2);
    assert(s.last() == StackValue::Number(b));
    assert(s[s.len() - 2] == StackValue::Number(a));
    assert(s.drop_last() =~= tr[1].stack);
    assert(s.drop_last().drop_last() =~= c0.stack);
    assert(tr[3].stack =~= c0.stack);
    assert(tr[3].regs == c0.regs);
    assert(tr[3].ip == t || tr[3].ip == 3);
    if n > 3 {
        assert(step_rel(num, fns, prog, tr[3], tr[3int + 1], None::<VmError>));
        assert(tr[3].ip < prog.len());
        assert(false);
    }
    assert(n == 3);
    assert(c == tr[3]);
}

/// Law: an equality branch consumes exactly two stack values whether or
/// not the branch is taken, and never touches the registers.
pub proof fn lemma_brequ_consumes_two<F: Fn(NumOp) -> NumReply>(
    num: F,
    fns: Set<Seq<char>>,
    prog: Seq<Instruction>,
    c1: Config,
    c2: Config,
)
    requires
        step_rel(num, fns, prog, c1, c2, None::<VmError>),
        prog[c1.ip as int] is Brequ,
    ensures
        c1.stack.len() >= 2,
        c2.stack =~= c1.stack.drop_last().drop_last(),
        c2.regs =~= c1.regs,
{
}

/// Law: a `TermP` step halts execution at once — the next instruction
/// pointer is past the whole program — and leaves the stack and the
/// registers exactly as they were.
pub proof fn lemma_terminate_halts<F: Fn(NumOp) -> NumReply>(
    num: F,
    fns: Set<Seq<char>>,
    prog: Seq<Instruction>,
    c1: Config,
    c2: Config,
)
    requires
        step_rel(num, fns, prog, c1, c2, None::<VmError>),
        prog[c1.ip as int] is TermP,
    ensures
        c2.ip == prog.len(),
        c2.stack =~= c1.stack,
        c2.regs =~= c1.regs,
{
}

/// Law: a halted configuration takes no step of any kind, so no
/// instruction after a halt executes.
pub proof fn lemma_halted_no_step<F: Fn(NumOp) -> NumReply>(
    num: F,
    fns: Set<Seq<char>>,
    prog: Seq<Instruction>,
    c: Config,
    c2: Config,
    out: Option<VmError>,
)
    requires
        c.ip >= prog.len(),
    ensures
        !step_rel(num, fns, prog, c, c2, out),
{
}

} // verus!
