use vstd::prelude::*;

use crate::host::host_ok;
use crate::host::NativeFn;
use crate::host::NumOp;
use crate::host::NumReply;
use crate::host::NUM_FALSE_BITS;
use crate::host::NUM_TRUE_BITS;
use crate::instr::Instruction;
use crate::instr::REGISTER_COUNT;
use crate::sem::arith_rel;
use crate::sem::arith_op;
use crate::sem::brbool_rel;
use crate::sem::brcmp_rel;
use crate::sem::cmp_op;
use crate::sem::cncat_rel;
use crate::sem::eq_rel;
use crate::sem::is_arith;
use crate::sem::join_texts;
use crate::sem::lemma_join_texts_push;
use crate::sem::pop2_rel;
use crate::sem::lemma_reach_snoc;
use crate::sem::lemma_reach_zero;
use crate::sem::reach;
use crate::sem::step_rel;
use crate::sem::text_rel;
use crate::sem::Config;
use crate::value::StackValue;
use crate::value::VmError;

verus! {

/// How a bounded execution ended when no fault stopped it.
#[derive(Debug, Clone, Copy, PartialEq, Eq, Structural)]
pub enum ExecEnd {
    /// The program halted: a `TermP` ran, or the instruction pointer left
    /// the instruction sequence.
    Completed,
    /// The step bound ran out first; the engine state is that of the
    /// interrupted execution.
    OutOfFuel,
}

/// Whether `a` and `b` are structurally equal, asking the host for number
/// equality.
fn values_equal<F: Fn(NumOp) -> NumReply>(num: &F, a: &StackValue, b: &StackValue) -> (r: bool)
    requires
        host_ok(*num),
    ensures
        eq_rel(*num, *a, *b, r),
{
    match (a, b) {
        (StackValue::Number(x), StackValue::Number(y)) => {
            let reply = (*num)(NumOp::Equal(*x, *y));
            match reply {
                NumReply::Flag(f) => f,
                _ => {
                    proof {
                        assert(false);
                    }
                    false
                },
            }
        },
        (StackValue::String(s1), StackValue::String(s2)) => s1.eq(s2),
        (StackValue::Bool(b1), StackValue::Bool(b2)) => b1 == b2,
        _ => false,
    }
}

/// The text of a value: a string prints as itself, a boolean as `true` or
/// `false`, and a number as the host's `Fmt` answer.
fn value_text<F: Fn(NumOp) -> NumReply>(num: &F, v: &StackValue) -> (r: String)
    requires
        host_ok(*num),
    ensures
        text_rel(*num, *v, r@),
{
    match v {
        StackValue::String(s) => s.clone(),
        StackValue::Bool(b) => {
            if *b {
                "true".to_owned()
            } else {
                "false".to_owned()
            }
        },
        StackValue::Number(n) => {
            let reply = (*num)(NumOp::Fmt(*n));
            match reply {
                NumReply::Text(s) => s,
                _ => {
                    proof {
                        assert(false);
                    }
                    String::new()
                },
            }
        },
    }
}

/// The table of registered native function bodies. Verus cannot reason
/// about a vector of trait objects, so the vector is hidden behind this
/// struct and reached only through the trusted operations below;
/// `table_len` names how many entries it holds and `table_entry` the entry
/// in each slot.
#[verifier::external_body]
pub struct NativeTable {
    entries: Vec<Box<dyn NativeFn>>,
}

/// The number of native function bodies the table holds.
pub uninterp spec fn table_len(t: NativeTable) -> nat;

/// The entry the table holds at slot `i`. Nothing can be said of what an
/// entry does, but which slot holds which entry can: the wrappers below
/// state which slots each operation fills and which it leaves alone.
pub uninterp spec fn table_entry(t: NativeTable, i: int) -> Box<dyn NativeFn>;

/// Relies on Vec::new: a fresh table holds no entries.
#[verifier::external_body]
fn table_new() -> (r: NativeTable)
    ensures
        table_len(r) == 0,
{
    NativeTable { entries: Vec::new() }
}

/// Relies on Vec::push: appends the given entry at the table's tail and
/// leaves every prior slot as it was.
#[verifier::external_body]
fn table_push(t: &mut NativeTable, f: Box<dyn NativeFn>)
    ensures
        table_len(*final(t)) == table_len(*old(t)) + 1,
        table_entry(*final(t), table_len(*old(t)) as int) == f,
        forall|k: int|
            0 <= k < table_len(*old(t)) ==> #[trigger] table_entry(*final(t), k) == table_entry(
                *old(t),
                k,
            ),
{
    t.entries.push(f);
}

/// Relies on the vector's index assignment: slot `i` now holds the given
/// entry, and every other slot is left as it was.
#[verifier::external_body]
fn table_set(t: &mut NativeTable, i: usize, f: Box<dyn NativeFn>)
    requires
        i < table_len(*old(t)),
    ensures
        table_len(*final(t)) == table_len(*old(t)),
        table_entry(*final(t), i as int) == f,
        forall|k: int|
            0 <= k < table_len(*old(t)) && k != i ==> #[trigger] table_entry(*final(t), k)
                == table_entry(*old(t), k),
{
    t.entries[i] = f;
}

/// Relies on Vec indexing to reach the entry at `i`; the call itself is
/// host code, and nothing is promised of what it does to the stack or
/// returns: a native function may pop any number of values and answer
/// anything.
#[verifier::external_body]
fn table_call(t: &NativeTable, i: usize, stack: &mut Vec<StackValue>) -> (r: Option<StackValue>)
    requires
        i < table_len(*t),
{
    t.entries[i].call(stack)
}

/// The execution engine: an operand stack, a fixed file of registers, and
/// a table of host-registered native functions. All three persist across
/// calls to `execute`, so a host can run a program in several pieces.
pub struct VmEngine {
    pub stack: Vec<StackValue>,
    pub registers: Vec<Option<StackValue>>,
    pub function_names: Vec<String>,
    pub function_bodies: NativeTable,
}

impl VmEngine {
    /// Well-formed: the register file has exactly its fixed size.
    pub open spec fn wf(self) -> bool {
        &&& self.registers@.len() == REGISTER_COUNT as nat
        &&& self.function_names@.len() == table_len(self.function_bodies)
        &&& forall|i: int, j: int|
            #![trigger self.function_names@[i], self.function_names@[j]]
            0 <= i < j < self.function_names@.len() ==> self.function_names@[i]@
                != self.function_names@[j]@
    }

    /// The set of registered native function names.
    pub open spec fn fn_names(self) -> Set<Seq<char>> {
        Set::new(
            |n: Seq<char>|
                exists|i: int|
                    0 <= i < self.function_names@.len() && #[trigger] self.function_names@[i]@
                        == n,
        )
    }

    /// The configuration of this engine at instruction pointer `ip`.
    pub open spec fn at(self, ip: nat) -> Config {
        Config { stack: self.stack@, regs: self.registers@, ip }
    }

    /// A fresh engine: empty stack, all register slots empty, no native
    /// functions registered.
    pub fn new() -> (r: Self)
        ensures
            r.wf(),
            r.stack@.len() == 0,
            forall|j: int| 0 <= j < REGISTER_COUNT ==> r.registers@[j] is None,
            r.fn_names() =~= Set::<Seq<char>>::empty(),
    {
        let mut registers: Vec<Option<StackValue>> = Vec::new();
        let mut i: usize = 0;
        while i < REGISTER_COUNT
            invariant
                i <= REGISTER_COUNT,
                registers@.len() == i,
                forall|j: int| 0 <= j < i ==> registers@[j] is None,
            decreases REGISTER_COUNT - i,
        {
            registers.push(None);
            i += 1;
        }
        VmEngine {
            stack: Vec::new(),
            registers,
            function_names: Vec::new(),
            function_bodies: table_new(),
        }
    }

    /// Binds `name` to a native function. Re-registering a name replaces
    /// the prior binding in place and a fresh name appends its binding at
    /// the end of the table. The contract pins everything around that: the
    /// name set grows by exactly this name, names stay free of duplicates,
    /// only the named slot may change, and every other binding is kept.
    /// That the changed slot now holds the given function is stated by
    /// `table_set` and `table_push` themselves: Verus does not carry the
    /// identity of a trait-object value across a call, so that one clause
    /// cannot be restated here.
    pub fn register_function(&mut self, name: &str, function: Box<dyn NativeFn>)
        requires
            old(self).wf(),
        ensures
            final(self).wf(),
            final(self).stack == old(self).stack,
            final(self).registers == old(self).registers,
            final(self).fn_names() =~= old(self).fn_names().insert(name@),
            old(self).fn_names().contains(name@) ==> final(self).function_names == old(
                self,
            ).function_names,
            old(self).fn_names().contains(name@) ==> table_len(final(self).function_bodies)
                == table_len(old(self).function_bodies),
            old(self).fn_names().contains(name@) ==> forall|k: int|
                0 <= k < old(self).function_names@.len() && old(self).function_names@[k]@ != name@
                    ==> #[trigger] table_entry(final(self).function_bodies, k) == table_entry(
                    old(self).function_bodies,
                    k,
                ),
            !old(self).fn_names().contains(name@) ==> final(self).function_names@.len() == old(
                self,
            ).function_names@.len() + 1,
            !old(self).fn_names().contains(name@) ==> final(self).function_names@[old(
                self,
            ).function_names@.len() as int]@ == name@,
            !old(self).fn_names().contains(name@) ==> forall|i: int|
                0 <= i < old(self).function_names@.len() ==> final(self).function_names@[i] == old(
                    self,
                ).function_names@[i],
            !old(self).fn_names().contains(name@) ==> table_len(final(self).function_bodies)
                == table_len(old(self).function_bodies) + 1,
            !old(self).fn_names().contains(name@) ==> forall|k: int|
                0 <= k < old(self).function_names@.len() ==> #[trigger] table_entry(
                    final(self).function_bodies,
                    k,
                ) == table_entry(old(self).function_bodies, k),
    {
        let owned: String = name.to_owned();
        let mut j: usize = 0;
        while j < self.function_names.len()
            invariant
                j <= self.function_names@.len(),
                owned@ == name@,
                forall|i: int| 0 <= i < j ==> self.function_names@[i]@ != name@,
                self.wf(),
                *self == *old(self),
            decreases self.function_names@.len() - j,
        {
            if self.function_names[j].eq(&owned) {
                proof {
                    assert(self.function_names@[j as int]@ == name@);
                    assert(old(self).fn_names().contains(name@));
                }
                table_set(&mut self.function_bodies, j, function);
                proof {
                    assert(self.fn_names().contains(name@));
                    assert(self.fn_names() =~= old(self).fn_names().insert(name@));
                }
                return ;
            }
            j += 1;
        }
        proof {
            assert forall|i: int|
                0 <= i < self.function_names@.len() implies self.function_names@[i]@
                != name@ by {}
            assert(!old(self).fn_names().contains(name@));
        }
        table_push(&mut self.function_bodies, function);
        self.function_names.push(owned);
        proof {
            let len = old(self).function_names@.len();
            assert(self.function_names@[len as int]@ == name@);
            assert forall|n: Seq<char>|
                self.fn_names().contains(n) == old(self).fn_names().insert(name@).contains(
                    n,
                ) by {
                if n == name@ {
                    assert(self.fn_names().contains(n));
                } else {
                    assert forall|i: int|
                        0 <= i < len implies (self.function_names@[i]@ == n <==> old(
                        self,
                    ).function_names@[i]@ == n) by {}
                }
            }
            assert(self.fn_names() =~= old(self).fn_names().insert(name@));
            assert forall|i1: int, i2: int|
                0 <= i1 < i2 < self.function_names@.len() implies self.function_names@[i1]@
                != self.function_names@[i2]@ by {
                assert(self.function_names@[i1] == old(self).function_names@[i1]);
                if i2 == len {
                    assert(old(self).function_names@[i1]@ != name@);
                } else {
                    assert(self.function_names@[i2] == old(self).function_names@[i2]);
                }
            }
        }
    }

    /// The current top of the stack, without removing it; `None` when the
    /// stack is empty.
    pub fn stack_top(&self) -> (r: Option<&StackValue>)
        ensures
            match r {
                Some(v) => self.stack@.len() > 0 && *v == self.stack@.last(),
                None => self.stack@.len() == 0,
            },
    {
        if self.stack.len() == 0 {
            None
        } else {
            Some(&self.stack[self.stack.len() - 1])
        }
    }

    /// The index of the native function registered under `name`, if any.
    fn lookup(&self, name: &String) -> (r: Option<usize>)
        ensures
            match r {
                Some(i) => i < self.function_names@.len() && self.function_names@[i as int]@
                    == name@,
                None => !self.fn_names().contains(name@),
            },
    {
        let mut j: usize = 0;
        while j < self.function_names.len()
            invariant
                j <= self.function_names@.len(),
                forall|i: int| 0 <= i < j ==> self.function_names@[i]@ != name@,
            decreases self.function_names@.len() - j,
        {
            if self.function_names[j].eq(name) {
                return Some(j);
            }
            j += 1;
        }
        None
    }

    /// Pops the stack top; a pop on an empty stack is a `StackUnderflow`.
    fn pop_value(&mut self) -> (r: Result<StackValue, VmError>)
        ensures
            final(self).registers == old(self).registers,
            final(self).function_names == old(self).function_names,
            final(self).function_bodies == old(self).function_bodies,
            match r {
                Ok(v) => old(self).stack@.len() > 0 && v == old(self).stack@.last()
                    && final(self).stack@ =~= old(self).stack@.drop_last(),
                Err(e) => e == VmError::StackUnderflow && old(self).stack@.len() == 0
                    && final(self).stack@ =~= old(self).stack@,
            },
    {
        match self.stack.pop() {
            Some(v) => Ok(v),
            None => Err(VmError::StackUnderflow),
        }
    }

    /// Pops the two operands of a binary number operation: the first pop
    /// is the right-hand side, the second the left-hand side.
    fn pop_two_numbers(&mut self) -> (r: Result<(u64, u64), VmError>)
        ensures
            final(self).registers == old(self).registers,
            final(self).function_names == old(self).function_names,
            final(self).function_bodies == old(self).function_bodies,
            pop2_rel(old(self).stack@, r, final(self).stack@),
    {
        let rhs = match self.pop_value() {
            Ok(StackValue::Number(x)) => x,
            Ok(_) => {
                return Err(VmError::TypeMismatch);
            },
            Err(e) => {
                return Err(e);
            },
        };
        let lhs = match self.pop_value() {
            Ok(StackValue::Number(x)) => x,
            Ok(_) => {
                return Err(VmError::TypeMismatch);
            },
            Err(e) => {
                return Err(e);
            },
        };
        Ok((lhs, rhs))
    }

    /// One binary arithmetic instruction: pop two numbers, push the
    /// host's answer for the operation.
    fn arith_step<F: Fn(NumOp) -> NumReply>(
        &mut self,
        num: &F,
        i: &Instruction,
        ip: usize,
    ) -> (r: Result<usize, VmError>)
        requires
            host_ok(*num),
            is_arith(*i),
            ip < usize::MAX,
        ensures
            final(self).registers == old(self).registers,
            final(self).function_names == old(self).function_names,
            final(self).function_bodies == old(self).function_bodies,
            match r {
                Ok(ip2) => ip2 == ip + 1 && arith_rel(
                    *num,
                    *i,
                    old(self).at(ip as nat),
                    final(self).at(ip2 as nat),
                    None::<VmError>,
                ),
                Err(e) => arith_rel(
                    *num,
                    *i,
                    old(self).at(ip as nat),
                    final(self).at(ip as nat),
                    Some(e),
                ),
            },
    {
        let (lhs, rhs) = match self.pop_two_numbers() {
            Ok(p) => p,
            Err(e) => {
                return Err(e);
            },
        };
        let op = match i {
            Instruction::Add => NumOp::Add(lhs, rhs),
            Instruction::Sub => NumOp::Sub(lhs, rhs),
            Instruction::Mul => NumOp::Mul(lhs, rhs),
            _ => NumOp::Div(lhs, rhs),
        };
        proof {
            assert(op == arith_op(*i, lhs, rhs));
        }
        let reply = (*num)(op);
        match reply {
            NumReply::Num(v) => {
                self.stack.push(StackValue::Number(v));
                Ok(ip + 1)
            },
            _ => {
                proof {
                    assert(false);
                }
                Err(VmError::TypeMismatch)
            },
        }
    }

    /// One comparison branch: pop two numbers, branch to `t` exactly when
    /// the host answers `true` for the comparison.
    fn cmp_step<F: Fn(NumOp) -> NumReply>(
        &mut self,
        num: &F,
        i: &Instruction,
        ip: usize,
        t: usize,
    ) -> (r: Result<usize, VmError>)
        requires
            host_ok(*num),
            *i is Brgrt || *i is Brlst,
            ip < usize::MAX,
        ensures
            final(self).registers == old(self).registers,
            final(self).function_names == old(self).function_names,
            final(self).function_bodies == old(self).function_bodies,
            match r {
                Ok(ip2) => brcmp_rel(
                    *num,
                    *i,
                    old(self).at(ip as nat),
                    final(self).at(ip2 as nat),
                    None::<VmError>,
                    t as nat,
                ),
                Err(e) => brcmp_rel(
                    *num,
                    *i,
                    old(self).at(ip as nat),
                    final(self).at(ip as nat),
                    Some(e),
                    t as nat,
                ),
            },
    {
        let (lhs, rhs) = match self.pop_two_numbers() {
            Ok(p) => p,
            Err(e) => {
                return Err(e);
            },
        };
        let op = match i {
            Instruction::Brgrt(_) => NumOp::Greater(lhs, rhs),
            _ => NumOp::Less(lhs, rhs),
        };
        proof {
            assert(op == cmp_op(*i, lhs, rhs));
        }
        let reply = (*num)(op);
        match reply {
            NumReply::Flag(f) => {
                if f {
                    Ok(t)
                } else {
                    Ok(ip + 1)
                }
            },
            _ => {
                proof {
                    assert(false);
                }
                Err(VmError::TypeMismatch)
            },
        }
    }

    /// One single-value conditional branch: a number branches when the
    /// host finds it equal to `test_bits`, a boolean when it equals
    /// `test_bool`; a string operand is a type fault.
    fn brbool_step<F: Fn(NumOp) -> NumReply>(
        &mut self,
        num: &F,
        ip: usize,
        t: usize,
        test_bits: u64,
        test_bool: bool,
    ) -> (r: Result<usize, VmError>)
        requires
            host_ok(*num),
            ip < usize::MAX,
        ensures
            final(self).registers == old(self).registers,
            final(self).function_names == old(self).function_names,
            final(self).function_bodies == old(self).function_bodies,
            match r {
                Ok(ip2) => brbool_rel(
                    *num,
                    old(self).at(ip as nat),
                    final(self).at(ip2 as nat),
                    None::<VmError>,
                    t as nat,
                    test_bits,
                    test_bool,
                ),
                Err(e) => brbool_rel(
                    *num,
                    old(self).at(ip as nat),
                    final(self).at(ip as nat),
                    Some(e),
                    t as nat,
                    test_bits,
                    test_bool,
                ),
            },
    {
        let v = match self.pop_value() {
            Ok(v) => v,
            Err(e) => {
                return Err(e);
            },
        };
        match v {
            StackValue::Number(x) => {
                let reply = (*num)(NumOp::Equal(x, test_bits));
                match reply {
                    NumReply::Flag(f) => {
                        if f {
                            Ok(t)
                        } else {
                            Ok(ip + 1)
                        }
                    },
                    _ => {
                        proof {
                            assert(false);
                        }
                        Err(VmError::TypeMismatch)
                    },
                }
            },
            StackValue::Bool(b) => {
                if b == test_bool {
                    Ok(t)
                } else {
                    Ok(ip + 1)
                }
            },
            StackValue::String(_) => Err(VmError::TypeMismatch),
        }
    }

    /// One concatenation: pop `n` values and push one string joining
    /// their texts, the first-pushed value leftmost.
    fn concat_step<F: Fn(NumOp) -> NumReply>(&mut self, num: &F, ip: usize, n: usize) -> (r:
        Result<usize, VmError>)
        requires
            host_ok(*num),
            ip < usize::MAX,
        ensures
            final(self).registers == old(self).registers,
            final(self).function_names == old(self).function_names,
            final(self).function_bodies == old(self).function_bodies,
            match r {
                Ok(ip2) => ip2 == ip + 1 && cncat_rel(
                    *num,
                    old(self).at(ip as nat),
                    final(self).at(ip2 as nat),
                    None::<VmError>,
                    n as nat,
                ),
                Err(e) => cncat_rel(
                    *num,
                    old(self).at(ip as nat),
                    final(self).at(ip as nat),
                    Some(e),
                    n as nat,
                ),
            },
    {
        let ghost s0 = self.stack@;
        if self.stack.len() < n {
            self.stack = Vec::new();
            return Err(VmError::StackUnderflow);
        }
        let mut vals: Vec<StackValue> = Vec::new();
        let mut k: usize = 0;
        while k < n
            invariant
                k <= n,
                n <= s0.len(),
                self.stack@ =~= s0.take(s0.len() - k),
                vals@.len() == k,
                forall|j: int| 0 <= j < k ==> vals@[j] == s0[s0.len() - 1 - j],
                self.registers == old(self).registers,
                self.function_names == old(self).function_names,
                self.function_bodies == old(self).function_bodies,
            decreases n - k,
        {
            match self.stack.pop() {
                Some(v) => {
                    vals.push(v);
                },
                None => {
                    proof {
                        assert(false);
                    }
                    return Err(VmError::StackUnderflow);
                },
            }
            k += 1;
        }
        let mut text = String::new();
        let ghost mut ts: Seq<Seq<char>> = Seq::empty();
        let mut k2: usize = n;
        while k2 > 0
            invariant
                k2 <= n,
                n <= s0.len(),
                host_ok(*num),
                vals@.len() == n,
                forall|j: int| 0 <= j < n ==> vals@[j] == s0[s0.len() - 1 - j],
                text@ == join_texts(ts),
                ts.len() == n - k2,
                forall|j: int|
                    0 <= j < n - k2 ==> #[trigger] text_rel(*num, s0[s0.len() - n + j], ts[j]),
                self.stack@ =~= s0.take(s0.len() - n),
                self.registers == old(self).registers,
                self.function_names == old(self).function_names,
                self.function_bodies == old(self).function_bodies,
            decreases k2,
        {
            let t = value_text(num, &vals[k2 - 1]);
            text.append(t.as_str());
            proof {
                lemma_join_texts_push(ts, t@);
                assert(vals@[k2 - 1] == s0[s0.len() - 1 - (k2 - 1)]);
                assert(s0.len() - 1 - (k2 - 1) == s0.len() - n + (n - k2));
                ts = ts.push(t@);
            }
            k2 -= 1;
        }
        self.stack.push(StackValue::String(text));
        proof {
            assert(self.stack@.drop_last() =~= s0.take(s0.len() - n));
            assert(self.stack@.last()->String_0@ == join_texts(ts));
        }
        Ok(ip + 1)
    }

    /// Executes the single instruction `ip` points at, returning the next
    /// instruction pointer, or the fault that stops execution. This is
    /// exactly one step of the machine's transition relation; a returned
    /// pointer at or beyond the end of the program means it halted.
    pub fn step<F: Fn(NumOp) -> NumReply>(
        &mut self,
        instructions: &[Instruction],
        num: &F,
        ip: usize,
    ) -> (r: Result<usize, VmError>)
        requires
            host_ok(*num),
            old(self).wf(),
            ip < instructions@.len(),
        ensures
            final(self).wf(),
            final(self).function_names == old(self).function_names,
            final(self).function_bodies == old(self).function_bodies,
            match r {
                Ok(ip2) => step_rel(
                    *num,
                    old(self).fn_names(),
                    instructions@,
                    old(self).at(ip as nat),
                    final(self).at(ip2 as nat),
                    None::<VmError>,
                ),
                Err(e) => step_rel(
                    *num,
                    old(self).fn_names(),
                    instructions@,
                    old(self).at(ip as nat),
                    final(self).at(ip as nat),
                    Some(e),
                ),
            },
    {
        let instr = &instructions[ip];
        match instr {
            Instruction::PushN(n) => {
                self.stack.push(StackValue::Number(*n));
                Ok(ip + 1)
            },
            Instruction::PushS(s) => {
                self.stack.push(StackValue::String(s.clone()));
                Ok(ip + 1)
            },
            Instruction::PushB(b) => {
                self.stack.push(StackValue::Bool(*b));
                Ok(ip + 1)
            },
            Instruction::StReg(id) => {
                let idx = *id as usize;
                if idx >= REGISTER_COUNT {
                    return Err(VmError::RegisterOutOfBounds);
                }
                match self.pop_value() {
                    Ok(v) => {
                        self.registers[idx] = Some(v);
                        Ok(ip + 1)
                    },
                    Err(e) => Err(e),
                }
            },
            Instruction::StVar(_) => Err(VmError::UnreachableOpcode),
            Instruction::LdReg(id) => {
                let idx = *id as usize;
                if idx >= REGISTER_COUNT {
                    return Err(VmError::RegisterOutOfBounds);
                }
                match &self.registers[idx] {
                    Some(v) => {
                        let copy = v.duplicate();
                        self.stack.push(copy);
                        Ok(ip + 1)
                    },
                    None => Err(VmError::UninitializedRegister),
                }
            },
            Instruction::LdVar(_) => Err(VmError::UnreachableOpcode),
            Instruction::Pop => {
                match self.pop_value() {
                    Ok(_) => Ok(ip + 1),
                    Err(e) => Err(e),
                }
            },
            Instruction::Add => self.arith_step(num, instr, ip),
            Instruction::Sub => self.arith_step(num, instr, ip),
            Instruction::Mul => self.arith_step(num, instr, ip),
            Instruction::Div => self.arith_step(num, instr, ip),
            Instruction::ToNum => {
                let v = match self.pop_value() {
                    Ok(v) => v,
                    Err(e) => {
                        return Err(e);
                    },
                };
                match v {
                    StackValue::Number(x) => {
                        self.stack.push(StackValue::Number(x));
                        Ok(ip + 1)
                    },
                    StackValue::Bool(b) => {
                        self.stack.push(
                            StackValue::Number(
                                if b {
                                    NUM_TRUE_BITS
                                } else {
                                    NUM_FALSE_BITS
                                },
                            ),
                        );
                        Ok(ip + 1)
                    },
                    StackValue::String(txt) => {
                        let reply = (*num)(NumOp::Parse(txt));
                        match reply {
                            NumReply::Parsed(Some(x)) => {
                                self.stack.push(StackValue::Number(x));
                                Ok(ip + 1)
                            },
                            NumReply::Parsed(None) => Err(VmError::InvalidNumericLiteral),
                            _ => {
                                proof {
                                    assert(false);
                                }
                                Err(VmError::TypeMismatch)
                            },
                        }
                    },
                }
            },
            Instruction::SCall(name) => {
                match self.lookup(name) {
                    Some(j) => {
                        proof {
                            assert(old(self).fn_names().contains(name@));
                        }
                        let res = table_call(&self.function_bodies, j, &mut self.stack);
                        if let Some(v) = res {
                            self.stack.push(v);
                        }
                        Ok(ip + 1)
                    },
                    None => Err(VmError::UndefinedFunction),
                }
            },
            Instruction::FCall(_) => Err(VmError::UnreachableOpcode),
            Instruction::Brnch(t) => Ok(*t),
            Instruction::Brzer(t) => self.brbool_step(num, ip, *t, NUM_FALSE_BITS, false),
            Instruction::Brone(t) => self.brbool_step(num, ip, *t, NUM_TRUE_BITS, true),
            Instruction::Brequ(t) => {
                let first = match self.pop_value() {
                    Ok(v) => v,
                    Err(e) => {
                        return Err(e);
                    },
                };
                let second = match self.pop_value() {
                    Ok(v) => v,
                    Err(e) => {
                        return Err(e);
                    },
                };
                let eq = values_equal(num, &first, &second);
                if eq {
                    Ok(*t)
                } else {
                    Ok(ip + 1)
                }
            },
            Instruction::Brgrt(t) => self.cmp_step(num, instr, ip, *t),
            Instruction::Brlst(t) => self.cmp_step(num, instr, ip, *t),
            Instruction::Retrn => Err(VmError::UnreachableOpcode),
            Instruction::TermP => Ok(instructions.len()),
            Instruction::Cncat(n) => self.concat_step(num, ip, *n),
        }
    }

    /// Executes a program from its first instruction, taking at most
    /// `fuel` steps, and reports how it ended: the program halted, the
    /// bound ran out, or a fault stopped it. The contract states that the
    /// engine's final state is reached from its starting state by the
    /// machine's transition relation, with a faulting step last when a
    /// fault is reported. Stack, registers and the function table persist
    /// across calls, so a host may execute several programs in turn on
    /// one engine.
    pub fn execute<F: Fn(NumOp) -> NumReply>(
        &mut self,
        instructions: &[Instruction],
        num: &F,
        fuel: u64,
    ) -> (r: Result<ExecEnd, VmError>)
        requires
            host_ok(*num),
            old(self).wf(),
        ensures
            final(self).wf(),
            final(self).function_names == old(self).function_names,
            final(self).function_bodies == old(self).function_bodies,
            match r {
                Ok(ExecEnd::Completed) => exists|ipf: nat, n: nat|
                    n <= fuel && ipf >= instructions@.len() && #[trigger] reach(
                        *num,
                        old(self).fn_names(),
                        instructions@,
                        old(self).at(0),
                        final(self).at(ipf),
                        n,
                    ),
                Ok(ExecEnd::OutOfFuel) => exists|ipf: nat|
                    ipf < instructions@.len() && #[trigger] reach(
                        *num,
                        old(self).fn_names(),
                        instructions@,
                        old(self).at(0),
                        final(self).at(ipf),
                        fuel as nat,
                    ),
                Err(e) => exists|c: Config, n: nat|
                    n < fuel && #[trigger] reach(
                        *num,
                        old(self).fn_names(),
                        instructions@,
                        old(self).at(0),
                        c,
                        n,
                    ) && step_rel(
                        *num,
                        old(self).fn_names(),
                        instructions@,
                        c,
                        final(self).at(c.ip),
                        Some(e),
                    ),
            },
    {
        let ghost fns = old(self).fn_names();
        let ghost c0 = old(self).at(0);
        proof {
            lemma_reach_zero(*num, fns, instructions@, c0);
        }
        let mut ip: usize = 0;
        let mut used: u64 = 0;
        while ip < instructions.len() && used < fuel
            invariant
                host_ok(*num),
                fns == old(self).fn_names(),
                c0 == old(self).at(0),
                self.wf(),
                self.function_names == old(self).function_names,
                self.function_bodies == old(self).function_bodies,
                self.fn_names() =~= fns,
                used <= fuel,
                reach(*num, fns, instructions@, c0, self.at(ip as nat), used as nat),
            decreases fuel - used,
        {
            let ghost cpre = self.at(ip as nat);
            proof {
                assert(self.fn_names() == fns);
            }
            match self.step(instructions, num, ip) {
                Ok(ip2) => {
                    proof {
                        lemma_reach_snoc(
                            *num,
                            fns,
                            instructions@,
                            c0,
                            cpre,
                            self.at(ip2 as nat),
                            used as nat,
                        );
                    }
                    ip = ip2;
                    used = used + 1;
                },
                Err(e) => {
                    proof {
                        assert(used < fuel);
                        assert(cpre.ip == ip as nat);
                        assert(reach(
                            *num,
                            old(self).fn_names(),
                            instructions@,
                            old(self).at(0),
                            cpre,
                            used as nat,
                        ));
                        assert(step_rel(
                            *num,
                            old(self).fn_names(),
                            instructions@,
                            cpre,
                            self.at(cpre.ip),
                            Some(e),
                        ));
                    }
                    return Err(e);
                },
            }
        }
        if ip < instructions.len() {
            proof {
                assert(used == fuel);
                assert(reach(
                    *num,
                    old(self).fn_names(),
                    instructions@,
                    old(self).at(0),
                    self.at(ip as nat),
                    fuel as nat,
                ));
            }
            Ok(ExecEnd::OutOfFuel)
        } else {
            proof {
                assert(reach(
                    *num,
                    old(self).fn_names(),
                    instructions@,
                    old(self).at(0),
                    self.at(ip as nat),
                    used as nat,
                ));
            }
            Ok(ExecEnd::Completed)
        }
    }
}

} // verus!
