use vstd::prelude::*;

verus! {

/// A runtime value of the machine.
///
/// A number is carried as the 64-bit pattern of an IEEE-754 double. The
/// engine itself never interprets that pattern: every operation on numbers
/// (arithmetic, comparison, parsing, printing) is delegated to the host
/// through a `NumOp` request, so the engine stays free of any numeric
/// representation of its own.
#[derive(Debug, Clone, PartialEq)]
pub enum StackValue {
    Number(u64),
    String(String),
    Bool(bool),
}

/// The fatal faults that stop an execution. None of them is recoverable
/// from inside a program: the engine hands the fault to the host and
/// leaves the state exactly as the failing instruction left it.
#[derive(Debug, Clone, Copy, PartialEq, Eq, Structural)]
pub enum VmError {
    /// A pop was attempted on an empty operand stack.
    StackUnderflow,
    /// An operation consumed an operand of the wrong kind.
    TypeMismatch,
    /// A load from a register slot that was never stored into.
    UninitializedRegister,
    /// A register index at or beyond the fixed register count.
    RegisterOutOfBounds,
    /// A call to a name with no registered native function.
    UndefinedFunction,
    /// A numeric coercion of a string that does not parse as a number.
    InvalidNumericLiteral,
    /// An opcode of the reserved, not yet supported set was reached.
    UnreachableOpcode,
}

impl StackValue {
    /// An exact copy of the value; unlike a derived `clone`, its contract
    /// states that the copy equals the original.
    pub fn duplicate(&self) -> (r: Self)
        ensures
            r == *self,
    {
        match self {
            StackValue::Number(n) => StackValue::Number(*n),
            StackValue::String(s) => StackValue::String(s.clone()),
            StackValue::Bool(b) => StackValue::Bool(*b),
        }
    }
}

} // verus!
