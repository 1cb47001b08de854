use vstd::prelude::*;

use crate::value::StackValue;

verus! {

/// The bit pattern of the double 0.0, the numeric meaning of `false`.
pub const NUM_FALSE_BITS: u64 = 0;

/// The bit pattern of the double 1.0, the numeric meaning of `true`.
pub const NUM_TRUE_BITS: u64 = 0x3FF0000000000000;

/// A request for one numeric operation, handed to the host.
///
/// The engine cannot carry out double-precision arithmetic itself, so each
/// execution is given a host function from `NumOp` to `NumReply` that
/// answers these requests. Operands are bit patterns of doubles; for the
/// binary operations the first operand is the left-hand side.
pub enum NumOp {
    /// The sum of the two operands.
    Add(u64, u64),
    /// The difference, left minus right.
    Sub(u64, u64),
    /// The product of the two operands.
    Mul(u64, u64),
    /// The quotient, left over right, with ordinary double-precision
    /// semantics (a zero divisor yields an infinity or a NaN, not a fault).
    Div(u64, u64),
    /// Whether the two operands are equal as doubles.
    Equal(u64, u64),
    /// Whether the left operand is less than the right as doubles.
    Less(u64, u64),
    /// Whether the left operand is greater than the right as doubles.
    Greater(u64, u64),
    /// The double written in the given text, if the text is a valid
    /// numeric literal.
    Parse(String),
    /// The natural decimal text of the given double.
    Fmt(u64),
}

/// The host's answer to one `NumOp` request.
pub enum NumReply {
    /// Answers `Add`, `Sub`, `Mul` and `Div`: a result bit pattern.
    Num(u64),
    /// Answers `Equal`, `Less` and `Greater`.
    Flag(bool),
    /// Answers `Parse`; `None` when the text is not a numeric literal.
    Parsed(Option<u64>),
    /// Answers `Fmt`.
    Text(String),
}

/// Whether a reply is of the shape that the request asks for.
pub open spec fn reply_fits(op: NumOp, r: NumReply) -> bool {
    match op {
        NumOp::Add(_, _) => r is Num,
        NumOp::Sub(_, _) => r is Num,
        NumOp::Mul(_, _) => r is Num,
        NumOp::Div(_, _) => r is Num,
        NumOp::Equal(_, _) => r is Flag,
        NumOp::Less(_, _) => r is Flag,
        NumOp::Greater(_, _) => r is Flag,
        NumOp::Parse(_) => r is Parsed,
        NumOp::Fmt(_) => r is Text,
    }
}

/// What the engine asks of a host function: it can be called on every
/// request, and every reply it may give fits the request's shape.
pub open spec fn host_ok<F: Fn(NumOp) -> NumReply>(f: F) -> bool {
    &&& forall|op: NumOp| #[trigger] call_requires(f, (op,))
    &&& forall|op: NumOp, r: NumReply| #[trigger] call_ensures(f, (op,), r) ==> reply_fits(op, r)
}

/// A native function that a host registers with the engine.
///
/// It is handed the whole operand stack: it may pop any number of values,
/// and may return one value for the engine to push back. The engine
/// validates nothing of what it consumed or produced; arity is a contract
/// between the native function and the instructions that call it.
pub trait NativeFn {
    fn call(&self, stack: &mut Vec<StackValue>) -> Option<StackValue>;
}

} // verus!
