use vstd::prelude::*;

verus! {

/// The number of slots in the fixed register file.
pub const REGISTER_COUNT: usize = 9;

/// One unit of executable behavior in a program sequence.
///
/// Numbers are carried as IEEE-754 double bit patterns, as in `StackValue`.
/// Branch targets are absolute indices into the instruction sequence that is
/// being executed; a target at or beyond its end halts execution normally.
#[derive(Debug, Clone)]
pub enum Instruction {
    /// Push a number literal.
    PushN(u64),
    /// Push a string literal.
    PushS(String),
    /// Push a boolean literal.
    PushB(bool),
    /// Pop the stack top and store it in the given register slot.
    StReg(u8),
    /// Reserved: store into a named variable. Not supported by this core.
    StVar(String),
    /// Push a copy of the given register slot's value.
    LdReg(u8),
    /// Reserved: load from a named variable. Not supported by this core.
    LdVar(String),
    /// Discard the stack top.
    Pop,
    /// Pop two numbers and push their sum.
    Add,
    /// Pop two numbers and push their difference.
    Sub,
    /// Pop two numbers and push their product.
    Mul,
    /// Pop two numbers and push their quotient.
    Div,
    /// Pop one value and push its numeric interpretation.
    ToNum,
    /// Call the registered native function of the given name.
    SCall(String),
    /// Reserved: call a program function with a return address. Not
    /// supported by this core.
    FCall(String),
    /// Jump unconditionally.
    Brnch(usize),
    /// Pop one value; jump if it is the number zero or `false`.
    Brzer(usize),
    /// Pop one value; jump if it is the number one or `true`.
    Brone(usize),
    /// Pop two values; jump if they are structurally equal.
    Brequ(usize),
    /// Pop two numbers; jump if the first-pushed is greater.
    Brgrt(usize),
    /// Pop two numbers; jump if the first-pushed is less.
    Brlst(usize),
    /// Reserved: return from a program function. Not supported by this core.
    Retrn,
    /// Halt execution immediately.
    TermP,
    /// Pop the given count of values and push their joined texts,
    /// first-pushed leftmost.
    Cncat(usize),
}

} // verus!
