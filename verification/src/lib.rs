//! An embeddable bytecode execution engine for a small dynamically typed
//! scripting language: a stack machine with a fixed register file, absolute
//! branches, and a bridge to host-registered native functions.

pub mod engine;
pub mod host;
pub mod instr;
pub mod laws;
pub mod sem;
pub mod value;

pub use engine::ExecEnd;
pub use engine::VmEngine;
pub use host::NativeFn;
pub use host::NumOp;
pub use host::NumReply;
pub use instr::Instruction;
pub use value::StackValue;
pub use value::VmError;
