//! A small byte-code virtual machine: a closed instruction set, an append-only
//! program container, and an execution engine that interprets instructions
//! against a bounded machine state (a 128-byte stack, a program cursor and an
//! arithmetic-overflow flag). Every instruction's effect, every fault
//! (stack overflow, stack underflow, division by zero, an unknown built-in id)
//! and the bytes written by the built-in print routines are stated in the
//! contracts over a mathematical view of the machine.

pub mod instruction;
pub mod laws;
pub mod machine;
pub mod program;
pub mod render;
pub mod semantics;

pub use instruction::{Fault, FaultKind, Instruction, StdFunc};
pub use machine::VM;
pub use program::Program;
pub use semantics::MachineView;
