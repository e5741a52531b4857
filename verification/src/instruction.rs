use vstd::prelude::*;

verus! {

/// Capacity of the machine's byte stack.
pub const STACK_SIZE: usize = 128;

/// One atomic unit of executable behaviour. Immutable once constructed;
/// string literals carried by `PushStr` live for the whole run.
#[derive(Clone, Copy, Debug, PartialEq, Eq)]
pub enum Instruction {
    /// Push a literal byte.
    Push(u8),
    /// Push a zero terminator, then the text's bytes in reverse, so that
    /// popping yields the text in forward order, ended by the zero.
    PushStr(&'static str),
    /// Discard the top of the stack.
    Pop,
    /// Pop lhs, pop rhs, push their wrapping sum; record whether it wrapped.
    Add,
    /// Pop lhs, pop rhs, push their wrapping difference; record whether it wrapped.
    Sub,
    /// Pop lhs, pop rhs, push their wrapping product; the flag is untouched.
    Mul,
    /// Pop lhs, pop rhs, push their integer quotient; a zero divisor is a fault.
    Div,
    /// Pop two operands, put them back unchanged, and redirect the program
    /// cursor to the target when they are equal.
    JmpEq(usize),
    /// Pop two operands, put them back unchanged, and redirect the program
    /// cursor to the target when they differ.
    JmpNeq(usize),
    /// Redirect the program cursor to the target unconditionally.
    Jmp(usize),
    /// Dispatch to a built-in routine by numeric id.
    StdCall(usize),
    /// Stop execution. Also what any out-of-range program index reads as.
    Interupt,
}

/// The built-in routines reachable through `Instruction::StdCall`.
#[derive(Clone, Copy, Debug, PartialEq, Eq, Structural)]
pub enum StdFunc {
    /// Pop a byte and write it as an unsigned decimal number.
    PrintU8,
    /// Pop a byte and write it as one character.
    PrintChar,
    /// Pop and write characters until a zero byte is popped or the stack empties.
    PrintString,
    /// Push a copy of the byte at the top of the stack.
    Duplicate,
}

/// Numeric id of a built-in routine.
pub open spec fn id_of(f: StdFunc) -> usize {
    match f {
        StdFunc::PrintU8 => 0,
        StdFunc::PrintChar => 1,
        StdFunc::PrintString => 2,
        StdFunc::Duplicate => 3,
    }
}

/// The built-in routine a numeric id names, if any.
pub open spec fn std_func_of(id: usize) -> Option<StdFunc> {
    if id == 0 {
        Some(StdFunc::PrintU8)
    } else if id == 1 {
        Some(StdFunc::PrintChar)
    } else if id == 2 {
        Some(StdFunc::PrintString)
    } else if id == 3 {
        Some(StdFunc::Duplicate)
    } else {
        None
    }
}

impl StdFunc {
    /// The id to write in a `StdCall` instruction for this routine.
    pub fn id(self) -> (r: usize)
        ensures
            r == id_of(self),
            std_func_of(r) == Some(self),
    {
        match self {
            StdFunc::PrintU8 => 0,
            StdFunc::PrintChar => 1,
            StdFunc::PrintString => 2,
            StdFunc::Duplicate => 3,
        }
    }

    /// Decode a numeric id; an id outside the built-in set is refused.
    pub fn from_id(id: usize) -> (r: Option<StdFunc>)
        ensures
            r == std_func_of(id),
    {
        if id == 0 {
            Some(StdFunc::PrintU8)
        } else if id == 1 {
            Some(StdFunc::PrintChar)
        } else if id == 2 {
            Some(StdFunc::PrintString)
        } else if id == 3 {
            Some(StdFunc::Duplicate)
        } else {
            None
        }
    }
}

/// The kinds of unrecoverable fault; each one stops a run.
#[derive(Clone, Copy, Debug, PartialEq, Eq, Structural)]
pub enum FaultKind {
    /// A push was attempted while the stack held `STACK_SIZE` bytes.
    StackOverflow,
    /// A pop was attempted while the stack was empty.
    StackUnderflow,
    /// `Div` found a zero divisor.
    DivisionByZero,
    /// `StdCall` carried an id outside the built-in set.
    InvalidStandardCallId,
}

/// A fault report: what went wrong, where the program cursor stood, and the
/// instruction that was being executed.
#[derive(Clone, Copy, Debug, PartialEq, Eq)]
pub struct Fault {
    pub kind: FaultKind,
    pub position: usize,
    pub instruction: Instruction,
}

} // verus!
