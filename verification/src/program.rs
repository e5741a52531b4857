use crate::instruction::Instruction;
use crate::semantics::fetch;
use vstd::prelude::*;

verus! {

/// An ordered, append-only sequence of instructions, addressable by index.
pub struct Program {
    instructions: Vec<Instruction>,
}

impl View for Program {
    type V = Seq<Instruction>;

    closed spec fn view(&self) -> Seq<Instruction> {
        self.instructions@
    }
}

impl Program {
    /// An empty program.
    pub fn new() -> (r: Program)
        ensures
            r@ == Seq::<Instruction>::empty(),
    {
        Program { instructions: Vec::new() }
    }

    /// Append an instruction. Nothing already in the program ever changes,
    /// and jump targets are not validated: a target past the end reads as
    /// `Interupt` when reached.
    pub fn push(&mut self, instruction: Instruction)
        ensures
            final(self)@ == old(self)@.push(instruction),
    {
        self.instructions.push(instruction);
    }

    /// The instruction at `index`. Total over every index: past the end it
    /// reads as `Interupt` instead of failing.
    pub fn get(&self, index: usize) -> (r: Instruction)
        ensures
            r == fetch(self@, index as nat),
            self@.len() <= usize::MAX,
    {
        if index < self.instructions.len() {
            self.instructions[index]
        } else {
            Instruction::Interupt
        }
    }

    /// How many instructions the program holds.
    pub fn len(&self) -> (r: usize)
        ensures
            r == self@.len(),
    {
        self.instructions.len()
    }
}

} // verus!
