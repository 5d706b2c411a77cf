//! Putting the instructions of a program together by hand.

use crate::vm::field::Field;
use crate::vm::instruction::{Instruction, InstructionView};
use crate::vm::opcode::OpCode;
use crate::vm::program::instruction_views;
use crate::vm::vm::stack_views;
use vstd::prelude::*;

verus! {

/// The instructions of a program in the making.
#[allow(non_camel_case_types)]
pub struct builder {
    pub instructions: Vec<Instruction>,
}

impl builder {
    /// No instructions yet.
    pub fn new() -> (b: builder)
        ensures
            b.instructions@.len() == 0,
    {
        builder { instructions: Vec::new() }
    }

    /// Adds the instruction `opcode` with the operands `operand`.
    pub fn push(&mut self, opcode: OpCode, operand: Vec<Field>)
        ensures
            instruction_views(final(self).instructions@) == instruction_views(
                old(self).instructions@,
            ).push(InstructionView { opcode, operands: stack_views(operand@) }),
    {
        self.instructions.push(Instruction::new(opcode, operand));
    }
}

} // verus!
