//! One instruction of a program: an opcode and its operands.

use crate::lexer::operand::{operand_field, operand_value};
use crate::lexer::scan::chars_of;
use crate::text::push_str;
use crate::types::Value;
use crate::vm::field::{display, Field};
use crate::vm::heap::{Heap, HeapView};
use crate::vm::opcode::OpCode;
use crate::vm::stack::Stack;
use vstd::prelude::*;
use vstd::string::*;

verus! {

/// An instruction. The operands stand in the order in which they are
/// written; the machine takes them from the right.
#[derive(Debug)]
pub struct Instruction {
    pub opcode: OpCode,
    pub operand: Stack<Field>,
}

/// The model of an instruction.
pub struct InstructionView {
    pub opcode: OpCode,
    pub operands: Seq<Value>,
}

impl View for Instruction {
    type V = InstructionView;

    open spec fn view(&self) -> InstructionView {
        InstructionView {
            opcode: self.opcode,
            operands: self.operand@.map_values(|f: Field| f@),
        }
    }
}

impl InstructionView {
    /// The first `n` operands as they are written behind the mnemonic: each
    /// after a space.
    pub open spec fn operand_text(self, n: nat, heap: HeapView) -> Seq<char>
        decreases n,
    {
        if n == 0 || n > self.operands.len() {
            Seq::empty()
        } else {
            self.operand_text((n - 1) as nat, heap) + " "@ + display(self.operands[n - 1], heap)
        }
    }

    /// The instruction as it is written: the mnemonic and the operands.
    pub open spec fn assembled(self, heap: HeapView) -> Seq<char> {
        self.opcode.mnemonic() + self.operand_text(self.operands.len(), heap)
    }
}

impl Instruction {
    /// The instruction `opcode` with the operands `operand`.
    pub fn new(opcode: OpCode, operand: Vec<Field>) -> (i: Instruction)
        ensures
            i.opcode == opcode,
            i.operand@ == operand@,
    {
        Instruction { opcode, operand: Stack(operand) }
    }

    /// The instruction that words write: the first is the mnemonic, and
    /// each of the others an operand.
    pub fn new_from_words(str: Vec<&str>) -> (i: Instruction)
        requires
            str@.len() > 0,
        ensures
            i@.opcode == OpCode::of_mnemonic(str@[0]@),
            i@.operands.len() == str@.len() - 1,
            forall|k: int|
                0 <= k < i@.operands.len() ==> #[trigger] i@.operands[k] == operand_value(
                    str@[k + 1]@,
                ),
    {
        let opcode = OpCode::from(str[0]);
        let mut operands: Vec<Field> = Vec::new();
        let mut k: usize = 1;
        while k < str.len()
            invariant
                1 <= k <= str.len(),
                operands.len() == k - 1,
                forall|j: int|
                    0 <= j < operands.len() ==> (#[trigger] operands[j])@ == operand_value(
                        str@[j + 1]@,
                    ),
            decreases str.len() - k,
        {
            operands.push(Instruction::construct_field(str[k]));
            k += 1;
        }
        Instruction::new(opcode, operands)
    }

    /// The value that an operand writes.
    pub fn construct_field(str: &str) -> (f: Field)
        ensures
            f@ == operand_value(str@),
    {
        let chars = chars_of(str);
        operand_field(&chars)
    }

    /// A copy of the instruction.
    pub fn duplicate(&self) -> (i: Instruction)
        ensures
            i@ == self@,
    {
        let mut operands: Vec<Field> = Vec::new();
        let mut k: usize = 0;
        while k < self.operand.0.len()
            invariant
                k <= self.operand.0.len(),
                operands.len() == k,
                forall|j: int| 0 <= j < k ==> operands[j]@ == self.operand.0[j]@,
            decreases self.operand.0.len() - k,
        {
            operands.push(self.operand.0[k].underlying_data_clone());
            k += 1;
        }
        let i = Instruction { opcode: self.opcode, operand: Stack(operands) };
        assert(i@.operands =~= self@.operands);
        i
    }

    /// The instruction as it is written; pointers are read from `heap`.
    pub fn assemble(&self, heap: &Heap) -> (s: String)
        ensures
            s@ == self@.assembled(heap@),
    {
        let mut s = String::new();
        push_str(&mut s, self.opcode.as_str());
        let ghost head = s@;
        let mut k: usize = 0;
        while k < self.operand.0.len()
            invariant
                k <= self.operand.0.len(),
                s@ == head + self@.operand_text(k as nat, heap@),
            decreases self.operand.0.len() - k,
        {
            let text = self.operand.0[k].to_text(heap);
            push_str(&mut s, " ");
            push_str(&mut s, text.as_str());
            k += 1;
        }
        s
    }
}

} // verus!
