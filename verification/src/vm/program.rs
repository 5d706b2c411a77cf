//! A program: instructions, the labels that name places in them, and the
//! data constants.

use crate::types::Value;
use crate::vm::field::Field;
use crate::vm::instruction::{Instruction, InstructionView};
use vstd::hash_map::StringHashMap;
use vstd::prelude::*;

verus! {

/// A program as the machine takes it.
pub struct Program {
    pub instructions: Vec<Instruction>,
    pub labels: StringHashMap<usize>,
    pub data: StringHashMap<Field>,
}

/// The models of the instructions of a program.
pub open spec fn instruction_views(instructions: Seq<Instruction>) -> Seq<InstructionView> {
    instructions.map_values(|i: Instruction| i@)
}

/// The models of the data constants of a program.
pub open spec fn data_views(data: Map<Seq<char>, Field>) -> Map<Seq<char>, Value> {
    data.map_values(|f: Field| f@)
}

impl Program {
    /// A program without instructions, labels or data.
    pub fn new() -> (p: Program)
        ensures
            p.instructions@.len() == 0,
            p.labels@ == Map::<Seq<char>, usize>::empty(),
            p.data@ == Map::<Seq<char>, Field>::empty(),
    {
        Program {
            instructions: Vec::new(),
            labels: StringHashMap::new(),
            data: StringHashMap::new(),
        }
    }
}

} // verus!
