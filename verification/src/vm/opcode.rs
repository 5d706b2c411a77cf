//! The instruction set.

use crate::text::str_eq;
use vstd::prelude::*;
use vstd::string::*;

verus! {

/// What an instruction does.
#[derive(Copy, Clone, Debug, PartialEq, Eq, Structural)]
pub enum OpCode {
    /// `mov`: copies a value into a register or into the region a register addresses.
    Move,
    /// `push`: pushes a register's value or a data constant onto the stack.
    Push,
    /// `pop`: pops the stack into a register.
    Pop,
    /// `add`: adds the right operand to a register.
    Add,
    /// `mul`: multiplies a register by the right operand.
    Mul,
    /// `sub`: subtracts the right operand from a register.
    Sub,
    /// `div`: divides a register by the right operand.
    Div,
    /// `mod`: leaves the remainder of a register by the right operand.
    Mod,
    /// `input`: asks the host for a line of input.
    Input,
    /// `call`: calls a label or a built-in.
    Call,
    /// `ret`: returns to the instruction after the latest call.
    Ret,
    /// `test`: compares two values and sets the flags.
    Test,
    /// `assert`: compares two values and fails unless they are equal.
    Assert,
    /// `jmp`: jumps to a label.
    Jmp,
    /// `je`: jumps if the equals flag is set.
    Je,
    /// `jne`: jumps if the equals flag is clear.
    Jne,
    /// `jle`: jumps if the equals or the less-than flag is set.
    Jle,
    /// `jge`: jumps if the equals or the greater-than flag is set.
    Jge,
    /// `jl`: jumps if the less-than flag is set.
    Jl,
    /// `jg`: jumps if the greater-than flag is set.
    Jg,
    /// `xor`: combines a register with the right operand bit by bit.
    Xor,
    /// `nop`: does nothing.
    Nop,
    /// `hlt`: stops the machine.
    Hlt,
    /// `dup`: duplicates the top of the stack.
    Dup,
    /// `igl`: the illegal instruction: any mnemonic that is not known.
    Igl,
    /// `alloc`: allocates a region of the heap.
    Alloc,
    /// `free`: gives a region back to the heap.
    Free,
    /// `cast`: converts a register's value to another kind.
    Cast,
}

impl OpCode {
    /// The mnemonic under which this opcode is written in a program.
    pub open spec fn mnemonic(self) -> Seq<char> {
        match self {
            OpCode::Move => "mov"@,
            OpCode::Push => "push"@,
            OpCode::Pop => "pop"@,
            OpCode::Add => "add"@,
            OpCode::Mul => "mul"@,
            OpCode::Sub => "sub"@,
            OpCode::Div => "div"@,
            OpCode::Mod => "mod"@,
            OpCode::Input => "input"@,
            OpCode::Call => "call"@,
            OpCode::Ret => "ret"@,
            OpCode::Test => "test"@,
            OpCode::Assert => "assert"@,
            OpCode::Jmp => "jmp"@,
            OpCode::Je => "je"@,
            OpCode::Jne => "jne"@,
            OpCode::Jle => "jle"@,
            OpCode::Jge => "jge"@,
            OpCode::Jl => "jl"@,
            OpCode::Jg => "jg"@,
            OpCode::Xor => "xor"@,
            OpCode::Nop => "nop"@,
            OpCode::Hlt => "hlt"@,
            OpCode::Dup => "dup"@,
            OpCode::Igl => "igl"@,
            OpCode::Alloc => "alloc"@,
            OpCode::Free => "free"@,
            OpCode::Cast => "cast"@,
        }
    }

    /// The opcode that a mnemonic names: the first one in the order of the
    /// instruction set whose mnemonic it is, and `Igl` if there is none.
    pub open spec fn of_mnemonic(s: Seq<char>) -> OpCode {
        if s == "mov"@ {
            OpCode::Move
        } else if s == "push"@ {
            OpCode::Push
        } else if s == "pop"@ {
            OpCode::Pop
        } else if s == "add"@ {
            OpCode::Add
        } else if s == "mul"@ {
            OpCode::Mul
        } else if s == "sub"@ {
            OpCode::Sub
        } else if s == "div"@ {
            OpCode::Div
        } else if s == "mod"@ {
            OpCode::Mod
        } else if s == "input"@ {
            OpCode::Input
        } else if s == "call"@ {
            OpCode::Call
        } else if s == "ret"@ {
            OpCode::Ret
        } else if s == "test"@ {
            OpCode::Test
        } else if s == "assert"@ {
            OpCode::Assert
        } else if s == "jmp"@ {
            OpCode::Jmp
        } else if s == "je"@ {
            OpCode::Je
        } else if s == "jne"@ {
            OpCode::Jne
        } else if s == "jle"@ {
            OpCode::Jle
        } else if s == "jge"@ {
            OpCode::Jge
        } else if s == "jl"@ {
            OpCode::Jl
        } else if s == "jg"@ {
            OpCode::Jg
        } else if s == "xor"@ {
            OpCode::Xor
        } else if s == "nop"@ {
            OpCode::Nop
        } else if s == "hlt"@ {
            OpCode::Hlt
        } else if s == "dup"@ {
            OpCode::Dup
        } else if s == "alloc"@ {
            OpCode::Alloc
        } else if s == "free"@ {
            OpCode::Free
        } else if s == "cast"@ {
            OpCode::Cast
        } else {
            OpCode::Igl
        }
    }

    /// Reads a mnemonic; an unknown one is the illegal instruction.
    pub fn from(str: &str) -> (op: OpCode)
        ensures
            op == OpCode::of_mnemonic(str@),
    {
        if str_eq(str, "mov") {
            OpCode::Move
        } else if str_eq(str, "push") {
            OpCode::Push
        } else if str_eq(str, "pop") {
            OpCode::Pop
        } else if str_eq(str, "add") {
            OpCode::Add
        } else if str_eq(str, "mul") {
            OpCode::Mul
        } else if str_eq(str, "sub") {
            OpCode::Sub
        } else if str_eq(str, "div") {
            OpCode::Div
        } else if str_eq(str, "mod") {
            OpCode::Mod
        } else if str_eq(str, "input") {
            OpCode::Input
        } else if str_eq(str, "call") {
            OpCode::Call
        } else if str_eq(str, "ret") {
            OpCode::Ret
        } else if str_eq(str, "test") {
            OpCode::Test
        } else if str_eq(str, "assert") {
            OpCode::Assert
        } else if str_eq(str, "jmp") {
            OpCode::Jmp
        } else if str_eq(str, "je") {
            OpCode::Je
        } else if str_eq(str, "jne") {
            OpCode::Jne
        } else if str_eq(str, "jle") {
            OpCode::Jle
        } else if str_eq(str, "jge") {
            OpCode::Jge
        } else if str_eq(str, "jl") {
            OpCode::Jl
        } else if str_eq(str, "jg") {
            OpCode::Jg
        } else if str_eq(str, "xor") {
            OpCode::Xor
        } else if str_eq(str, "nop") {
            OpCode::Nop
        } else if str_eq(str, "hlt") {
            OpCode::Hlt
        } else if str_eq(str, "dup") {
            OpCode::Dup
        } else if str_eq(str, "alloc") {
            OpCode::Alloc
        } else if str_eq(str, "free") {
            OpCode::Free
        } else if str_eq(str, "cast") {
            OpCode::Cast
        } else {
            OpCode::Igl
        }
    }

    /// The mnemonic of this opcode.
    pub fn as_str(self) -> (s: &'static str)
        ensures
            s@ == self.mnemonic(),
    {
        match self {
            OpCode::Move => "mov",
            OpCode::Push => "push",
            OpCode::Pop => "pop",
            OpCode::Add => "add",
            OpCode::Mul => "mul",
            OpCode::Sub => "sub",
            OpCode::Div => "div",
            OpCode::Mod => "mod",
            OpCode::Input => "input",
            OpCode::Call => "call",
            OpCode::Ret => "ret",
            OpCode::Test => "test",
            OpCode::Assert => "assert",
            OpCode::Jmp => "jmp",
            OpCode::Je => "je",
            OpCode::Jne => "jne",
            OpCode::Jle => "jle",
            OpCode::Jge => "jge",
            OpCode::Jl => "jl",
            OpCode::Jg => "jg",
            OpCode::Xor => "xor",
            OpCode::Nop => "nop",
            OpCode::Hlt => "hlt",
            OpCode::Dup => "dup",
            OpCode::Igl => "igl",
            OpCode::Alloc => "alloc",
            OpCode::Free => "free",
            OpCode::Cast => "cast",
        }
    }
}

/// Every opcode is the one that its mnemonic names.
pub proof fn lemma_mnemonic_names_opcode(op: OpCode)
    ensures
        OpCode::of_mnemonic(op.mnemonic()) == op,
{
    reveal_strlit("mov");
    assert("mov"@ =~= seq!['m', 'o', 'v']);
    reveal_strlit("push");
    assert("push"@ =~= seq!['p', 'u', 's', 'h']);
    reveal_strlit("pop");
    assert("pop"@ =~= seq!['p', 'o', 'p']);
    reveal_strlit("add");
    assert("add"@ =~= seq!['a', 'd', 'd']);
    reveal_strlit("mul");
    assert("mul"@ =~= seq!['m', 'u', 'l']);
    reveal_strlit("sub");
    assert("sub"@ =~= seq!['s', 'u', 'b']);
    reveal_strlit("div");
    assert("div"@ =~= seq!['d', 'i', 'v']);
    reveal_strlit("mod");
    assert("mod"@ =~= seq!['m', 'o', 'd']);
    reveal_strlit("input");
    assert("input"@ =~= seq!['i', 'n', 'p', 'u', 't']);
    reveal_strlit("call");
    assert("call"@ =~= seq!['c', 'a', 'l', 'l']);
    reveal_strlit("ret");
    assert("ret"@ =~= seq!['r', 'e', 't']);
    reveal_strlit("test");
    assert("test"@ =~= seq!['t', 'e', 's', 't']);
    reveal_strlit("assert");
    assert("assert"@ =~= seq!['a', 's', 's', 'e', 'r', 't']);
    reveal_strlit("jmp");
    assert("jmp"@ =~= seq!['j', 'm', 'p']);
    reveal_strlit("je");
    assert("je"@ =~= seq!['j', 'e']);
    reveal_strlit("jne");
    assert("jne"@ =~= seq!['j', 'n', 'e']);
    reveal_strlit("jle");
    assert("jle"@ =~= seq!['j', 'l', 'e']);
    reveal_strlit("jge");
    assert("jge"@ =~= seq!['j', 'g', 'e']);
    reveal_strlit("jl");
    assert("jl"@ =~= seq!['j', 'l']);
    reveal_strlit("jg");
    assert("jg"@ =~= seq!['j', 'g']);
    reveal_strlit("xor");
    assert("xor"@ =~= seq!['x', 'o', 'r']);
    reveal_strlit("nop");
    assert("nop"@ =~= seq!['n', 'o', 'p']);
    reveal_strlit("hlt");
    assert("hlt"@ =~= seq!['h', 'l', 't']);
    reveal_strlit("dup");
    assert("dup"@ =~= seq!['d', 'u', 'p']);
    reveal_strlit("igl");
    assert("igl"@ =~= seq!['i', 'g', 'l']);
    reveal_strlit("alloc");
    assert("alloc"@ =~= seq!['a', 'l', 'l', 'o', 'c']);
    reveal_strlit("free");
    assert("free"@ =~= seq!['f', 'r', 'e', 'e']);
    reveal_strlit("cast");
    assert("cast"@ =~= seq!['c', 'a', 's', 't']);
}

} // verus!
