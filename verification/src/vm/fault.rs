//! The faults of the machine: for each way in which an instruction can
//! fail, its kind, its message, and the operands that are noted with it.

use crate::text::{decimal, push_decimal, push_str};
use crate::types::Value;
use crate::vm::cast::CastType;
use crate::vm::error::ErrorKind;
use crate::vm::field::{display, Field};
use crate::vm::heap::HeapView;
use vstd::prelude::*;
use vstd::string::*;

verus! {

/// A fault: its kind, its message, and the offending operands, where
/// there are any.
pub struct Fault {
    pub kind: ErrorKind,
    pub message: Seq<char>,
    pub notes: Option<Seq<Value>>,
}

/// A message that names a place in the program: `head`, the index of the
/// instruction, and `tail`.
pub open spec fn placed(head: Seq<char>, pc: usize, tail: Seq<char>) -> Seq<char> {
    head + decimal(pc as nat) + tail
}

/// A message that quotes a text: `head`, the text, and `tail`.
pub open spec fn quoted(head: Seq<char>, text: Seq<char>, tail: Seq<char>) -> Seq<char> {
    head + text + tail
}

/// An instruction has fewer operands than it takes.
pub open spec fn missing_operand() -> Fault {
    Fault {
        kind: ErrorKind::StackUnderflow,
        message: "Cannot pop empty operand stack."@,
        notes: None,
    }
}

/// A value is asked of the empty stack.
pub open spec fn empty_stack() -> Fault {
    Fault { kind: ErrorKind::StackUnderflow, message: "Cannot pop empty stack."@, notes: None }
}

/// A return finds the call stack empty.
pub open spec fn empty_call_stack() -> Fault {
    Fault {
        kind: ErrorKind::CallStackUnderflow,
        message: "Cannot pop empty call stack."@,
        notes: None,
    }
}

/// An operand that must name a register does not.
pub open spec fn not_a_register(v: Value) -> Fault {
    Fault {
        kind: ErrorKind::TypeError,
        message: "Value is not a register!"@,
        notes: Some(seq![v]),
    }
}

/// An operand that must be a reference into a register is none.
pub open spec fn not_an_offset(v: Value) -> Fault {
    Fault {
        kind: ErrorKind::TypeError,
        message: "Value is not a register with offset!"@,
        notes: Some(seq![v]),
    }
}

/// A value that must be a number is none.
pub open spec fn not_a_number(v: Value, heap: HeapView) -> Fault {
    Fault {
        kind: ErrorKind::TypeError,
        message: quoted("Value '"@, display(v, heap), "' is not a number!"@),
        notes: Some(seq![v]),
    }
}

/// A value that must be a pointer, or that must have bytes, is or has
/// none.
pub open spec fn not_a_pointer(v: Value) -> Fault {
    Fault { kind: ErrorKind::TypeError, message: "Value is not a pointer!"@, notes: Some(seq![v]) }
}

/// A value that must be a string is none.
pub open spec fn not_a_string(v: Value) -> Fault {
    Fault { kind: ErrorKind::TypeError, message: "Value is not a string!"@, notes: Some(seq![v]) }
}

/// An operand names the register that is none.
pub open spec fn no_register() -> Fault {
    Fault { kind: ErrorKind::TypeError, message: "Register does not exist!"@, notes: None }
}

/// The source of a move is a symbol that names no data constant.
pub open spec fn no_symbol(text: Seq<char>, pc: usize, v: Value) -> Fault {
    Fault {
        kind: ErrorKind::UnknownSymbol,
        message: placed(quoted("Cannot find symbol '"@, text, "' at "@), pc, "!"@),
        notes: Some(seq![v]),
    }
}

/// The operand of a push is neither a register nor a data constant.
pub open spec fn no_push(pc: usize, v: Value) -> Fault {
    Fault {
        kind: ErrorKind::TypeError,
        message: placed("Cannot push datatype to stack at "@, pc, "!"@),
        notes: Some(seq![v]),
    }
}

/// The target of a jump is no label.
pub open spec fn no_label(text: Seq<char>) -> Fault {
    Fault {
        kind: ErrorKind::UnknownLabel,
        message: quoted("Cannot find label '"@, text, "'."@),
        notes: None,
    }
}

/// The target of a call is neither a label nor a built-in.
pub open spec fn no_callee(text: Seq<char>, pc: usize, v: Value) -> Fault {
    Fault {
        kind: ErrorKind::UnknownSymbol,
        message: placed(quoted("Cannot find label '"@, text, "' at "@), pc, "!"@),
        notes: Some(seq![v]),
    }
}

/// The heap has no free block for an allocation.
pub open spec fn no_memory(pc: usize, size: usize) -> Fault {
    Fault {
        kind: ErrorKind::OutOfMemory,
        message: placed("Cannot allocate heap at "@, pc, "!"@),
        notes: Some(seq![Value::UInt(size)]),
    }
}

/// A free names an address outside the arena, or gives a wrong size.
pub open spec fn bad_free(pc: usize, address: usize) -> Fault {
    Fault {
        kind: ErrorKind::InvalidFree,
        message: placed("Cannot free heap at "@, pc, "!"@),
        notes: Some(seq![Value::UInt(address)]),
    }
}

/// A pointer is used whose allocation is not live.
pub open spec fn freed(pc: usize, address: usize) -> Fault {
    Fault {
        kind: ErrorKind::UseAfterFree,
        message: placed(
            "Cannot use heap at "@,
            pc,
            " because memory has already been freed!"@,
        ),
        notes: Some(seq![Value::UInt(address)]),
    }
}

/// The illegal instruction is met.
pub open spec fn illegal(pc: usize) -> Fault {
    Fault {
        kind: ErrorKind::IllegalInstruction,
        message: placed("ILLEGAL instruction encountered at "@, pc, "."@),
        notes: None,
    }
}

/// An assertion finds its operands not equal.
pub open spec fn assertion(pc: usize) -> Fault {
    Fault {
        kind: ErrorKind::AssertionFailed,
        message: placed("Assertion failed at "@, pc, "."@),
        notes: None,
    }
}

/// A value cannot serve as an offset, or as what an offset is applied to.
pub open spec fn bad_offset(v: Value, heap: HeapView, pc: usize) -> Fault {
    Fault {
        kind: ErrorKind::TypeError,
        message: placed(quoted("Cannot use '"@, display(v, heap), "' as offset at "@), pc, "!"@),
        notes: Some(seq![v]),
    }
}

/// The size of an allocation is a symbol that names no data constant.
pub open spec fn no_size(text: Seq<char>, v: Value) -> Fault {
    Fault {
        kind: ErrorKind::TypeError,
        message: quoted("Cannot parse '"@, text, "' as size for allocation!"@),
        notes: Some(seq![v]),
    }
}

/// The size of an allocation is of a kind that gives no size.
pub open spec fn bad_size(v: Value) -> Fault {
    Fault {
        kind: ErrorKind::TypeError,
        message: "Cannot use for allocation!"@,
        notes: Some(seq![v]),
    }
}

/// The kinds of the two operands of an operator cannot be combined.
pub open spec fn bad_operands(a: Value, b: Value) -> Fault {
    Fault {
        kind: ErrorKind::TypeError,
        message: "Invalid combination for type..."@,
        notes: Some(seq![a, b]),
    }
}

/// The name of a kind that a value is converted to.
pub open spec fn cast_name(t: CastType) -> Seq<char> {
    match t {
        CastType::Keep => "none"@,
        CastType::CastToI64 => "i64"@,
        CastType::CastToUsize => "usize"@,
        CastType::CastToString => "str"@,
        CastType::CastToChar => "char"@,
    }
}

/// A value cannot be converted to the kind asked for.
pub open spec fn bad_cast(v: Value, heap: HeapView, t: CastType) -> Fault {
    Fault {
        kind: ErrorKind::CastError,
        message: quoted("Cannot cast '"@, display(v, heap), "' to: "@) + cast_name(t),
        notes: Some(seq![v]),
    }
}

/// A message that names a place in the program.
pub fn placed_text(head: &str, pc: usize, tail: &str) -> (m: String)
    ensures
        m@ == placed(head@, pc, tail@),
{
    let mut m = String::from_str(head);
    push_decimal(&mut m, pc as u64);
    push_str(&mut m, tail);
    m
}

/// A message that quotes a text.
pub fn quoted_text(head: &str, text: &str, tail: &str) -> (m: String)
    ensures
        m@ == quoted(head@, text@, tail@),
{
    let mut m = String::from_str(head);
    push_str(&mut m, text);
    push_str(&mut m, tail);
    m
}

/// The name of a kind that a value is converted to.
pub fn cast_label(t: CastType) -> (s: &'static str)
    ensures
        s@ == cast_name(t),
{
    match t {
        CastType::Keep => "none",
        CastType::CastToI64 => "i64",
        CastType::CastToUsize => "usize",
        CastType::CastToString => "str",
        CastType::CastToChar => "char",
    }
}

/// One offending operand.
pub fn one(v: Field) -> (r: Option<Vec<Field>>)
    ensures
        r is Some,
        r->Some_0@.map_values(|f: Field| f@) == seq![v@],
{
    let mut operands: Vec<Field> = Vec::new();
    operands.push(v);
    Some(operands)
}

/// Two offending operands.
pub fn two(a: Field, b: Field) -> (r: Option<Vec<Field>>)
    ensures
        r is Some,
        r->Some_0@.map_values(|f: Field| f@) == seq![a@, b@],
{
    let mut operands: Vec<Field> = Vec::new();
    operands.push(a);
    operands.push(b);
    Some(operands)
}

} // verus!
