//! The values that the machine computes with, and their mathematical model.

use crate::types::date::Date;
use crate::types::duration::Duration;
use crate::vm::register::{Register, RegisterOffset, RegisterOffsetOperandType, RegisterWithOffset};
use vstd::prelude::*;

pub mod arith;
pub mod date;
pub mod duration;
pub mod order;

verus! {

/// A region of the heap: where it starts, how many bytes were asked for, and
/// the alignment they were asked with.
#[derive(Copy, Clone, Debug)]
pub struct Allocation {
    pub ptr: usize,
    pub size: usize,
    pub align: usize,
}

impl Allocation {
    /// A pointer to `size` bytes at address `ptr`.
    pub fn new(ptr: usize, size: usize, align: usize) -> (a: Allocation)
        ensures
            a == (Allocation { ptr, size, align }),
    {
        Allocation { ptr, size, align }
    }
}

/// What an object of the host can do for the machine.
pub trait Object {
    /// How the object is displayed.
    spec fn text(&self) -> Seq<char>;

    /// The object as it is displayed.
    fn to_text(&self) -> (s: String)
        ensures
            s@ == self.text(),
    ;
}

/// An object of the host, which the machine carries about and displays.
#[derive(Copy, Clone, Debug, PartialEq, Eq, Structural)]
pub enum HostObject {
    /// A point in time.
    Date(Date),
    /// A span of time.
    Duration(Duration),
}

impl Object for HostObject {
    open spec fn text(&self) -> Seq<char> {
        match self {
            HostObject::Date(d) => d.text(),
            HostObject::Duration(d) => d.text(),
        }
    }

    fn to_text(&self) -> String {
        match self {
            HostObject::Date(d) => d.to_text(),
            HostObject::Duration(d) => d.to_text(),
        }
    }
}

/// A value of the machine.
#[derive(Debug)]
pub enum Type {
    /// An unsigned byte.
    Byte(u8),
    /// A 16-bit word.
    Short(u16),
    /// A signed 64-bit integer.
    Int(i64),
    /// An unsigned integer of the machine's word size.
    UInt(usize),
    /// A 64-bit IEEE-754 number, held as its bit pattern.
    Float(u64),
    /// A Unicode scalar.
    Char(char),
    /// A character sequence.
    String(String),
    /// A truth value.
    Bool(bool),
    /// A region of the heap.
    Pointer(Allocation),
    /// A reference to a register.
    Register(Register),
    /// A reference to a place inside what a register holds.
    RegisterWithOffsets(RegisterWithOffset),
    /// An object of the host.
    Object(HostObject),
}

/// The mathematical model of a value: strings are sequences of characters
/// and lists are sequences.
pub enum Value {
    Byte(u8),
    Short(u16),
    Int(i64),
    UInt(usize),
    Float(u64),
    Char(char),
    Str(Seq<char>),
    Bool(bool),
    Pointer(Allocation),
    Register(Register),
    Offsets(Register, Seq<Term>),
    Object(HostObject),
}

/// The model of one term of an offset expression: a value and the operator
/// that joins it to the next term.
pub struct Term {
    pub value: Value,
    pub operator: RegisterOffsetOperandType,
}

/// The model of a value.
pub open spec fn value_of(t: Type) -> Value
    decreases t, 0nat,
{
    match t {
        Type::Byte(b) => Value::Byte(b),
        Type::Short(s) => Value::Short(s),
        Type::Int(i) => Value::Int(i),
        Type::UInt(u) => Value::UInt(u),
        Type::Float(f) => Value::Float(f),
        Type::Char(c) => Value::Char(c),
        Type::String(s) => Value::Str(s@),
        Type::Bool(b) => Value::Bool(b),
        Type::Pointer(p) => Value::Pointer(p),
        Type::Register(r) => Value::Register(r),
        Type::RegisterWithOffsets(r) => Value::Offsets(
            r.register,
            terms_of(r.offsets, r.offsets.len() as nat),
        ),
        Type::Object(o) => Value::Object(o),
    }
}

/// The models of the first `n` terms of an offset expression.
pub open spec fn terms_of(v: Vec<RegisterOffset>, n: nat) -> Seq<Term>
    decreases v, n,
{
    if n == 0 || n > v.len() {
        Seq::empty()
    } else {
        terms_of(v, (n - 1) as nat).push(
            Term { value: value_of(v[n - 1].offset.0), operator: v[n - 1].operand },
        )
    }
}

impl View for Type {
    type V = Value;

    open spec fn view(&self) -> Value {
        value_of(*self)
    }
}

/// The models of the first `n` terms are `n` terms, each the model of the
/// term at its place.
pub proof fn lemma_terms_of(v: Vec<RegisterOffset>, n: nat)
    requires
        n <= v.len(),
    ensures
        terms_of(v, n).len() == n,
        forall|i: int| 0 <= i < n ==> terms_of(v, n)[i] == v[i]@,
    decreases n,
{
    if n > 0 {
        lemma_terms_of(v, (n - 1) as nat);
    }
}

} // verus!
