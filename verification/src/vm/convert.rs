//! Making values from the plain kinds of Rust.

use crate::text::scalar;
use crate::types::{Allocation, Type, Value};
use crate::vm::field::Field;
use crate::vm::register::Register;
use vstd::prelude::*;
use vstd::std_specs::convert::FromSpecImpl;
use vstd::string::*;

verus! {

impl Default for Field {
    /// The integer zero.
    fn default() -> (f: Field)
        ensures
            f@ == Value::Int(0),
    {
        Field(Type::Int(0))
    }
}

impl From<u8> for Field {
    /// The value that is a byte.
    fn from(u: u8) -> (f: Field)
        ensures
            f@ == Value::Byte(u),
    {
        Field(Type::Byte(u))
    }
}

impl FromSpecImpl<u8> for Field {
    open spec fn obeys_from_spec() -> bool {
        true
    }

    open spec fn from_spec(u: u8) -> Field {
        Field(Type::Byte(u))
    }
}

impl From<u16> for Field {
    /// The value that is a 16-bit word.
    fn from(u: u16) -> (f: Field)
        ensures
            f@ == Value::Short(u),
    {
        Field(Type::Short(u))
    }
}

impl FromSpecImpl<u16> for Field {
    open spec fn obeys_from_spec() -> bool {
        true
    }

    open spec fn from_spec(u: u16) -> Field {
        Field(Type::Short(u))
    }
}

impl From<usize> for Field {
    /// The value that is an unsigned word.
    fn from(u: usize) -> (f: Field)
        ensures
            f@ == Value::UInt(u),
    {
        Field(Type::UInt(u))
    }
}

impl FromSpecImpl<usize> for Field {
    open spec fn obeys_from_spec() -> bool {
        true
    }

    open spec fn from_spec(u: usize) -> Field {
        Field(Type::UInt(u))
    }
}

impl From<i64> for Field {
    /// The value that is an integer.
    fn from(i: i64) -> (f: Field)
        ensures
            f@ == Value::Int(i),
    {
        Field(Type::Int(i))
    }
}

impl FromSpecImpl<i64> for Field {
    open spec fn obeys_from_spec() -> bool {
        true
    }

    open spec fn from_spec(i: i64) -> Field {
        Field(Type::Int(i))
    }
}

impl From<i32> for Field {
    /// The value that is an integer.
    fn from(i: i32) -> (f: Field)
        ensures
            f@ == Value::Int(i as i64),
    {
        Field(Type::Int(i as i64))
    }
}

impl FromSpecImpl<i32> for Field {
    open spec fn obeys_from_spec() -> bool {
        true
    }

    open spec fn from_spec(i: i32) -> Field {
        Field(Type::Int(i as i64))
    }
}

impl From<char> for Field {
    /// The value that is a character.
    fn from(c: char) -> (f: Field)
        ensures
            f@ == Value::Char(c),
    {
        Field(Type::Char(scalar(c)))
    }
}

impl FromSpecImpl<char> for Field {
    open spec fn obeys_from_spec() -> bool {
        true
    }

    open spec fn from_spec(c: char) -> Field {
        Field(Type::Char(c))
    }
}

impl From<bool> for Field {
    /// The value that is a truth value.
    fn from(b: bool) -> (f: Field)
        ensures
            f@ == Value::Bool(b),
    {
        Field(Type::Bool(b))
    }
}

impl FromSpecImpl<bool> for Field {
    open spec fn obeys_from_spec() -> bool {
        true
    }

    open spec fn from_spec(b: bool) -> Field {
        Field(Type::Bool(b))
    }
}

impl From<String> for Field {
    /// The value that is a string.
    fn from(s: String) -> (f: Field)
        ensures
            f@ == Value::Str(s@),
    {
        Field(Type::String(s))
    }
}

impl FromSpecImpl<String> for Field {
    open spec fn obeys_from_spec() -> bool {
        true
    }

    open spec fn from_spec(s: String) -> Field {
        Field(Type::String(s))
    }
}

impl From<Allocation> for Field {
    /// The value that is a pointer.
    fn from(p: Allocation) -> (f: Field)
        ensures
            f@ == Value::Pointer(p),
    {
        Field(Type::Pointer(p))
    }
}

impl FromSpecImpl<Allocation> for Field {
    open spec fn obeys_from_spec() -> bool {
        true
    }

    open spec fn from_spec(p: Allocation) -> Field {
        Field(Type::Pointer(p))
    }
}

impl From<Register> for Field {
    /// The value that is a reference to a register.
    fn from(r: Register) -> (f: Field)
        ensures
            f@ == Value::Register(r),
    {
        Field(Type::Register(r))
    }
}

impl FromSpecImpl<Register> for Field {
    open spec fn obeys_from_spec() -> bool {
        true
    }

    open spec fn from_spec(r: Register) -> Field {
        Field(Type::Register(r))
    }
}

impl From<&str> for Field {
    /// The value that is a string with the characters of `s`.
    fn from(s: &str) -> (f: Field)
        ensures
            f@ == Value::Str(s@),
    {
        Field(Type::String(String::from_str(s)))
    }
}

impl FromSpecImpl<&str> for Field {
    open spec fn obeys_from_spec() -> bool {
        false
    }

    open spec fn from_spec(s: &str) -> Field {
        choose|f: Field| f@ == Value::Str(s@)
    }
}

} // verus!
