//! Built-ins: functions of the host that a program calls by name.

use crate::text::push_str;
use crate::types::{HostObject, Type, Value};
use crate::types::date::Date;
use crate::vm::field::{display, Field};
use crate::vm::heap::Heap;
use crate::vm::instruction::Instruction;
use crate::vm::register::{Register, Registers};
use crate::vm::stack::Stack;
use vstd::prelude::*;
use vstd::string::*;

verus! {

/// A function of the host. A call may read and change the registers and
/// the stack and may read the instructions and the heap; what it returns
/// is put into register `r0`.
pub trait BuiltIn {
    /// Runs the built-in.
    fn call(
        &self,
        registers: &mut Registers,
        args: &mut Stack<Field>,
        instructions: &Vec<Instruction>,
        heap: &Heap,
    ) -> Field;

    /// The name by which programs call the built-in.
    fn get_name(&self) -> String;
}

/// The built-in `__concat`: the text of register `rd` followed by the text
/// of register `re`.
#[derive(Debug)]
pub struct Concat;

impl Concat {
    /// The string that the built-in returns for these registers.
    pub fn joined(registers: &Registers, heap: &Heap) -> (f: Field)
        ensures
            f@ == Value::Str(
                display(registers@.get(Register::Rd), heap@) + display(
                    registers@.get(Register::Re),
                    heap@,
                ),
            ),
    {
        let mut s = registers.rd.to_text(heap);
        let second = registers.re.to_text(heap);
        push_str(&mut s, second.as_str());
        Field(Type::String(s))
    }
}

impl BuiltIn for Concat {
    fn call(
        &self,
        registers: &mut Registers,
        args: &mut Stack<Field>,
        instructions: &Vec<Instruction>,
        heap: &Heap,
    ) -> (f: Field)
        ensures
            *final(registers) == *old(registers),
            *final(args) == *old(args),
            f@ == Value::Str(
                display(old(registers)@.get(Register::Rd), heap@) + display(
                    old(registers)@.get(Register::Re),
                    heap@,
                ),
            ),
    {
        Concat::joined(registers, heap)
    }

    fn get_name(&self) -> (name: String)
        ensures
            name@ == "__concat"@,
    {
        String::from_str("__concat")
    }
}

/// The built-in `__date_now`: the point in time that the clock of the host
/// shows, as an object.
#[derive(Debug)]
pub struct DateNow;

impl DateNow {
    /// The point in time that the built-in returns.
    pub fn now() -> (f: Field)
        ensures
            f@ is Object,
            f@->Object_0 is Date,
    {
        Field(Type::Object(HostObject::Date(Date::new())))
    }
}

impl BuiltIn for DateNow {
    fn call(
        &self,
        registers: &mut Registers,
        args: &mut Stack<Field>,
        instructions: &Vec<Instruction>,
        heap: &Heap,
    ) -> (f: Field)
        ensures
            *final(registers) == *old(registers),
            *final(args) == *old(args),
            f@ is Object,
            f@->Object_0 is Date,
    {
        DateNow::now()
    }

    fn get_name(&self) -> (name: String)
        ensures
            name@ == "__date_now"@,
    {
        String::from_str("__date_now")
    }
}

/// The built-in `__date_now_unix`: the seconds since the start of 1970 that
/// the clock of the host shows, as an unsigned word.
#[derive(Debug)]
pub struct DateNowUnix;

impl DateNowUnix {
    /// The seconds that the built-in returns.
    pub fn now() -> (f: Field)
        ensures
            f@ is UInt,
    {
        let date = Date::new();
        Field(Type::UInt(#[verifier::truncate] (date.seconds as usize)))
    }
}

impl BuiltIn for DateNowUnix {
    fn call(
        &self,
        registers: &mut Registers,
        args: &mut Stack<Field>,
        instructions: &Vec<Instruction>,
        heap: &Heap,
    ) -> (f: Field)
        ensures
            *final(registers) == *old(registers),
            *final(args) == *old(args),
            f@ is UInt,
    {
        DateNowUnix::now()
    }

    fn get_name(&self) -> (name: String)
        ensures
            name@ == "__date_now_unix"@,
    {
        String::from_str("__date_now_unix")
    }
}

} // verus!
