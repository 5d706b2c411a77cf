//! Register names, offset expressions and the register file.

use crate::text::str_eq;
use crate::types::{Term, Type, Value};
use crate::vm::field::Field;
use vstd::prelude::*;
use vstd::string::*;

verus! {

/// The operator that joins a term of an offset expression to the next one.
#[derive(Copy, Clone, Debug, PartialEq, Eq, Structural)]
pub enum RegisterOffsetOperandType {
    /// No operator: the term is the last one.
    End,
    Add,
    Sub,
    Mul,
    Div,
    Rem,
}

impl RegisterOffsetOperandType {
    /// The operator that a character writes; any other character writes none.
    pub open spec fn of_char(c: char) -> RegisterOffsetOperandType {
        if c == '+' {
            RegisterOffsetOperandType::Add
        } else if c == '-' {
            RegisterOffsetOperandType::Sub
        } else if c == '*' {
            RegisterOffsetOperandType::Mul
        } else if c == '/' {
            RegisterOffsetOperandType::Div
        } else if c == '%' {
            RegisterOffsetOperandType::Rem
        } else {
            RegisterOffsetOperandType::End
        }
    }

    /// How the operator is written.
    pub open spec fn symbol(self) -> Seq<char> {
        match self {
            RegisterOffsetOperandType::End => ""@,
            RegisterOffsetOperandType::Add => "+"@,
            RegisterOffsetOperandType::Sub => "-"@,
            RegisterOffsetOperandType::Mul => "*"@,
            RegisterOffsetOperandType::Div => "/"@,
            RegisterOffsetOperandType::Rem => "%"@,
        }
    }

    /// Reads an operator character.
    pub fn from(c: char) -> (op: RegisterOffsetOperandType)
        ensures
            op == RegisterOffsetOperandType::of_char(c),
    {
        if c == '+' {
            RegisterOffsetOperandType::Add
        } else if c == '-' {
            RegisterOffsetOperandType::Sub
        } else if c == '*' {
            RegisterOffsetOperandType::Mul
        } else if c == '/' {
            RegisterOffsetOperandType::Div
        } else if c == '%' {
            RegisterOffsetOperandType::Rem
        } else {
            RegisterOffsetOperandType::End
        }
    }

    /// The operator as it is written.
    pub fn as_str(self) -> (s: &'static str)
        ensures
            s@ == self.symbol(),
    {
        match self {
            RegisterOffsetOperandType::End => "",
            RegisterOffsetOperandType::Add => "+",
            RegisterOffsetOperandType::Sub => "-",
            RegisterOffsetOperandType::Mul => "*",
            RegisterOffsetOperandType::Div => "/",
            RegisterOffsetOperandType::Rem => "%",
        }
    }
}

/// The name of a register. `Unknown` stands for a name that is none.
#[derive(Copy, Clone, Debug, PartialEq, Eq, Structural)]
pub enum Register {
    Ra,
    Rb,
    Rc,
    Rd,
    Re,
    Rf,
    R0,
    R1,
    R2,
    R3,
    R4,
    R5,
    R6,
    R7,
    R8,
    R9,
    Unknown,
}

impl Register {
    /// How the register is written.
    pub open spec fn name(self) -> Seq<char> {
        match self {
            Register::Ra => "ra"@,
            Register::Rb => "rb"@,
            Register::Rc => "rc"@,
            Register::Rd => "rd"@,
            Register::Re => "re"@,
            Register::Rf => "rf"@,
            Register::R0 => "r0"@,
            Register::R1 => "r1"@,
            Register::R2 => "r2"@,
            Register::R3 => "r3"@,
            Register::R4 => "r4"@,
            Register::R5 => "r5"@,
            Register::R6 => "r6"@,
            Register::R7 => "r7"@,
            Register::R8 => "r8"@,
            Register::R9 => "r9"@,
            Register::Unknown => "unknown"@,
        }
    }

    /// The position of the register in the register file, and in the order
    /// of registers; `Unknown` comes last.
    pub open spec fn index(self) -> int {
        match self {
            Register::Ra => 0,
            Register::Rb => 1,
            Register::Rc => 2,
            Register::Rd => 3,
            Register::Re => 4,
            Register::Rf => 5,
            Register::R0 => 6,
            Register::R1 => 7,
            Register::R2 => 8,
            Register::R3 => 9,
            Register::R4 => 10,
            Register::R5 => 11,
            Register::R6 => 12,
            Register::R7 => 13,
            Register::R8 => 14,
            Register::R9 => 15,
            Register::Unknown => 16,
        }
    }

    /// The register that a name writes: one of the sixteen, or `Unknown`.
    pub open spec fn of_name(s: Seq<char>) -> Register {
        if s == "ra"@ {
            Register::Ra
        } else if s == "rb"@ {
            Register::Rb
        } else if s == "rc"@ {
            Register::Rc
        } else if s == "rd"@ {
            Register::Rd
        } else if s == "re"@ {
            Register::Re
        } else if s == "rf"@ {
            Register::Rf
        } else if s == "r0"@ {
            Register::R0
        } else if s == "r1"@ {
            Register::R1
        } else if s == "r2"@ {
            Register::R2
        } else if s == "r3"@ {
            Register::R3
        } else if s == "r4"@ {
            Register::R4
        } else if s == "r5"@ {
            Register::R5
        } else if s == "r6"@ {
            Register::R6
        } else if s == "r7"@ {
            Register::R7
        } else if s == "r8"@ {
            Register::R8
        } else if s == "r9"@ {
            Register::R9
        } else {
            Register::Unknown
        }
    }

    /// Reads a register name.
    pub fn from(value: &str) -> (r: Register)
        ensures
            r == Register::of_name(value@),
    {
        Register::match_register(value)
    }

    /// Reads a register name; a name that is none gives `Unknown`.
    pub fn match_register(str: &str) -> (r: Register)
        ensures
            r == Register::of_name(str@),
    {
        if str_eq(str, "ra") {
            Register::Ra
        } else if str_eq(str, "rb") {
            Register::Rb
        } else if str_eq(str, "rc") {
            Register::Rc
        } else if str_eq(str, "rd") {
            Register::Rd
        } else if str_eq(str, "re") {
            Register::Re
        } else if str_eq(str, "rf") {
            Register::Rf
        } else if str_eq(str, "r0") {
            Register::R0
        } else if str_eq(str, "r1") {
            Register::R1
        } else if str_eq(str, "r2") {
            Register::R2
        } else if str_eq(str, "r3") {
            Register::R3
        } else if str_eq(str, "r4") {
            Register::R4
        } else if str_eq(str, "r5") {
            Register::R5
        } else if str_eq(str, "r6") {
            Register::R6
        } else if str_eq(str, "r7") {
            Register::R7
        } else if str_eq(str, "r8") {
            Register::R8
        } else if str_eq(str, "r9") {
            Register::R9
        } else {
            Register::Unknown
        }
    }

    /// The register as it is written.
    pub fn as_str(self) -> (s: &'static str)
        ensures
            s@ == self.name(),
    {
        match self {
            Register::Ra => "ra",
            Register::Rb => "rb",
            Register::Rc => "rc",
            Register::Rd => "rd",
            Register::Re => "re",
            Register::Rf => "rf",
            Register::R0 => "r0",
            Register::R1 => "r1",
            Register::R2 => "r2",
            Register::R3 => "r3",
            Register::R4 => "r4",
            Register::R5 => "r5",
            Register::R6 => "r6",
            Register::R7 => "r7",
            Register::R8 => "r8",
            Register::R9 => "r9",
            Register::Unknown => "unknown",
        }
    }

    /// The position of the register in the order of registers.
    pub fn ordinal(self) -> (n: u8)
        ensures
            n == self.index(),
    {
        match self {
            Register::Ra => 0,
            Register::Rb => 1,
            Register::Rc => 2,
            Register::Rd => 3,
            Register::Re => 4,
            Register::Rf => 5,
            Register::R0 => 6,
            Register::R1 => 7,
            Register::R2 => 8,
            Register::R3 => 9,
            Register::R4 => 10,
            Register::R5 => 11,
            Register::R6 => 12,
            Register::R7 => 13,
            Register::R8 => 14,
            Register::R9 => 15,
            Register::Unknown => 16,
        }
    }
}

/// One term of an offset expression: a value, and the operator that joins
/// it to the next term.
#[derive(Debug)]
pub struct RegisterOffset {
    pub offset: Field,
    pub operand: RegisterOffsetOperandType,
}

impl View for RegisterOffset {
    type V = Term;

    open spec fn view(&self) -> Term {
        Term { value: self.offset@, operator: self.operand }
    }
}

/// A register together with an offset expression: the terms in the order
/// in which they are written.
#[derive(Debug)]
pub struct RegisterWithOffset {
    pub register: Register,
    pub offsets: Vec<RegisterOffset>,
}

impl RegisterWithOffset {
    /// The terms of the offset expression.
    pub open spec fn terms(&self) -> Seq<Term> {
        self.offsets@.map_values(|o: RegisterOffset| o@)
    }

    /// A register with the offset expression `offsets`.
    pub fn new(register: Register, offsets: Vec<RegisterOffset>) -> (r: RegisterWithOffset)
        ensures
            r.register == register,
            r.offsets == offsets,
    {
        Self { register, offsets }
    }
}

impl View for RegisterWithOffset {
    type V = Value;

    open spec fn view(&self) -> Value {
        Value::Offsets(self.register, self.terms())
    }
}


/// The model of the register file: the sixteen slots in the order of the
/// registers, the three comparison flags and the three reflection slots.
pub struct RegistersView {
    pub slots: Seq<Value>,
    pub equals_flag: bool,
    pub greater_than_flag: bool,
    pub less_than_flag: bool,
    pub stack_len: Value,
    pub call_stack_len: Value,
    pub pc: Value,
}

impl RegistersView {
    /// What register `r` holds.
    pub open spec fn get(self, r: Register) -> Value
        recommends
            r != Register::Unknown,
    {
        self.slots[r.index()]
    }

    /// The value that storing `v` puts into a slot: what the register holds
    /// that `v` refers to, and `v` itself if it refers to none.
    pub open spec fn resolve(self, v: Value) -> Value {
        match v {
            Value::Register(r) if r != Register::Unknown => self.get(r),
            _ => v,
        }
    }

    /// The register file after `v` has been put into register `r` as it
    /// is. Putting a value into `Unknown` changes nothing.
    pub open spec fn put(self, r: Register, v: Value) -> RegistersView {
        if r == Register::Unknown {
            self
        } else {
            RegistersView { slots: self.slots.update(r.index(), v), ..self }
        }
    }

    /// The register file after `v` has been stored into register `r`.
    pub open spec fn store(self, r: Register, v: Value) -> RegistersView {
        self.put(r, self.resolve(v))
    }

    /// The register file with the three flags cleared.
    pub open spec fn without_flags(self) -> RegistersView {
        RegistersView {
            equals_flag: false,
            greater_than_flag: false,
            less_than_flag: false,
            ..self
        }
    }

    /// Whether all slots hold the integer zero, no flag is set and the
    /// reflection slots hold the integer zero.
    pub open spec fn is_initial(self) -> bool {
        &&& self.slots.len() == 16
        &&& forall|i: int| 0 <= i < 16 ==> self.slots[i] == Value::Int(0)
        &&& !self.equals_flag
        &&& !self.greater_than_flag
        &&& !self.less_than_flag
        &&& self.stack_len == Value::Int(0)
        &&& self.call_stack_len == Value::Int(0)
        &&& self.pc == Value::Int(0)
    }
}

/// The register file: sixteen slots, three comparison flags, and three
/// reflection slots that mirror the machine's counters.
#[derive(Debug)]
pub struct Registers {
    pub ra: Field,
    pub rb: Field,
    pub rc: Field,
    pub rd: Field,
    pub re: Field,
    pub rf: Field,
    pub r0: Field,
    pub r1: Field,
    pub r2: Field,
    pub r3: Field,
    pub r4: Field,
    pub r5: Field,
    pub r6: Field,
    pub r7: Field,
    pub r8: Field,
    pub r9: Field,
    pub equals_flag: bool,
    pub greater_than_flag: bool,
    pub less_than_flag: bool,
    pub stack_len: Field,
    pub call_stack_len: Field,
    pub pc: Field,
}

impl View for Registers {
    type V = RegistersView;

    open spec fn view(&self) -> RegistersView {
        RegistersView {
            slots: seq![
                self.ra@,
                self.rb@,
                self.rc@,
                self.rd@,
                self.re@,
                self.rf@,
                self.r0@,
                self.r1@,
                self.r2@,
                self.r3@,
                self.r4@,
                self.r5@,
                self.r6@,
                self.r7@,
                self.r8@,
                self.r9@,
            ],
            equals_flag: self.equals_flag,
            greater_than_flag: self.greater_than_flag,
            less_than_flag: self.less_than_flag,
            stack_len: self.stack_len@,
            call_stack_len: self.call_stack_len@,
            pc: self.pc@,
        }
    }
}

impl Registers {
    /// The slot of register `r`.
    pub open spec fn slot(&self, r: Register) -> Field
        recommends
            r != Register::Unknown,
    {
        match r {
            Register::Ra => self.ra,
            Register::Rb => self.rb,
            Register::Rc => self.rc,
            Register::Rd => self.rd,
            Register::Re => self.re,
            Register::Rf => self.rf,
            Register::R0 => self.r0,
            Register::R1 => self.r1,
            Register::R2 => self.r2,
            Register::R3 => self.r3,
            Register::R4 => self.r4,
            Register::R5 => self.r5,
            Register::R6 => self.r6,
            Register::R7 => self.r7,
            Register::R8 => self.r8,
            Register::R9 => self.r9,
            Register::Unknown => self.ra,
        }
    }

    /// A register file in which every slot holds the integer zero and no
    /// flag is set.
    pub fn new() -> (r: Registers)
        ensures
            r@.is_initial(),
    {
        Self {
            ra: Field(Type::Int(0)),
            rb: Field(Type::Int(0)),
            rc: Field(Type::Int(0)),
            rd: Field(Type::Int(0)),
            re: Field(Type::Int(0)),
            rf: Field(Type::Int(0)),
            r0: Field(Type::Int(0)),
            r1: Field(Type::Int(0)),
            r2: Field(Type::Int(0)),
            r3: Field(Type::Int(0)),
            r4: Field(Type::Int(0)),
            r5: Field(Type::Int(0)),
            r6: Field(Type::Int(0)),
            r7: Field(Type::Int(0)),
            r8: Field(Type::Int(0)),
            r9: Field(Type::Int(0)),
            equals_flag: false,
            greater_than_flag: false,
            less_than_flag: false,
            stack_len: Field(Type::Int(0)),
            call_stack_len: Field(Type::Int(0)),
            pc: Field(Type::Int(0)),
        }
    }

    /// Stores `f` into register `r`. A reference to a register is followed
    /// first: what that register holds is stored. Storing into `Unknown`
    /// changes nothing.
    pub fn set(&mut self, r: Register, f: Field)
        ensures
            final(self)@ == old(self)@.store(r, f@),
    {
        let value = match f.0 {
            Type::Register(source) => {
                if source.ordinal() != 16 {
                    self.get(source).underlying_data_clone()
                } else {
                    f
                }
            },
            _ => f,
        };
        self.put(r, value);
    }

    /// Puts `f` into register `r` as it is. Putting into `Unknown` changes
    /// nothing.
    pub fn put(&mut self, r: Register, f: Field)
        ensures
            final(self)@ == old(self)@.put(r, f@),
    {
        match r {
            Register::Ra => self.ra = f,
            Register::Rb => self.rb = f,
            Register::Rc => self.rc = f,
            Register::Rd => self.rd = f,
            Register::Re => self.re = f,
            Register::Rf => self.rf = f,
            Register::R0 => self.r0 = f,
            Register::R1 => self.r1 = f,
            Register::R2 => self.r2 = f,
            Register::R3 => self.r3 = f,
            Register::R4 => self.r4 = f,
            Register::R5 => self.r5 = f,
            Register::R6 => self.r6 = f,
            Register::R7 => self.r7 = f,
            Register::R8 => self.r8 = f,
            Register::R9 => self.r9 = f,
            Register::Unknown => {},
        }
        assert(final(self)@.slots =~= old(self)@.put(r, f@).slots);
    }

    /// What register `name` holds.
    pub fn get(&self, name: Register) -> (f: &Field)
        requires
            name != Register::Unknown,
        ensures
            *f == self.slot(name),
            f@ == self@.get(name),
    {
        match name {
            Register::Ra => &self.ra,
            Register::Rb => &self.rb,
            Register::Rc => &self.rc,
            Register::Rd => &self.rd,
            Register::Re => &self.re,
            Register::Rf => &self.rf,
            Register::R0 => &self.r0,
            Register::R1 => &self.r1,
            Register::R2 => &self.r2,
            Register::R3 => &self.r3,
            Register::R4 => &self.r4,
            Register::R5 => &self.r5,
            Register::R6 => &self.r6,
            Register::R7 => &self.r7,
            Register::R8 => &self.r8,
            Register::R9 => &self.r9,
            Register::Unknown => &self.ra,
        }
    }

    /// Clears the three comparison flags.
    pub fn reset_flags(&mut self)
        ensures
            final(self)@ == old(self)@.without_flags(),
    {
        self.equals_flag = false;
        self.less_than_flag = false;
        self.greater_than_flag = false;
    }

    /// Whether the `equals_flag` is set.
    pub fn check_equals_flag(&self) -> (b: bool)
        ensures
            b == self@.equals_flag,
    {
        self.equals_flag
    }

    /// Sets or clears the `equals_flag`.
    pub fn set_equals_flag(&mut self, u: bool)
        ensures
            final(self)@ == (RegistersView { equals_flag: u, ..old(self)@ }),
    {
        self.equals_flag = u;
    }

    /// Whether the `less_than_flag` is set.
    pub fn check_less_than_flag(&self) -> (b: bool)
        ensures
            b == self@.less_than_flag,
    {
        self.less_than_flag
    }

    /// Sets or clears the `less_than_flag`.
    pub fn set_less_than_flag(&mut self, u: bool)
        ensures
            final(self)@ == (RegistersView { less_than_flag: u, ..old(self)@ }),
    {
        self.less_than_flag = u;
    }

    /// Whether the `greater_than_flag` is set.
    pub fn check_greater_than_flag(&self) -> (b: bool)
        ensures
            b == self@.greater_than_flag,
    {
        self.greater_than_flag
    }

    /// Sets or clears the `greater_than_flag`.
    pub fn set_greater_than_flag(&mut self, u: bool)
        ensures
            final(self)@ == (RegistersView { greater_than_flag: u, ..old(self)@ }),
    {
        self.greater_than_flag = u;
    }

    /// The reflection slot that mirrors the depth of the stack.
    pub fn check_stack_len(&self) -> (f: &Field)
        ensures
            f@ == self@.stack_len,
    {
        &self.stack_len
    }

    /// Fills the reflection slot that mirrors the depth of the stack.
    pub fn set_stack_len(&mut self, u: Field)
        ensures
            final(self)@ == (RegistersView { stack_len: u@, ..old(self)@ }),
    {
        self.stack_len = u;
    }

    /// The reflection slot that mirrors the depth of the call stack.
    pub fn check_call_stack_len(&self) -> (f: &Field)
        ensures
            f@ == self@.call_stack_len,
    {
        &self.call_stack_len
    }

    /// Fills the reflection slot that mirrors the depth of the call stack.
    pub fn set_call_stack_len(&mut self, u: Field)
        ensures
            final(self)@ == (RegistersView { call_stack_len: u@, ..old(self)@ }),
    {
        self.call_stack_len = u;
    }

    /// The reflection slot that mirrors the program counter.
    pub fn check_pc(&self) -> (f: &Field)
        ensures
            f@ == self@.pc,
    {
        &self.pc
    }

    /// Fills the reflection slot that mirrors the program counter.
    pub fn set_pc(&mut self, u: Field)
        ensures
            final(self)@ == (RegistersView { pc: u@, ..old(self)@ }),
    {
        self.pc = u;
    }
}

/// Every register is the one that its name writes.
pub proof fn lemma_name_writes_register(r: Register)
    ensures
        Register::of_name(r.name()) == r,
{
    reveal_strlit("ra");
    assert("ra"@ =~= seq!['r', 'a']);
    reveal_strlit("rb");
    assert("rb"@ =~= seq!['r', 'b']);
    reveal_strlit("rc");
    assert("rc"@ =~= seq!['r', 'c']);
    reveal_strlit("rd");
    assert("rd"@ =~= seq!['r', 'd']);
    reveal_strlit("re");
    assert("re"@ =~= seq!['r', 'e']);
    reveal_strlit("rf");
    assert("rf"@ =~= seq!['r', 'f']);
    reveal_strlit("r0");
    assert("r0"@ =~= seq!['r', '0']);
    reveal_strlit("r1");
    assert("r1"@ =~= seq!['r', '1']);
    reveal_strlit("r2");
    assert("r2"@ =~= seq!['r', '2']);
    reveal_strlit("r3");
    assert("r3"@ =~= seq!['r', '3']);
    reveal_strlit("r4");
    assert("r4"@ =~= seq!['r', '4']);
    reveal_strlit("r5");
    assert("r5"@ =~= seq!['r', '5']);
    reveal_strlit("r6");
    assert("r6"@ =~= seq!['r', '6']);
    reveal_strlit("r7");
    assert("r7"@ =~= seq!['r', '7']);
    reveal_strlit("r8");
    assert("r8"@ =~= seq!['r', '8']);
    reveal_strlit("r9");
    assert("r9"@ =~= seq!['r', '9']);
    reveal_strlit("unknown");
}

/// Every operator is the one that its symbol writes.
pub proof fn lemma_symbol_writes_operator(op: RegisterOffsetOperandType)
    requires
        op != RegisterOffsetOperandType::End,
    ensures
        op.symbol().len() == 1,
        RegisterOffsetOperandType::of_char(op.symbol()[0]) == op,
{
    reveal_strlit("+");
    reveal_strlit("-");
    reveal_strlit("*");
    reveal_strlit("/");
    reveal_strlit("%");
}

} // verus!
