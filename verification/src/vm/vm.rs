//! The machine: it holds a program and its state, and carries the program
//! out step by step.

use crate::text::{
    char_to_string, decimal, hexadecimal, push_char, push_decimal, push_hex, push_signed, push_str,
    signed_decimal, splice,
};

use crate::types::{Allocation, Term, Type, Value};

use crate::types::arith::{compute, ArithOp};

use crate::vm::error::{Error, ErrorKind};

use crate::vm::fault::{bad_offset, freed, no_register, one, placed_text, quoted_text, Fault};

use crate::vm::field::{display, extent, Field};

use crate::vm::heap::{DEFAULT_HEAP_SIZE, Heap, HeapView};

use crate::vm::instruction::Instruction;

use crate::vm::program::{data_views, instruction_views};

use crate::vm::register::{Register, RegisterOffsetOperandType, RegisterWithOffset, Registers};

use crate::vm::semantics::{
    combine, failing_term, offset_value, read_at, resolved_offset, write_at, written, Code,
    FloatRequest, State,
};
use crate::vm::stack::Stack;

use vstd::hash_map::StringHashMap;

use vstd::prelude::*;

use vstd::string::*;


verus! {

/// Why the machine gave control back without a fault.
#[derive(Copy, Clone, Debug, PartialEq, Eq, Structural)]
pub enum Status {
    /// The program can go on: a step was made, or the budget of steps is
    /// used up.
    Running,
    /// The program has ended.
    Halted,
    /// The instruction at the program counter asks for a line of input.
    AwaitingInput,
    /// The instruction at the program counter asks for floating-point
    /// arithmetic.
    AwaitingFloat(FloatRequest),
    /// The instruction at the program counter calls the built-in that was
    /// registered with this index.
    AwaitingBuiltin(usize),
}

/// The machine.
pub struct Vm {
    /// The names of the built-ins, in the order in which they were
    /// registered.
    pub names: Vec<String>,
    pub instructions: Vec<Instruction>,
    pub labels: StringHashMap<usize>,
    pub data: StringHashMap<Field>,
    pub registers: Registers,
    pub stack: Stack<Field>,
    pub call_stack: Stack<usize>,
    pub pc: usize,
    pub heap: Heap,
    pub reflection: bool,
}

/// The models of the values on a stack, bottom first.
pub open spec fn stack_views(stack: Seq<Field>) -> Seq<Value> {
    stack.map_values(|f: Field| f@)
}

/// The first index of the instructions that a fault reports: four before
/// the program counter, or the start of the program.
pub open spec fn window_start(pc: int) -> int {
    if pc >= 4 {
        pc - 4
    } else {
        0
    }
}

/// The index behind the last instruction that a fault reports: four after
/// the program counter, or the end of the program.
pub open spec fn window_end(pc: int, len: int) -> int {
    if pc + 5 <= len {
        pc + 5
    } else {
        len
    }
}

/// The number of instructions that a fault reports.
pub open spec fn window_len(pc: int, len: int) -> int {
    if window_start(pc) <= window_end(pc, len) {
        window_end(pc, len) - window_start(pc)
    } else {
        0
    }
}

/// How an offending operand is written behind the instruction that failed.
pub open spec fn operand_note(v: Value, heap: HeapView) -> Seq<char> {
    match v {
        Value::Char(c) => seq![c, ' '],
        Value::Int(i) => signed_decimal(i as int) + " "@,
        Value::UInt(u) => hexadecimal(u as nat) + " "@,
        Value::Str(s) => if s.len() == 0 {
            Seq::empty()
        } else {
            s + " "@
        },
        Value::Register(r) => r.name() + ","@,
        _ => display(v, heap) + " "@,
    }
}

/// The first `n` offending operands as they are written.
pub open spec fn operand_notes(ops: Seq<Value>, n: nat, heap: HeapView) -> Seq<char>
    decreases n,
{
    if n == 0 || n > ops.len() {
        Seq::empty()
    } else {
        operand_notes(ops, (n - 1) as nat, heap) + operand_note(ops[n - 1], heap)
    }
}

/// The models of the offending operands that go with a fault.
pub open spec fn noted(field: Option<Vec<Field>>) -> Option<Seq<Value>> {
    match field {
        Some(f) => Some(stack_views(f@)),
        None => None,
    }
}

/// The mark behind the instruction that failed, with the offending
/// operands where there are any.
pub open spec fn fault_mark(ops: Option<Seq<Value>>, heap: HeapView) -> Seq<char> {
    match ops {
        Some(o) => " <-- error occurred here, operand(s): "@ + operand_notes(o, o.len(), heap),
        None => " <-- error occurred here"@,
    }
}

/// The line that reports the instruction at index `i`: the index and the
/// instruction as it is written.
pub open spec fn window_line(code: Code, s: State, i: int) -> Seq<char> {
    decimal(i as nat) + "\t | "@ + code.instructions[i].assembled(s.heap)
}

/// The line that reports the value at index `i` of the stack.
pub open spec fn stack_line(s: State, i: int) -> Seq<char> {
    decimal(i as nat) + "\t: "@ + display(s.stack[i], s.heap)
}

/// Whether `lines` report the stack of state `s`: one line for each value,
/// bottom first.
pub open spec fn is_snapshot(lines: Seq<String>, s: State) -> bool {
    &&& lines.len() == s.stack.len()
    &&& forall|i: int| 0 <= i < lines.len() ==> (#[trigger] lines[i])@ == stack_line(s, i)
}

/// Whether `lines` report the instructions around the program counter of
/// state `s`, the one at the program counter with `mark` behind it.
pub open spec fn is_window(lines: Seq<String>, code: Code, s: State, mark: Seq<char>) -> bool {
    &&& lines.len() == window_len(s.pc as int, code.instructions.len() as int)
    &&& forall|j: int|
        0 <= j < lines.len() ==> (#[trigger] lines[j])@ == window_line(
            code,
            s,
            window_start(s.pc as int) + j,
        ) + if window_start(s.pc as int) + j == s.pc {
            mark
        } else {
            Seq::empty()
        }
}

/// Whether `e` is the report of the fault `f` in state `s`: it has the
/// kind and the message of the fault, the instructions around the program
/// counter, the one that failed marked and followed by the offending
/// operands, and the stack.
#[verifier::opaque]
pub open spec fn reports(code: Code, s: State, e: Error, f: Fault) -> bool {
    &&& e.kind == f.kind
    &&& e.message@ == f.message
    &&& is_snapshot(e.app_stack@, s)
    &&& is_window(e.stacktrace@, code, s, fault_mark(f.notes, s.heap))
}

impl Vm {
    /// What changes while the program runs.
    pub open spec fn state(&self) -> State {
        State {
            pc: self.pc,
            registers: self.registers@,
            stack: stack_views(self.stack@),
            call_stack: self.call_stack@,
            heap: self.heap@,
        }
    }

    /// What stays as it is while the program runs.
    pub open spec fn code(&self) -> Code {
        Code {
            instructions: instruction_views(self.instructions@),
            labels: self.labels@,
            data: data_views(self.data@),
            builtins: self.names@.map_values(|n: String| n@),
            reflection: self.reflection,
        }
    }

    /// A machine with an empty program, no built-ins, and a heap of the
    /// default capacity.
    pub fn new(reflection: bool) -> (vm: Vm)
        ensures
            vm.pc == 0,
            vm.reflection == reflection,
            vm.registers@.is_initial(),
            vm.stack@.len() == 0,
            vm.call_stack@.len() == 0,
            vm.instructions@.len() == 0,
            vm.names@.len() == 0,
            vm.labels@ == Map::<Seq<char>, usize>::empty(),
            vm.data@ == Map::<Seq<char>, Field>::empty(),
            vm.heap@ == HeapView::empty(DEFAULT_HEAP_SIZE as nat),
    {
        Vm::with_heap(reflection, DEFAULT_HEAP_SIZE)
    }

    /// A machine with an empty program, no built-ins, and a heap of
    /// `capacity` bytes.
    pub fn with_heap(reflection: bool, capacity: usize) -> (vm: Vm)
        ensures
            vm.pc == 0,
            vm.reflection == reflection,
            vm.registers@.is_initial(),
            vm.stack@.len() == 0,
            vm.call_stack@.len() == 0,
            vm.instructions@.len() == 0,
            vm.names@.len() == 0,
            vm.labels@ == Map::<Seq<char>, usize>::empty(),
            vm.data@ == Map::<Seq<char>, Field>::empty(),
            vm.heap@ == HeapView::empty(capacity as nat),
    {
        Vm {
            names: Vec::new(),
            instructions: Vec::new(),
            labels: StringHashMap::new(),
            data: StringHashMap::new(),
            registers: Registers::new(),
            stack: Stack::new(),
            call_stack: Stack::new(),
            pc: 0,
            heap: Heap::new(capacity),
            reflection,
        }
    }

    /// Registers the name of a built-in, and gives the index by which the
    /// machine will ask for it. Of two built-ins with one name, programs
    /// call the one registered first.
    pub fn register(&mut self, name: &str) -> (index: usize)
        ensures
            final(self).state() == old(self).state(),
            index == old(self).names@.len(),
            final(self).code() == (Code {
                builtins: old(self).code().builtins.push(name@),
                ..old(self).code()
            }),
    {
        let index = self.names.len();
        self.names.push(String::from_str(name));
        assert(self.code().builtins =~= old(self).code().builtins.push(name@));
        index
    }

    /// Takes the machine back to the start: the heap is emptied, the
    /// stacks are cleared, and the program counter is zero. The registers
    /// and the program stay.
    pub fn reset(&mut self)
        ensures
            final(self).code() == old(self).code(),
            final(self).state() == (State {
                pc: 0,
                stack: Seq::empty(),
                call_stack: Seq::empty(),
                heap: HeapView::empty(old(self).heap@.bytes.len()),
                ..old(self).state()
            }),
    {
        self.heap.reset();
        self.stack = Stack::new();
        self.call_stack = Stack::new();
        self.pc = 0;
        assert(self.state().stack =~= Seq::empty());
    }

    /// Appends to `out` how the offending operand `item` is written.
    fn push_note(&self, out: &mut String, item: &Field)
        ensures
            final(out)@ == old(out)@ + operand_note(item@, self.heap@),
    {
        match &item.0 {
            Type::Char(c) => {
                push_char(out, *c);
                push_char(out, ' ');
            },
            Type::Int(i) => {
                push_signed(out, *i);
                push_str(out, " ");
            },
            Type::UInt(u) => {
                push_hex(out, *u as u64);
                push_str(out, " ");
            },
            Type::String(s) => {
                if s.as_str().unicode_len() != 0 {
                    push_str(out, s.as_str());
                    push_str(out, " ");
                }
            },
            Type::Register(r) => {
                push_str(out, r.as_str());
                push_str(out, ",");
            },
            _ => {
                let text = item.to_text(&self.heap);
                push_str(out, text.as_str());
                push_str(out, " ");
            },
        }
    }

    /// The report of a fault of kind `kind` in the state that the machine
    /// is in: the message, the instructions from four before to four after
    /// the program counter, the one at the program counter marked and
    /// followed by the offending operands `field`, and the stack.
    pub fn error(&self, kind: ErrorKind, msg: String, field: Option<Vec<Field>>) -> (r: Result<
        (),
        Error,
    >)
        ensures
            r is Err,
            r->Err_0.kind == kind,
            r->Err_0.message == msg,
            is_snapshot(r->Err_0.app_stack@, self.state()),
            is_window(
                r->Err_0.stacktrace@,
                self.code(),
                self.state(),
                fault_mark(noted(field), self.heap@),
            ),
            reports(
                self.code(),
                self.state(),
                r->Err_0,
                Fault { kind, message: msg@, notes: noted(field) },
            ),
    {
        let ghost ops: Option<Seq<Value>> = noted(field);
        let ghost mark = fault_mark(ops, self.heap@);
        let len = self.instructions.len();
        let first: usize = if self.pc >= 4 {
            self.pc - 4
        } else {
            0
        };
        let last: usize = if self.pc <= len && len - self.pc >= 5 {
            self.pc + 5
        } else {
            len
        };
        let mut stack: Vec<String> = Vec::new();
        let mut i: usize = if first <= last {
            first
        } else {
            last
        };
        while i < last
            invariant
                last <= len,
                len == self.instructions.len(),
                first == window_start(self.pc as int),
                last == window_end(self.pc as int, len as int),
                first <= last ==> first <= i <= last,
                first > last ==> i == last,
                ops == noted(field),
                mark == fault_mark(ops, self.heap@),
                first <= last ==> stack.len() == i - first,
                first > last ==> stack.len() == 0,
                forall|j: int|
                    0 <= j < stack.len() ==> (#[trigger] stack[j])@ == window_line(
                        self.code(),
                        self.state(),
                        first + j,
                    ) + if first + j == self.pc {
                        mark
                    } else {
                        Seq::empty()
                    },
            decreases last - i,
        {
            let mut line = String::new();
            push_decimal(&mut line, i as u64);
            push_str(&mut line, "\t | ");
            let assembled = self.instructions[i].assemble(&self.heap);
            push_str(&mut line, assembled.as_str());
            if i == self.pc {
                match &field {
                    Some(f) => {
                        push_str(&mut line, " <-- error occurred here, operand(s): ");
                        let ghost head = line@;
                        let mut k: usize = 0;
                        while k < f.len()
                            invariant
                                k <= f.len(),
                                line@ == head + operand_notes(
                                    stack_views(f@),
                                    k as nat,
                                    self.heap@,
                                ),
                            decreases f.len() - k,
                        {
                            self.push_note(&mut line, &f[k]);
                            k += 1;
                        }
                    },
                    None => {
                        push_str(&mut line, " <-- error occurred here");
                    },
                }
            }
            stack.push(line);
            i += 1;
        }
        let app_stack = self.stack.to_vec();
        let mut new_app_stack: Vec<String> = Vec::new();
        let mut n: usize = 0;
        while n < app_stack.len()
            invariant
                app_stack@ == self.stack@,
                n <= app_stack.len(),
                new_app_stack.len() == n,
                forall|j: int|
                    0 <= j < n ==> (#[trigger] new_app_stack[j])@ == stack_line(self.state(), j),
            decreases app_stack.len() - n,
        {
            let mut line = String::new();
            push_decimal(&mut line, n as u64);
            push_str(&mut line, "\t: ");
            let text = app_stack[n].to_text(&self.heap);
            push_str(&mut line, text.as_str());
            new_app_stack.push(line);
            n += 1;
        }
        let e = Error::new(kind, msg, stack, new_app_stack);
        proof {
            reveal(reports);
        }
        Err(e)
    }
}

impl Vm {
    /// The report of a fault in the state that the machine is in, as the
    /// failure of what was to be computed.
    pub fn fail<T>(&self, kind: ErrorKind, msg: String, field: Option<Vec<Field>>) -> (r: Result<
        T,
        Error,
    >)
        ensures
            r is Err,
            reports(
                self.code(),
                self.state(),
                r->Err_0,
                Fault { kind, message: msg@, notes: noted(field) },
            ),
    {
        match self.error(kind, msg, field) {
            Err(e) => Err(e),
            Ok(_) => {
                Err(Error::new(kind, String::new(), Vec::new(), Vec::new()))
            },
        }
    }

    /// The accumulator of an offset expression after `v` has been joined to
    /// it by `op`.
    fn join(op: RegisterOffsetOperandType, acc: Field, v: Field) -> (r: Option<Field>)
        ensures
            match combine(op, acc@, v@) {
                Some(x) => r is Some && r->Some_0@ == x,
                None => r is None,
            },
    {
        let arith_op = match op {
            RegisterOffsetOperandType::End => {
                return Some(v);
            },
            RegisterOffsetOperandType::Add => ArithOp::Add,
            RegisterOffsetOperandType::Sub => ArithOp::Sub,
            RegisterOffsetOperandType::Mul => ArithOp::Mul,
            RegisterOffsetOperandType::Div => ArithOp::Div,
            RegisterOffsetOperandType::Rem => ArithOp::Rem,
        };
        match compute(arith_op, &acc.0, &v.0) {
            Ok(t) => Some(Field(t)),
            Err(_) => None,
        }
    }

    /// The fault of a value that cannot serve as an offset.
    pub fn offset_fault<T>(&self, v: Field) -> (r: Result<T, Error>)
        ensures
            r is Err,
            reports(self.code(), self.state(), r->Err_0, bad_offset(v@, self.heap@, self.pc)),
    {
        let text = v.to_text(&self.heap);
        let head = quoted_text("Cannot use '", text.as_str(), "' as offset at ");
        self.fail(ErrorKind::TypeError, placed_text(head.as_str(), self.pc, "!"), one(v))
    }

    /// The fault of a pointer whose allocation is not live.
    pub fn freed_fault<T>(&self, address: usize) -> (r: Result<T, Error>)
        ensures
            r is Err,
            reports(self.code(), self.state(), r->Err_0, freed(self.pc, address)),
    {
        self.fail(
            ErrorKind::UseAfterFree,
            placed_text("Cannot use heap at ", self.pc, " because memory has already been freed!"),
            one(Field(Type::UInt(address))),
        )
    }

    /// The fault of an operand that names the register that is none.
    pub fn register_fault<T>(&self) -> (r: Result<T, Error>)
        ensures
            r is Err,
            reports(self.code(), self.state(), r->Err_0, no_register()),
    {
        self.fail(ErrorKind::TypeError, String::from_str("Register does not exist!"), None)
    }

    /// The value of an offset expression: its terms folded from the left.
    #[verifier::rlimit(50)]
    pub fn get_source(&self, source: &RegisterWithOffset) -> (r: Result<Field, Error>)
        ensures
            match offset_value(self.registers@, source.terms(), source.terms().len()) {
                Some(v) => r is Ok && r->Ok_0@ == v,
                None => r is Err && reports(
                    self.code(),
                    self.state(),
                    r->Err_0,
                    bad_offset(
                        source.terms()[failing_term(
                            self.registers@,
                            source.terms(),
                            source.terms().len(),
                        ) - 1].value,
                        self.heap@,
                        self.pc,
                    ),
                ),
            },
    {
        let ghost terms = source.terms();
        let mut field = Field(Type::Int(0));
        let mut previous = RegisterOffsetOperandType::End;
        let mut i: usize = 0;
        while i < source.offsets.len()
            invariant
                i <= source.offsets.len(),
                terms == source.terms(),
                terms.len() == source.offsets.len(),
                offset_value(self.registers@, terms, i as nat) == Some(field@),
                previous == if i == 0 {
                    RegisterOffsetOperandType::End
                } else {
                    terms[i - 1].operator
                },
            decreases source.offsets.len() - i,
        {
            let item = &source.offsets[i];
            let value = match &item.offset.0 {
                Type::Int(_) => Some(item.offset.underlying_data_clone()),
                Type::Register(rv) => {
                    if rv.ordinal() != 16 {
                        Some(self.registers.get(*rv).underlying_data_clone())
                    } else {
                        None
                    }
                },
                _ => None,
            };
            let joined = match value {
                Some(v) => Vm::join(previous, field, v),
                None => None,
            };
            match joined {
                Some(next) => {
                    field = next;
                },
                None => {
                    proof {
                        lemma_offset_fails(self.registers@, terms, i as nat, terms.len());
                    }
                    return self.offset_fault(item.offset.underlying_data_clone());
                },
            }
            previous = item.operand;
            i += 1;
        }
        Ok(field)
    }

    /// The byte offset that an offset expression gives.
    pub fn get_offset(&self, source: &RegisterWithOffset) -> (r: Result<usize, Error>)
        ensures
            match resolved_offset(self.state(), source.terms()) {
                Ok(k) => r == Ok::<usize, Error>(k),
                Err(f) => r is Err && reports(self.code(), self.state(), r->Err_0, f),
            },
    {
        match self.get_source(source) {
            Ok(field) => field.to_u(self),
            Err(e) => Err(e),
        }
    }

    /// The number of bytes that the pointer `p` can reach, if it points to
    /// a live allocation.
    pub fn reach(&self, p: &Allocation) -> (r: Option<usize>)
        ensures
            r is Some == self.heap@.is_live(p.ptr as int),
            r is Some ==> r->Some_0 == extent(*p, self.heap@) && p.ptr + r->Some_0
                <= self.heap@.bytes.len(),
    {
        match self.heap.size_of(p.ptr) {
            Some(recorded) => {
                if p.size <= recorded {
                    Some(p.size)
                } else {
                    Some(recorded)
                }
            },
            None => None,
        }
    }

    /// What a reference into a register reads.
    pub fn get_source_data(&self, source: &RegisterWithOffset) -> (r: Result<Field, Error>)
        ensures
            match read_at(self.state(), source.register, source.terms()) {
                Ok(v) => r is Ok && r->Ok_0@ == v,
                Err(f) => r is Err && reports(self.code(), self.state(), r->Err_0, f),
            },
    {
        proof {
            use_type_invariant(&self.heap);
        }
        let k = match self.get_offset(source) {
            Ok(k) => k,
            Err(e) => {
                return Err(e);
            },
        };
        if source.register.ordinal() == 16 {
            return self.register_fault();
        }
        let base = self.registers.get(source.register);
        match &base.0 {
            Type::Pointer(p) => {
                let n = match self.reach(p) {
                    Some(n) => n,
                    None => {
                        return self.freed_fault(p.ptr);
                    },
                };
                if k >= n {
                    return self.offset_fault(Field(Type::UInt(k)));
                }
                match self.heap.read(p.ptr + k) {
                    Some(b) => Ok(Field(Type::Byte(b))),
                    None => self.register_fault(),
                }
            },
            Type::String(s) => {
                let bytes = s.as_str().as_bytes();
                if k < bytes.len() && bytes[k] < 128 {
                    Ok(Field(Type::String(char_to_string(bytes[k] as char))))
                } else {
                    self.offset_fault(Field(Type::UInt(k)))
                }
            },
            _ => self.offset_fault(base.underlying_data_clone()),
        }
    }

    /// Writes `data` through a reference into a register.
    pub fn set_dest_data(&mut self, dest: &RegisterWithOffset, data: Field) -> (r: Result<
        (),
        Error,
    >)
        ensures
            final(self).code() == old(self).code(),
            match write_at(old(self).state(), dest.register, dest.terms(), data@) {
                Ok(t) => r is Ok && final(self).state() == t,
                Err(f) => r is Err && reports(old(self).code(), old(self).state(), r->Err_0, f)
                    && final(self).state() == old(self).state(),
            },
    {
        proof {
            use_type_invariant(&self.heap);
        }
        let k = match self.get_offset(dest) {
            Ok(k) => k,
            Err(e) => {
                return Err(e);
            },
        };
        if dest.register.ordinal() == 16 {
            return self.register_fault();
        }
        let base = self.registers.get(dest.register).underlying_data_clone();
        match &base.0 {
            Type::Pointer(p) => {
                let bytes = match data.to_b(self) {
                    Ok(b) => b,
                    Err(e) => {
                        return Err(e);
                    },
                };
                let n = match self.reach(p) {
                    Some(n) => n,
                    None => {
                        return self.freed_fault(p.ptr);
                    },
                };
                let count = if k >= n {
                    0
                } else if bytes.len() <= n - k {
                    bytes.len()
                } else {
                    n - k
                };
                if count > 0 {
                    let part = vstd::slice::slice_subrange(bytes.as_slice(), 0, count);
                    match self.heap.write(p.ptr + k, part) {
                        Ok(_) => {},
                        Err(_) => {
                        },
                    }
                } else {
                    assert(self.heap@.with_bytes(p.ptr + k, bytes@.subrange(0, 0)).bytes
                        =~= self.heap@.bytes);
                }
                Ok(())
            },
            Type::String(s) => {
                let new_string = data.to_text(&self.heap);
                match splice(s.as_str(), k, new_string.as_str()) {
                    Some(t) => {
                        self.registers.put(dest.register, Field(Type::String(t)));
                        Ok(())
                    },
                    None => self.offset_fault(Field(Type::UInt(k))),
                }
            },
            _ => self.offset_fault(base),
        }
    }
}

/// An offset expression whose first `n` terms have a value, and whose
/// first `n + 1` have none, has none, and its term at index `n` is the
/// first that cannot be taken up.
pub proof fn lemma_offset_fails(
    regs: crate::vm::register::RegistersView,
    terms: Seq<Term>,
    n: nat,
    m: nat,
)
    requires
        n < m <= terms.len(),
        offset_value(regs, terms, n) is Some,
        offset_value(regs, terms, n + 1) is None,
    ensures
        offset_value(regs, terms, m) is None,
        failing_term(regs, terms, m) == n + 1,
    decreases m,
{
    if n + 1 < m {
        lemma_offset_fails(regs, terms, n, (m - 1) as nat);
    }
}

} // verus!
