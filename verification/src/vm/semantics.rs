//! What one instruction does, as a function from the state of the machine
//! to the state after it.

use crate::text::spliced;
use crate::types::{Allocation, Term, Value};
use crate::types::arith::{arith, ArithOp, Computed};
use crate::types::order::{equal, greater, less};
use crate::vm::cast::{cast_value, CastType};
use crate::vm::fault::{
    assertion, bad_cast, bad_free, bad_offset, bad_operands, bad_size, empty_call_stack,
    empty_stack, freed, illegal, missing_operand, no_callee, no_label, no_memory, no_push,
    no_register, no_size, no_symbol, not_a_number, not_a_pointer, not_a_register, not_a_string,
    not_an_offset, Fault,
};
use crate::vm::field::{display, extent};
use crate::vm::heap::{block_len, HEAP_ALIGN, HeapView};
use crate::vm::instruction::InstructionView;
use crate::vm::opcode::OpCode;
use crate::vm::register::{Register, RegisterOffsetOperandType, RegistersView};
use vstd::prelude::*;
use vstd::utf8::encode_utf8;

verus! {

/// What changes while a program runs.
pub struct State {
    /// The index of the instruction that is carried out next.
    pub pc: usize,
    pub registers: RegistersView,
    /// The stack, bottom first.
    pub stack: Seq<Value>,
    /// The return addresses of the calls that have not returned, oldest
    /// first.
    pub call_stack: Seq<usize>,
    pub heap: HeapView,
}

/// What stays as it is while a program runs.
pub struct Code {
    pub instructions: Seq<InstructionView>,
    pub labels: Map<Seq<char>, usize>,
    pub data: Map<Seq<char>, Value>,
    /// The names of the built-ins in the order in which they were
    /// registered.
    pub builtins: Seq<Seq<char>>,
    /// Whether the reflection slots are kept up to date.
    pub reflection: bool,
}

/// A number that takes part in floating-point arithmetic.
#[derive(Copy, Clone, Debug, PartialEq, Eq, Structural)]
pub enum Number {
    Int(i64),
    UInt(usize),
    /// The bit pattern of a floating-point number.
    Float(u64),
}

/// Floating-point arithmetic that the host is asked to do: `dest` shall
/// get `lhs op rhs`.
#[derive(Copy, Clone, Debug, PartialEq, Eq, Structural)]
pub struct FloatRequest {
    pub op: ArithOp,
    pub dest: Register,
    pub lhs: Number,
    pub rhs: Number,
}

/// How a step ended.
pub enum Event {
    /// The instruction was carried out.
    Continue,
    /// The machine stopped.
    Halt,
    /// The instruction asks for a line of input.
    Input,
    /// The instruction asks for floating-point arithmetic.
    Float(FloatRequest),
    /// The instruction calls the built-in with this index.
    Builtin(int),
    /// The instruction failed.
    Fault(Fault),
}

/// A step: the state it leaves and how it ended.
pub struct Outcome {
    pub state: State,
    pub event: Event,
}

/// The `n` low bytes of `x`, lowest first.
pub open spec fn le_bytes(x: nat, n: nat) -> Seq<u8>
    decreases n,
{
    if n == 0 {
        Seq::empty()
    } else {
        seq![(x % 256) as u8] + le_bytes(x / 256, (n - 1) as nat)
    }
}

/// The natural number with the 64 bits of `i` in two's complement.
pub open spec fn unsigned_of(i: i64) -> nat {
    if i >= 0 {
        i as nat
    } else {
        (i + 0x1_0000_0000_0000_0000) as nat
    }
}

/// The bytes that a value is written as into the heap: numbers lowest byte
/// first, text as UTF-8. Other values have none.
pub open spec fn serialized(v: Value) -> Option<Seq<u8>> {
    match v {
        Value::Byte(b) => Some(seq![b]),
        Value::Short(s) => Some(le_bytes(s as nat, 2)),
        Value::Int(i) => Some(le_bytes(unsigned_of(i), 8)),
        Value::UInt(u) => Some(le_bytes(u as nat, (usize::BITS / 8) as nat)),
        Value::Float(f) => Some(le_bytes(f as nat, 8)),
        Value::Char(c) => Some(encode_utf8(seq![c])),
        Value::Str(s) => Some(encode_utf8(s)),
        _ => None,
    }
}

/// The index that a number stands for: an unsigned word itself, an integer
/// as the word with the same bits.
pub open spec fn as_index(v: Value) -> Option<usize> {
    match v {
        Value::UInt(u) => Some(u),
        Value::Int(i) => Some(i as usize),
        _ => None,
    }
}

/// The number that a value is, for floating-point arithmetic.
pub open spec fn as_number(v: Value) -> Number {
    match v {
        Value::UInt(u) => Number::UInt(u),
        Value::Float(f) => Number::Float(f),
        Value::Int(i) => Number::Int(i),
        _ => Number::Int(0),
    }
}

/// The value of a term of an offset expression: a literal integer, or what
/// the register holds that it names.
pub open spec fn term_value(regs: RegistersView, t: Term) -> Option<Value> {
    match t.value {
        Value::Int(_) => Some(t.value),
        Value::Register(r) => if r != Register::Unknown {
            Some(regs.get(r))
        } else {
            None
        },
        _ => None,
    }
}

/// The operator of an offset expression as an arithmetic operator.
pub open spec fn offset_operator(op: RegisterOffsetOperandType) -> Option<ArithOp> {
    match op {
        RegisterOffsetOperandType::End => None,
        RegisterOffsetOperandType::Add => Some(ArithOp::Add),
        RegisterOffsetOperandType::Sub => Some(ArithOp::Sub),
        RegisterOffsetOperandType::Mul => Some(ArithOp::Mul),
        RegisterOffsetOperandType::Div => Some(ArithOp::Div),
        RegisterOffsetOperandType::Rem => Some(ArithOp::Rem),
    }
}

/// The accumulator after `v` has been joined to it by `op`; without an
/// operator `v` takes its place.
pub open spec fn combine(op: RegisterOffsetOperandType, acc: Value, v: Value) -> Option<Value> {
    match offset_operator(op) {
        None => Some(v),
        Some(a) => match arith(a, acc, v) {
            Computed::Value(r) => Some(r),
            _ => None,
        },
    }
}

/// The value of the first `n` terms of an offset expression, folded from
/// the left: the accumulator starts as the integer zero, and each term is
/// joined to it by the operator of the term before, the first by none.
pub open spec fn offset_value(regs: RegistersView, terms: Seq<Term>, n: nat) -> Option<Value>
    decreases n,
{
    if n == 0 || n > terms.len() {
        Some(Value::Int(0))
    } else {
        match (offset_value(regs, terms, (n - 1) as nat), term_value(regs, terms[n - 1])) {
            (Some(acc), Some(v)) => combine(
                if n == 1 {
                    RegisterOffsetOperandType::End
                } else {
                    terms[n - 2].operator
                },
                acc,
                v,
            ),
            _ => None,
        }
    }
}

/// The byte offset that an offset expression gives.
pub open spec fn offset_index(regs: RegistersView, terms: Seq<Term>) -> Option<usize> {
    match offset_value(regs, terms, terms.len()) {
        Some(v) => as_index(v),
        None => None,
    }
}

/// The number of terms up to the first that leaves the fold from the left
/// without a value, among the first `n`; or `n` if there is none.
pub open spec fn failing_term(regs: RegistersView, terms: Seq<Term>, n: nat) -> nat
    decreases n,
{
    if n == 0 || n > terms.len() {
        n
    } else if offset_value(regs, terms, (n - 1) as nat) is None {
        failing_term(regs, terms, (n - 1) as nat)
    } else {
        n
    }
}

/// The byte offset that an offset expression gives in state `s`, or the
/// fault that it ends in: the first term that cannot be taken up, or the
/// value of the expression if that is no number.
pub open spec fn resolved_offset(s: State, terms: Seq<Term>) -> Result<usize, Fault> {
    match offset_value(s.registers, terms, terms.len()) {
        Some(v) => match as_index(v) {
            Some(k) => Ok(k),
            None => Err(not_a_number(v, s.heap)),
        },
        None => Err(
            bad_offset(
                terms[failing_term(s.registers, terms, terms.len()) - 1].value,
                s.heap,
                s.pc,
            ),
        ),
    }
}

/// What is read at offset `k` of the value `base`: of a pointer to a live
/// allocation the byte at the offset, of a string the character whose one
/// byte stands at the offset.
pub open spec fn read_value(s: State, base: Value, k: usize) -> Result<Value, Fault> {
    match base {
        Value::Pointer(p) => if !s.heap.is_live(p.ptr as int) {
            Err(freed(s.pc, p.ptr))
        } else if k >= extent(p, s.heap) {
            Err(bad_offset(Value::UInt(k), s.heap, s.pc))
        } else {
            Ok(Value::Byte(s.heap.bytes[p.ptr + k]))
        },
        Value::Str(text) => {
            let b = encode_utf8(text);
            if k < b.len() && b[k as int] < 128 {
                Ok(Value::Str(seq![b[k as int] as char]))
            } else {
                Err(bad_offset(Value::UInt(k), s.heap, s.pc))
            }
        },
        _ => Err(bad_offset(base, s.heap, s.pc)),
    }
}

/// What a reference into register `r` reads.
pub open spec fn read_at(s: State, r: Register, terms: Seq<Term>) -> Result<Value, Fault> {
    match resolved_offset(s, terms) {
        Err(f) => Err(f),
        Ok(k) => if r == Register::Unknown {
            Err(no_register())
        } else {
            read_value(s, s.registers.get(r), k)
        },
    }
}

/// How many of `len` bytes are written at offset `k` through pointer `p`:
/// as many as stay inside the allocation.
pub open spec fn written(p: Allocation, heap: HeapView, k: int, len: int) -> int {
    if k >= extent(p, heap) {
        0
    } else if len <= extent(p, heap) - k {
        len
    } else {
        extent(p, heap) - k
    }
}

/// The state after `data` has been written through a reference into
/// register `r`. Through a pointer to a live allocation the bytes of the
/// value are written at the offset, cut off at the end of the allocation;
/// in a string the displayed value replaces the text at the offset.
pub open spec fn write_at(s: State, r: Register, terms: Seq<Term>, data: Value) -> Result<
    State,
    Fault,
> {
    match resolved_offset(s, terms) {
        Err(f) => Err(f),
        Ok(k) => if r == Register::Unknown {
            Err(no_register())
        } else {
            match s.registers.get(r) {
                Value::Pointer(p) => match serialized(data) {
                    None => Err(not_a_pointer(data)),
                    Some(bytes) => if !s.heap.is_live(p.ptr as int) {
                        Err(freed(s.pc, p.ptr))
                    } else {
                        Ok(
                            State {
                                heap: s.heap.with_bytes(
                                    p.ptr + k,
                                    bytes.subrange(0, written(p, s.heap, k as int, bytes.len() as int)),
                                ),
                                ..s
                            },
                        )
                    },
                },
                Value::Str(text) => match spliced(text, k as int, display(data, s.heap)) {
                    None => Err(bad_offset(Value::UInt(k), s.heap, s.pc)),
                    Some(t) => Ok(State { registers: s.registers.put(r, Value::Str(t)), ..s }),
                },
                _ => Err(bad_offset(s.registers.get(r), s.heap, s.pc)),
            }
        },
    }
}

/// What a register reference stands for: what the register holds.
pub open spec fn deref(regs: RegistersView, v: Value) -> Result<Value, Fault> {
    match v {
        Value::Register(r) => if r == Register::Unknown {
            Err(no_register())
        } else {
            Ok(regs.get(r))
        },
        _ => Ok(v),
    }
}

/// The value that the source operand of a move stands for: a data constant
/// for its symbol, a character for a string of one byte that is no symbol,
/// what a register holds for a reference to it, what is read for a
/// reference into a register, and any other value itself.
pub open spec fn source_value(code: Code, s: State, v: Value) -> Result<Value, Fault> {
    match v {
        Value::Str(text) => if code.data.contains_key(text) {
            Ok(code.data[text])
        } else if encode_utf8(text).len() == 1 {
            Ok(Value::Char(text[0]))
        } else {
            Err(no_symbol(text, s.pc, v))
        },
        Value::Register(_) => deref(s.registers, v),
        Value::Offsets(r, terms) => read_at(s, r, terms),
        _ => Ok(v),
    }
}

/// The right operand of a comparison: a data constant for its symbol, what
/// a register holds for a reference to it, and any other value itself.
pub open spec fn compared_value(code: Code, s: State, v: Value) -> Result<Value, Fault> {
    match v {
        Value::Str(text) => if code.data.contains_key(text) {
            Ok(code.data[text])
        } else {
            Ok(v)
        },
        _ => deref(s.registers, v),
    }
}

/// The register that an operand names.
pub open spec fn as_register(v: Value) -> Result<Register, Fault> {
    match v {
        Value::Register(r) => Ok(r),
        _ => Err(not_a_register(v)),
    }
}

/// The register that an operand names, given that it must hold a value.
pub open spec fn as_slot(v: Value) -> Result<Register, Fault> {
    match v {
        Value::Register(r) => if r == Register::Unknown {
            Err(no_register())
        } else {
            Ok(r)
        },
        _ => Err(not_a_register(v)),
    }
}

/// The number that a value is, or the fault that it is none.
pub open spec fn number_of_value(s: State, v: Value) -> Result<usize, Fault> {
    match as_index(v) {
        Some(n) => Ok(n),
        None => Err(not_a_number(v, s.heap)),
    }
}

/// The number of bytes that the size operand of an allocation asks for.
pub open spec fn size_value(code: Code, s: State, v: Value) -> Result<usize, Fault> {
    match v {
        Value::Register(r) => if r == Register::Unknown {
            Err(no_register())
        } else {
            number_of_value(s, s.registers.get(r))
        },
        Value::UInt(_) | Value::Int(_) => number_of_value(s, v),
        Value::Str(text) => if code.data.contains_key(text) {
            number_of_value(s, code.data[text])
        } else {
            Err(no_size(text, v))
        },
        _ => Err(bad_size(v)),
    }
}

/// The state with the reflection slots brought up to date, where the
/// machine keeps them.
pub open spec fn refreshed(code: Code, s: State) -> State {
    if code.reflection {
        State {
            registers: RegistersView {
                stack_len: Value::UInt(s.stack.len() as usize),
                call_stack_len: Value::UInt(s.call_stack.len() as usize),
                pc: Value::UInt(s.pc),
                ..s.registers
            },
            ..s
        }
    } else {
        s
    }
}

/// A step that carried its instruction out and goes on behind it.
pub open spec fn advance(code: Code, s: State) -> Outcome {
    Outcome {
        state: refreshed(code, State { pc: (s.pc + 1) as usize, ..s }),
        event: Event::Continue,
    }
}

/// A step that carried its instruction out and goes on at `target`.
pub open spec fn transfer(code: Code, s: State, target: usize) -> Outcome {
    Outcome { state: refreshed(code, State { pc: target, ..s }), event: Event::Continue }
}

/// A step that failed and left the state `s`.
pub open spec fn fault(s: State, f: Fault) -> Outcome {
    Outcome { state: s, event: Event::Fault(f) }
}

/// The operand that is taken `k`-th, counting from zero: operands are
/// taken from the right.
pub open spec fn operand(ops: Seq<Value>, k: int) -> Value {
    ops[ops.len() - 1 - k]
}

/// The storing of the value `v` into what the operand `target` names: a
/// register, or the place that a reference into a register reads.
pub open spec fn moved(code: Code, s: State, target: Value, v: Value) -> Outcome {
    match target {
        Value::Register(r) => advance(code, State { registers: s.registers.store(r, v), ..s }),
        Value::Offsets(r, terms) => match write_at(s, r, terms, v) {
            Ok(t) => advance(code, t),
            Err(e) => fault(s, e),
        },
        _ => fault(s, not_an_offset(target)),
    }
}

/// A move: the source operand is taken first, then the destination. A
/// destination that is neither a register nor a reference into one fails
/// before the source is looked at.
pub open spec fn step_move(code: Code, s: State, ops: Seq<Value>) -> Outcome {
    if ops.len() < 2 {
        fault(s, missing_operand())
    } else if !(operand(ops, 1) is Register) && !(operand(ops, 1) is Offsets) {
        fault(s, not_an_offset(operand(ops, 1)))
    } else {
        match source_value(code, s, operand(ops, 0)) {
            Ok(v) => moved(code, s, operand(ops, 1), v),
            Err(e) => fault(s, e),
        }
    }
}

/// A push of what a register holds or of a data constant.
pub open spec fn step_push(code: Code, s: State, ops: Seq<Value>) -> Outcome {
    if ops.len() < 1 {
        fault(s, missing_operand())
    } else {
        let pushed = match operand(ops, 0) {
            Value::Register(r) => if r == Register::Unknown {
                None
            } else {
                Some(s.registers.get(r))
            },
            Value::Str(text) => if code.data.contains_key(text) {
                Some(code.data[text])
            } else {
                None
            },
            _ => None,
        };
        match pushed {
            Some(v) => advance(code, State { stack: s.stack.push(v), ..s }),
            None => fault(s, no_push(s.pc, operand(ops, 0))),
        }
    }
}

/// A pop of the top of the stack into a register.
pub open spec fn step_pop(code: Code, s: State, ops: Seq<Value>) -> Outcome {
    if ops.len() < 1 {
        fault(s, missing_operand())
    } else {
        match as_register(operand(ops, 0)) {
            Err(e) => fault(s, e),
            Ok(r) => if s.stack.len() == 0 {
                fault(s, empty_stack())
            } else {
                advance(
                    code,
                    State {
                        registers: s.registers.store(r, s.stack.last()),
                        stack: s.stack.drop_last(),
                        ..s
                    },
                )
            },
        }
    }
}

/// Arithmetic on a register: the right operand is taken first, then the
/// register. Floating-point arithmetic is left to the host.
pub open spec fn step_arith(code: Code, s: State, ops: Seq<Value>, op: ArithOp) -> Outcome {
    if ops.len() < 2 {
        fault(s, missing_operand())
    } else {
        match as_slot(operand(ops, 1)) {
            Err(e) => fault(s, e),
            Ok(r) => match deref(s.registers, operand(ops, 0)) {
                Err(e) => fault(s, e),
                Ok(rhs) => match arith(op, s.registers.get(r), rhs) {
                    Computed::Value(v) => advance(
                        code,
                        State { registers: s.registers.store(r, v), ..s },
                    ),
                    Computed::Deferred => Outcome {
                        state: s,
                        event: Event::Float(
                            FloatRequest {
                                op,
                                dest: r,
                                lhs: as_number(s.registers.get(r)),
                                rhs: as_number(rhs),
                            },
                        ),
                    },
                    Computed::Undefined => fault(s, bad_operands(s.registers.get(r), rhs)),
                },
            },
        }
    }
}

/// The register file with the flags that a comparison of `a` with `b`
/// gives: all cleared, then each set that holds.
pub open spec fn with_flags(regs: RegistersView, a: Value, b: Value) -> RegistersView {
    RegistersView {
        equals_flag: equal(a, b),
        less_than_flag: less(a, b),
        greater_than_flag: greater(a, b),
        ..regs
    }
}

/// The state after the comparison that `test` and `assert` make, and
/// whether the operands are equal.
pub open spec fn compared(code: Code, s: State, ops: Seq<Value>) -> Result<State, Fault> {
    if ops.len() < 2 {
        Err(missing_operand())
    } else {
        match as_slot(operand(ops, 1)) {
            Err(e) => Err(e),
            Ok(r) => match compared_value(code, s, operand(ops, 0)) {
                Err(e) => Err(e),
                Ok(rhs) => Ok(
                    State { registers: with_flags(s.registers, s.registers.get(r), rhs), ..s },
                ),
            },
        }
    }
}

/// A comparison that sets the flags.
pub open spec fn step_test(code: Code, s: State, ops: Seq<Value>) -> Outcome {
    match compared(code, s, ops) {
        Ok(t) => advance(code, t),
        Err(e) => fault(s, e),
    }
}

/// A comparison that fails unless the operands are equal, and clears the
/// flags if they are.
pub open spec fn step_assert(code: Code, s: State, ops: Seq<Value>) -> Outcome {
    match compared(code, s, ops) {
        Ok(t) => if t.registers.equals_flag {
            advance(code, State { registers: t.registers.without_flags(), ..t })
        } else {
            fault(t, assertion(t.pc))
        },
        Err(e) => fault(s, e),
    }
}

/// A jump to the label that the operand displays as.
pub open spec fn step_jump(code: Code, s: State, ops: Seq<Value>) -> Outcome {
    if ops.len() < 1 {
        fault(s, missing_operand())
    } else {
        let label = display(operand(ops, 0), s.heap);
        if code.labels.contains_key(label) {
            transfer(code, s, code.labels[label])
        } else {
            fault(s, no_label(label))
        }
    }
}

/// A jump that is taken if `taken`; the operand is looked at only then.
pub open spec fn step_branch(code: Code, s: State, ops: Seq<Value>, taken: bool) -> Outcome {
    if taken {
        step_jump(code, s, ops)
    } else {
        advance(code, s)
    }
}

/// Whether the built-in with index `i` is the first of the name `name`.
pub open spec fn is_builtin(code: Code, i: int, name: Seq<char>) -> bool {
    &&& 0 <= i < code.builtins.len()
    &&& code.builtins[i] == name
    &&& forall|j: int| 0 <= j < i ==> code.builtins[j] != name
}

/// Whether a built-in has the name `name`.
pub open spec fn has_builtin(code: Code, name: Seq<char>) -> bool {
    exists|i: int| 0 <= i < code.builtins.len() && code.builtins[i] == name
}

/// The index of the first built-in of the name `name`.
pub open spec fn builtin_index(code: Code, name: Seq<char>) -> int {
    choose|i: int| is_builtin(code, i, name)
}

/// A call: of a label, which is preferred, or of a built-in.
pub open spec fn step_call(code: Code, s: State, ops: Seq<Value>) -> Outcome {
    if ops.len() < 1 {
        fault(s, missing_operand())
    } else {
        let name = display(operand(ops, 0), s.heap);
        if code.labels.contains_key(name) {
            transfer(
                code,
                State { call_stack: s.call_stack.push((s.pc + 1) as usize), ..s },
                code.labels[name],
            )
        } else if has_builtin(code, name) {
            Outcome { state: s, event: Event::Builtin(builtin_index(code, name)) }
        } else {
            fault(s, no_callee(name, s.pc, operand(ops, 0)))
        }
    }
}

/// A return to the address on top of the call stack.
pub open spec fn step_ret(code: Code, s: State) -> Outcome {
    if s.call_stack.len() == 0 {
        fault(s, empty_call_stack())
    } else {
        transfer(code, State { call_stack: s.call_stack.drop_last(), ..s }, s.call_stack.last())
    }
}

/// A duplication of the top of the stack.
pub open spec fn step_dup(code: Code, s: State) -> Outcome {
    if s.stack.len() == 0 {
        fault(s, empty_stack())
    } else {
        advance(code, State { stack: s.stack.push(s.stack.last()), ..s })
    }
}

/// Whether the free block at index `k` is the one that an allocation takes.
pub open spec fn takes_block(heap: HeapView, k: int, size: usize) -> bool {
    heap.first_fit(k, block_len(size as int))
}

/// An allocation: the size operand is taken first, then the register that
/// gets the pointer.
pub open spec fn step_alloc(code: Code, s: State, ops: Seq<Value>) -> Outcome {
    if ops.len() < 1 {
        fault(s, missing_operand())
    } else {
        match size_value(code, s, operand(ops, 0)) {
            Err(e) => fault(s, e),
            Ok(size) => if ops.len() < 2 {
                fault(s, missing_operand())
            } else {
                match as_register(operand(ops, 1)) {
                    Err(e) => fault(s, e),
                    Ok(r) => if exists|k: int| takes_block(s.heap, k, size) {
                        let k = choose|k: int| takes_block(s.heap, k, size);
                        let p = Allocation { ptr: s.heap.blocks[k].addr, size, align: HEAP_ALIGN };
                        advance(
                            code,
                            State {
                                registers: s.registers.store(r, Value::Pointer(p)),
                                heap: s.heap.with_allocation(k, size),
                                ..s
                            },
                        )
                    } else {
                        fault(s, no_memory(s.pc, size))
                    },
                }
            },
        }
    }
}

/// The freeing of the allocation that a register points to.
pub open spec fn step_free(code: Code, s: State, ops: Seq<Value>) -> Outcome {
    if ops.len() < 1 {
        fault(s, missing_operand())
    } else {
        match as_slot(operand(ops, 0)) {
            Err(e) => fault(s, e),
            Ok(r) => match s.registers.get(r) {
                Value::Pointer(p) => if p.ptr >= s.heap.bytes.len() {
                    fault(s, bad_free(s.pc, p.ptr))
                } else if !s.heap.is_live(p.ptr as int) {
                    fault(s, freed(s.pc, p.ptr))
                } else if s.heap.size_at(p.ptr as int) != p.size {
                    fault(s, bad_free(s.pc, p.ptr))
                } else {
                    advance(
                        code,
                        State {
                            heap: s.heap.with_release(s.heap.index_of(p.ptr as int)),
                            ..s
                        },
                    )
                },
                _ => fault(s, not_a_pointer(s.registers.get(r))),
            },
        }
    }
}

/// A conversion of what register `r` holds.
pub open spec fn cast_register(code: Code, s: State, r: Register, kind: CastType) -> Outcome {
    if r == Register::Unknown {
        fault(s, no_register())
    } else {
        match cast_value(s.registers.get(r), kind) {
            Some(v) => advance(code, State { registers: s.registers.store(r, v), ..s }),
            None => fault(s, bad_cast(s.registers.get(r), s.heap, kind)),
        }
    }
}

/// A conversion of the byte that a reference into register `r` reads: the
/// converted value is written where the byte was read.
pub open spec fn cast_indexed(
    code: Code,
    s: State,
    r: Register,
    terms: Seq<Term>,
    kind: CastType,
) -> Outcome {
    match read_at(s, r, terms) {
        Err(e) => fault(s, e),
        Ok(b) => match cast_value(b, kind) {
            None => fault(s, bad_cast(b, s.heap, kind)),
            Some(v) => match write_at(s, r, terms, v) {
                Ok(t) => advance(code, t),
                Err(e) => fault(s, e),
            },
        },
    }
}

/// A conversion of what the operand `target` names: what a register
/// holds, or the byte that a reference into a register reads.
pub open spec fn cast_target(code: Code, s: State, target: Value, kind: CastType) -> Outcome {
    match target {
        Value::Register(r) => cast_register(code, s, r, kind),
        Value::Offsets(r, terms) => cast_indexed(code, s, r, terms, kind),
        _ => fault(s, not_a_register(target)),
    }
}

/// A conversion of what a register holds, or of the byte that a reference
/// into a register reads; the name of the kind is taken first.
pub open spec fn step_cast(code: Code, s: State, ops: Seq<Value>) -> Outcome {
    if ops.len() < 1 {
        fault(s, missing_operand())
    } else {
        match operand(ops, 0) {
            Value::Str(name) => if ops.len() < 2 {
                fault(s, missing_operand())
            } else {
                cast_target(code, s, operand(ops, 1), CastType::of_name(name))
            },
            _ => fault(s, not_a_string(operand(ops, 0))),
        }
    }
}

/// Whether the machine has run off the end of its program.
pub open spec fn at_end(code: Code, s: State) -> bool {
    s.pc >= code.instructions.len()
}

/// What the instruction at the program counter does: the state that it
/// leaves, and how it ended. A step that fails leaves the state as it was
/// when it failed.
pub open spec fn step(code: Code, s: State) -> Outcome
    recommends
        !at_end(code, s),
{
    let ops = code.instructions[s.pc as int].operands;
    match code.instructions[s.pc as int].opcode {
        OpCode::Move => step_move(code, s, ops),
        OpCode::Push => step_push(code, s, ops),
        OpCode::Pop => step_pop(code, s, ops),
        OpCode::Add => step_arith(code, s, ops, ArithOp::Add),
        OpCode::Mul => step_arith(code, s, ops, ArithOp::Mul),
        OpCode::Sub => step_arith(code, s, ops, ArithOp::Sub),
        OpCode::Div => step_arith(code, s, ops, ArithOp::Div),
        OpCode::Mod => step_arith(code, s, ops, ArithOp::Rem),
        OpCode::Xor => step_arith(code, s, ops, ArithOp::Xor),
        OpCode::Input => Outcome { state: s, event: Event::Input },
        OpCode::Call => step_call(code, s, ops),
        OpCode::Ret => step_ret(code, s),
        OpCode::Test => step_test(code, s, ops),
        OpCode::Assert => step_assert(code, s, ops),
        OpCode::Jmp => step_jump(code, s, ops),
        OpCode::Je => step_branch(code, s, ops, s.registers.equals_flag),
        OpCode::Jne => step_branch(code, s, ops, !s.registers.equals_flag),
        OpCode::Jle => step_branch(
            code,
            s,
            ops,
            s.registers.equals_flag || s.registers.less_than_flag,
        ),
        OpCode::Jge => step_branch(
            code,
            s,
            ops,
            s.registers.equals_flag || s.registers.greater_than_flag,
        ),
        OpCode::Jl => step_branch(code, s, ops, s.registers.less_than_flag),
        OpCode::Jg => step_branch(code, s, ops, s.registers.greater_than_flag),
        OpCode::Nop => advance(code, s),
        OpCode::Hlt => Outcome { state: refreshed(code, s), event: Event::Halt },
        OpCode::Dup => step_dup(code, s),
        OpCode::Igl => fault(s, illegal(s.pc)),
        OpCode::Alloc => step_alloc(code, s, ops),
        OpCode::Free => step_free(code, s, ops),
        OpCode::Cast => step_cast(code, s, ops),
    }
}

/// Whether the machine goes from state `s` to state `t` in one step.
pub open spec fn follows(code: Code, s: State, t: State) -> bool {
    !at_end(code, s) && step(code, s).event is Continue && t == step(code, s).state
}

/// Whether the state at index `i + 1` follows the one at index `i`.
pub open spec fn linked(code: Code, trace: Seq<State>, i: int) -> bool {
    follows(code, trace[i], trace[i + 1])
}

/// Whether the states are those that the machine goes through, one step
/// after the other.
pub open spec fn is_run(code: Code, trace: Seq<State>) -> bool {
    trace.len() > 0 && forall|i: int| 0 <= i < trace.len() - 1 ==> #[trigger] linked(code, trace, i)
}

/// Whether a run of at most `max` steps from state `start` can end in
/// state `post` with the result that `stopped` describes. The machine goes
/// through the states of a run; at the last of them the program has ended,
/// or the budget is used up, or the step that is due does anything but
/// carry an instruction out and go on.
pub open spec fn is_run_from(code: Code, trace: Seq<State>, start: State, max: nat) -> bool {
    &&& is_run(code, trace)
    &&& trace[0] == start
    &&& trace.len() <= max + 1
}

} // verus!
