//! Laws of the machine: what holds of every program and every state.

use crate::types::{Allocation, Term, Value};

use crate::types::arith::{arith, same_kind, ArithOp};

use crate::types::order::{
    bytes_order, equal, greater, is_ordered_number, lemma_trichotomy, less, order, Order,
};

use crate::vm::cast::{cast_value, CastType};

use crate::vm::error::ErrorKind;

use crate::vm::fault::Fault;

use crate::vm::field::{display, extent};

use crate::vm::heap::{
    lemma_allocation_live, lemma_allocation_wf, lemma_release_live, lemma_release_wf, HEAP_ALIGN,
};

use crate::vm::instruction::InstructionView;

use crate::vm::opcode::OpCode;

use crate::vm::register::Register;

use crate::vm::semantics::{
    advance, as_register, as_slot, at_end, compared, deref, offset_index, operand, read_at,
    serialized, size_value, source_value, step, step_alloc, step_arith, step_assert, step_branch,
    step_call, step_cast, step_dup, step_free, step_jump, step_move, step_pop, step_push, step_ret,
    step_test, takes_block, transfer, write_at, Code, Outcome, State,
};
use vstd::prelude::*;


verus! {

/// The instruction at the program counter.
pub open spec fn current(code: Code, s: State) -> InstructionView {
    code.instructions[s.pc as int]
}

/// Whether the register file has its sixteen slots.
pub open spec fn has_slots(s: State) -> bool {
    s.registers.slots.len() == 16
}

/// A byte string has the order `Equal` to itself.
pub proof fn lemma_bytes_equal_themselves(b: Seq<u8>, i: int)
    requires
        0 <= i,
    ensures
        bytes_order(b, b, i) == Order::Equal,
    decreases b.len() - i,
{
    if i < b.len() {
        lemma_bytes_equal_themselves(b, i + 1);
    }
}

/// Whether a value is of a kind that has an order, and is no NaN: every
/// kind but references into registers and objects.
pub open spec fn is_plain(v: Value) -> bool {
    match v {
        Value::Float(_) => is_ordered_number(v),
        Value::Offsets(_, _) | Value::Object(_) => false,
        _ => true,
    }
}

/// A plain value is equal to itself.
pub proof fn lemma_equal_to_itself(v: Value)
    requires
        is_plain(v),
    ensures
        equal(v, v),
{
    match v {
        Value::Str(s) => {
            lemma_bytes_equal_themselves(vstd::utf8::encode_utf8(s), 0);
        },
        _ => {},
    }
}

/// Move identity: after `mov dst, src` with two registers, `dst` holds
/// what `src` held before the instruction. Where `src` held a reference to
/// a register, `dst` holds what that register held.
pub proof fn lemma_move_identity(code: Code, s: State, dst: Register, src: Register)
    requires
        !at_end(code, s),
        has_slots(s),
        current(code, s).opcode == OpCode::Move,
        current(code, s).operands == seq![Value::Register(dst), Value::Register(src)],
        dst != Register::Unknown,
        src != Register::Unknown,
    ensures
        step(code, s).event is Continue,
        step(code, s).state.registers.get(dst) == s.registers.resolve(s.registers.get(src)),
        !(s.registers.get(src) is Register) ==> step(code, s).state.registers.get(dst)
            == s.registers.get(src),
        !(s.registers.get(src) is Register) && is_plain(s.registers.get(src)) ==> equal(
            step(code, s).state.registers.get(dst),
            s.registers.get(src),
        ),
{
    if !(s.registers.get(src) is Register) && is_plain(s.registers.get(src)) {
        lemma_equal_to_itself(s.registers.get(src));
    }
}

/// Move identity for a source that is a reference into a register: after
/// `mov dst, src[..]`, `dst` holds what the reference read before the
/// instruction.
pub proof fn lemma_move_identity_indexed(
    code: Code,
    s: State,
    dst: Register,
    src: Register,
    terms: Seq<Term>,
)
    requires
        !at_end(code, s),
        has_slots(s),
        current(code, s).opcode == OpCode::Move,
        current(code, s).operands == seq![Value::Register(dst), Value::Offsets(src, terms)],
        dst != Register::Unknown,
        read_at(s, src, terms) is Ok,
    ensures
        step(code, s).event is Continue,
        step(code, s).state.registers.get(dst) == read_at(s, src, terms)->Ok_0,
{
    let ops = current(code, s).operands;
    assert(operand(ops, 0) == Value::Offsets(src, terms));
    assert(operand(ops, 1) == Value::Register(dst));
    assert(step(code, s) == step_move(code, s, ops));
    let v = read_at(s, src, terms)->Ok_0;
    assert(source_value(code, s, operand(ops, 0)) == Ok::<Value, Fault>(v));
    assert(!(v is Register));
    let t = State { registers: s.registers.store(dst, v), ..s };
    assert(step(code, s) == advance(code, t));
}

/// Comparison law: after `test a, b` with two registers the flags say how
/// what `a` holds stands to what `b` holds. At most one flag is set;
/// exactly one is set if the two are ordered numbers of one kind, and none
/// if they have no order.
pub proof fn lemma_test_flags(code: Code, s: State, a: Register, b: Register)
    requires
        !at_end(code, s),
        current(code, s).opcode == OpCode::Test,
        current(code, s).operands == seq![Value::Register(a), Value::Register(b)],
        a != Register::Unknown,
        b != Register::Unknown,
    ensures
        step(code, s).event is Continue,
        ({
            let x = s.registers.get(a);
            let y = s.registers.get(b);
            let flags = step(code, s).state.registers;
            &&& flags.equals_flag == equal(x, y)
            &&& flags.less_than_flag == less(x, y)
            &&& flags.greater_than_flag == greater(x, y)
            &&& !(flags.equals_flag && flags.less_than_flag)
            &&& !(flags.equals_flag && flags.greater_than_flag)
            &&& !(flags.less_than_flag && flags.greater_than_flag)
            &&& (is_ordered_number(x) && is_ordered_number(y) && same_kind(x, y) ==> (
            flags.equals_flag || flags.less_than_flag || flags.greater_than_flag))
            &&& (order(x, y) is None ==> !flags.equals_flag && !flags.less_than_flag
                && !flags.greater_than_flag)
        }),
{
    lemma_trichotomy(s.registers.get(a), s.registers.get(b));
}

/// Call and return: a call of a label puts the address behind the call on
/// the call stack, and a return that finds the call stack as the call left
/// it goes on behind the call and leaves the call stack as it was before
/// the call.
pub proof fn lemma_call_ret(code: Code, s: State, label: Seq<char>, t: State)
    requires
        !at_end(code, s),
        code.instructions.len() <= usize::MAX,
        current(code, s).opcode == OpCode::Call,
        current(code, s).operands == seq![Value::Str(label)],
        code.labels.contains_key(label),
        !at_end(code, t),
        current(code, t).opcode == OpCode::Ret,
        t.call_stack == step(code, s).state.call_stack,
    ensures
        step(code, s).event is Continue,
        step(code, s).state.pc == code.labels[label],
        step(code, s).state.call_stack == s.call_stack.push((s.pc + 1) as usize),
        step(code, t).event is Continue,
        step(code, t).state.pc == s.pc + 1,
        step(code, t).state.call_stack == s.call_stack,
{
    assert(s.call_stack.push((s.pc + 1) as usize).drop_last() =~= s.call_stack);
}

/// An allocation that succeeds leaves in its register a pointer to a live
/// allocation of the size asked for, at an address that was not live
/// before.
#[verifier::rlimit(50)]
pub proof fn lemma_alloc_live(code: Code, s: State, dst: Register, size: usize)
    requires
        !at_end(code, s),
        has_slots(s),
        s.heap.wf(),
        current(code, s).opcode == OpCode::Alloc,
        current(code, s).operands == seq![Value::Register(dst), Value::UInt(size)],
        dst != Register::Unknown,
        step(code, s).event is Continue,
    ensures
        step(code, s).state.heap.wf(),
        step(code, s).state.registers.get(dst) is Pointer,
        ({
            let p = step(code, s).state.registers.get(dst)->Pointer_0;
            &&& p.size == size
            &&& !s.heap.is_live(p.ptr as int)
            &&& step(code, s).state.heap.is_live(p.ptr as int)
            &&& step(code, s).state.heap.size_at(p.ptr as int) == size
        }),
{
    let ops = current(code, s).operands;
    assert(operand(ops, 0) == Value::UInt(size));
    assert(operand(ops, 1) == Value::Register(dst));
    assert(step(code, s) == step_alloc(code, s, ops));
    assert(size_value(code, s, operand(ops, 0)) == Ok::<usize, Fault>(size));
    let k = choose|k: int| takes_block(s.heap, k, size);
    assert(takes_block(s.heap, k, size));
    lemma_allocation_wf(s.heap, k, size);
    lemma_allocation_live(s.heap, k, size);
    let p = Allocation { ptr: s.heap.blocks[k].addr, size, align: HEAP_ALIGN };
    let t = State {
        registers: s.registers.store(dst, Value::Pointer(p)),
        heap: s.heap.with_allocation(k, size),
        ..s
    };
    assert(step(code, s) == advance(code, t));
    assert(t.registers.get(dst) == Value::Pointer(p));
}

/// Allocate and free: freeing a live allocation through the pointer that
/// the allocation gave leaves its address not live, and a second free
/// through the same pointer is a use after free.
pub proof fn lemma_free_once(code: Code, s: State, r: Register, t: State)
    requires
        !at_end(code, s),
        s.heap.wf(),
        current(code, s).opcode == OpCode::Free,
        current(code, s).operands == seq![Value::Register(r)],
        r != Register::Unknown,
        s.registers.get(r) is Pointer,
        s.heap.is_live(s.registers.get(r)->Pointer_0.ptr as int),
        s.heap.size_at(s.registers.get(r)->Pointer_0.ptr as int) == s.registers.get(
            r,
        )->Pointer_0.size,
        !at_end(code, t),
        current(code, t).opcode == OpCode::Free,
        current(code, t).operands == seq![Value::Register(r)],
        t.registers.get(r) == s.registers.get(r),
        t.heap == step(code, s).state.heap,
    ensures
        step(code, s).event is Continue,
        step(code, s).state.heap.wf(),
        !step(code, s).state.heap.is_live(s.registers.get(r)->Pointer_0.ptr as int),
        step(code, t).event is Fault,
        step(code, t).event->Fault_0.kind == ErrorKind::UseAfterFree,
        step(code, t).state == t,
{
    let p = s.registers.get(r)->Pointer_0;
    let k = s.heap.index_of(p.ptr as int);
    assert(s.heap.live_at(k, p.ptr as int));
    assert(s.heap.block_ok(k));
    lemma_release_wf(s.heap, k);
    lemma_release_live(s.heap, k);
}

/// Allocate, free, free: where an allocation is followed by two frees of
/// its register, the allocation succeeds and nothing else is changed in
/// between, the first free leaves the address not live and the second is a
/// use after free.
#[verifier::rlimit(50)]
pub proof fn lemma_alloc_free_free(code: Code, s: State, r: Register, size: usize)
    requires
        s.pc + 2 < code.instructions.len() <= usize::MAX,
        has_slots(s),
        s.heap.wf(),
        r != Register::Unknown,
        current(code, s).opcode == OpCode::Alloc,
        current(code, s).operands == seq![Value::Register(r), Value::UInt(size)],
        code.instructions[s.pc + 1].opcode == OpCode::Free,
        code.instructions[s.pc + 1].operands == seq![Value::Register(r)],
        code.instructions[s.pc + 2].opcode == OpCode::Free,
        code.instructions[s.pc + 2].operands == seq![Value::Register(r)],
        step(code, s).event is Continue,
    ensures
        ({
            let allocated = step(code, s).state;
            let p = allocated.registers.get(r)->Pointer_0;
            let freed = step(code, allocated);
            let again = step(code, freed.state);
            &&& allocated.heap.is_live(p.ptr as int)
            &&& freed.event is Continue
            &&& !freed.state.heap.is_live(p.ptr as int)
            &&& again.event is Fault
            &&& again.event->Fault_0.kind == ErrorKind::UseAfterFree
            &&& !again.state.heap.is_live(p.ptr as int)
        }),
{
    lemma_alloc_live(code, s, r, size);
    let allocated = step(code, s).state;
    assert(allocated.pc == s.pc + 1);
    let p = allocated.registers.get(r)->Pointer_0;
    let k = allocated.heap.index_of(p.ptr as int);
    assert(allocated.heap.live_at(k, p.ptr as int));
    assert(allocated.heap.block_ok(k));
    let freed = step(code, allocated).state;
    assert(freed.pc == s.pc + 2);
    assert(freed.registers.get(r) == allocated.registers.get(r));
    lemma_free_once(code, allocated, r, freed);
}

/// A write through a pointer leaves every byte of the arena as it was but
/// those from the offset on that the value covers, and none beyond the end
/// of the allocation.
pub proof fn lemma_write_keeps_other_bytes(
    s: State,
    r: Register,
    terms: Seq<Term>,
    data: Value,
    i: int,
)
    requires
        r != Register::Unknown,
        s.registers.get(r) is Pointer,
        write_at(s, r, terms, data) is Ok,
        0 <= i < s.heap.bytes.len(),
    ensures
        ({
            let p = s.registers.get(r)->Pointer_0;
            let k = offset_index(s.registers, terms)->Some_0 as int;
            let len = serialized(data)->Some_0.len() as int;
            let t = write_at(s, r, terms, data)->Ok_0;
            &&& t.heap.bytes.len() == s.heap.bytes.len()
            &&& t.heap.blocks == s.heap.blocks
            &&& t.registers == s.registers
            &&& (i < p.ptr + k || i >= p.ptr + k + len || i >= p.ptr + extent(p, s.heap)
                ==> t.heap.bytes[i] == s.heap.bytes[i])
            &&& (p.ptr + k <= i < p.ptr + k + len && i < p.ptr + extent(p, s.heap)
                ==> t.heap.bytes[i] == serialized(data)->Some_0[i - p.ptr - k])
        }),
{
}

/// Whether the reflection slots hold the depth of the stack, the depth of
/// the call stack and the program counter.
pub open spec fn is_fresh(t: State) -> bool {
    &&& t.registers.stack_len == Value::UInt(t.stack.len() as usize)
    &&& t.registers.call_stack_len == Value::UInt(t.call_stack.len() as usize)
    &&& t.registers.pc == Value::UInt(t.pc)
}

/// Whether two states have the same flags.
pub open spec fn same_flags(s: State, t: State) -> bool {
    &&& t.registers.equals_flag == s.registers.equals_flag
    &&& t.registers.less_than_flag == s.registers.less_than_flag
    &&& t.registers.greater_than_flag == s.registers.greater_than_flag
}

/// Whether every label names an instruction of the program or its end.
pub open spec fn labels_in_program(code: Code) -> bool {
    forall|l: Seq<char>|
        code.labels.contains_key(l) ==> #[trigger] code.labels[l] <= code.instructions.len()
}

/// Whether every return address on the call stack names an instruction of
/// the program or its end.
pub open spec fn returns_in_program(code: Code, s: State) -> bool {
    forall|i: int|
        0 <= i < s.call_stack.len() ==> #[trigger] s.call_stack[i] <= code.instructions.len()
}

/// Whether the program counter, every label and every return address
/// names an instruction of the program or its end.
pub open spec fn targets_in_program(code: Code, s: State) -> bool {
    &&& code.instructions.len() <= usize::MAX
    &&& s.pc <= code.instructions.len()
    &&& labels_in_program(code)
    &&& returns_in_program(code, s)
}

/// Whether a step from state `s` that left `out` was orderly: the
/// reflection slots are fresh where they are kept and the instruction was
/// carried out, the call stack is deeper by at most `grows`, and the
/// program counter and the return addresses stay in the program if they
/// and the labels were in it.
pub open spec fn orderly(code: Code, s: State, out: Outcome, grows: int) -> bool {
    &&& (code.reflection && (out.event is Continue || out.event is Halt) ==> is_fresh(out.state))
    &&& out.state.call_stack.len() <= s.call_stack.len() + grows
    &&& (!at_end(code, s) && targets_in_program(code, s) ==> targets_in_program(
        code,
        out.state,
    ))
}

/// Whether a state differs from another at most in the registers and the
/// heap, the flags and the reflection slots left alone.
pub open spec fn same_frame(s: State, t: State) -> bool {
    &&& t.pc == s.pc
    &&& t.stack == s.stack
    &&& t.call_stack == s.call_stack
    &&& same_flags(s, t)
    &&& t.registers.stack_len == s.registers.stack_len
    &&& t.registers.call_stack_len == s.registers.call_stack_len
    &&& t.registers.pc == s.registers.pc
}

/// A write through a reference into a register changes at most the
/// registers and the heap.
pub proof fn lemma_write_frame(s: State, r: Register, terms: Seq<Term>, data: Value)
    ensures
        write_at(s, r, terms, data) is Ok ==> same_frame(s, write_at(s, r, terms, data)->Ok_0),
{
}

/// Going on behind an instruction is orderly and keeps the flags.
pub proof fn lemma_advance(code: Code, s: State, t: State, grows: int)
    requires
        t.pc == s.pc,
        t.call_stack.len() <= s.call_stack.len() + grows,
        returns_in_program(code, s) ==> returns_in_program(code, t),
    ensures
        orderly(code, s, advance(code, t), grows),
        same_flags(t, advance(code, t).state),
{
    let u = advance(code, t).state;
    assert(u.call_stack == t.call_stack);
    if !at_end(code, s) && targets_in_program(code, s) {
        assert(returns_in_program(code, u));
    }
}

/// Going on at a target is orderly, where the target is in the program,
/// and keeps the flags.
pub proof fn lemma_transfer(code: Code, s: State, t: State, target: usize, grows: int)
    requires
        t.call_stack.len() <= s.call_stack.len() + grows,
        !at_end(code, s) && targets_in_program(code, s) ==> returns_in_program(code, t) && target
            <= code.instructions.len(),
    ensures
        orderly(code, s, transfer(code, t, target), grows),
        same_flags(t, transfer(code, t, target).state),
{
    let u = transfer(code, t, target).state;
    assert(u.call_stack == t.call_stack);
    if !at_end(code, s) && targets_in_program(code, s) {
        assert(returns_in_program(code, u));
    }
}

/// A move is orderly and keeps the flags.
pub proof fn lemma_move_orderly(code: Code, s: State, ops: Seq<Value>)
    ensures
        orderly(code, s, step_move(code, s, ops), 0),
        same_flags(s, step_move(code, s, ops).state),
{
    if ops.len() >= 2 {
        match source_value(code, s, operand(ops, 0)) {
            Ok(v) => match operand(ops, 1) {
                Value::Register(r) => {
                    let t = State { registers: s.registers.store(r, v), ..s };
                    lemma_advance(code, s, t, 0);
                },
                Value::Offsets(r, terms) => {
                    lemma_write_frame(s, r, terms, v);
                    match write_at(s, r, terms, v) {
                        Ok(t) => {
                            lemma_advance(code, s, t, 0);
                        },
                        Err(e) => {},
                    }
                },
                _ => {},
            },
            Err(e) => {},
        }
    }
}

/// A push is orderly and keeps the flags.
pub proof fn lemma_push_orderly(code: Code, s: State, ops: Seq<Value>)
    ensures
        orderly(code, s, step_push(code, s, ops), 0),
        same_flags(s, step_push(code, s, ops).state),
{
    let out = step_push(code, s, ops);
    if out.event is Continue {
        let t = State { pc: s.pc, ..out.state };
        let v = out.state.stack.last();
        lemma_advance(code, s, State { stack: s.stack.push(v), ..s }, 0);
    }
}

/// A pop is orderly and keeps the flags.
pub proof fn lemma_pop_orderly(code: Code, s: State, ops: Seq<Value>)
    ensures
        orderly(code, s, step_pop(code, s, ops), 0),
        same_flags(s, step_pop(code, s, ops).state),
{
    if ops.len() >= 1 && as_register(operand(ops, 0)) is Ok && s.stack.len() > 0 {
        let r = as_register(operand(ops, 0))->Ok_0;
        lemma_advance(
            code,
            s,
            State {
                registers: s.registers.store(r, s.stack.last()),
                stack: s.stack.drop_last(),
                ..s
            },
            0,
        );
    }
}

/// Arithmetic is orderly and keeps the flags.
pub proof fn lemma_arith_orderly(code: Code, s: State, ops: Seq<Value>, op: ArithOp)
    ensures
        orderly(code, s, step_arith(code, s, ops, op), 0),
        same_flags(s, step_arith(code, s, ops, op).state),
{
    let out = step_arith(code, s, ops, op);
    if out.event is Continue {
        let r = as_slot(operand(ops, 1))->Ok_0;
        let rhs = deref(s.registers, operand(ops, 0))->Ok_0;
        let v = arith(op, s.registers.get(r), rhs)->Value_0;
        lemma_advance(code, s, State { registers: s.registers.store(r, v), ..s }, 0);
    }
}

/// A comparison is orderly.
pub proof fn lemma_test_orderly(code: Code, s: State, ops: Seq<Value>)
    ensures
        orderly(code, s, step_test(code, s, ops), 0),
        orderly(code, s, step_assert(code, s, ops), 0),
{
    match compared(code, s, ops) {
        Ok(t) => {
            lemma_advance(code, s, t, 0);
            lemma_advance(code, s, State { registers: t.registers.without_flags(), ..t }, 0);
        },
        Err(e) => {},
    }
}

/// A jump is orderly and keeps the flags, and so is a jump on a condition.
pub proof fn lemma_jump_orderly(code: Code, s: State, ops: Seq<Value>, taken: bool)
    ensures
        orderly(code, s, step_jump(code, s, ops), 0),
        same_flags(s, step_jump(code, s, ops).state),
        orderly(code, s, step_branch(code, s, ops, taken), 0),
        same_flags(s, step_branch(code, s, ops, taken).state),
{
    lemma_advance(code, s, s, 0);
    if ops.len() >= 1 {
        let label = display(operand(ops, 0), s.heap);
        if code.labels.contains_key(label) {
            lemma_transfer(code, s, s, code.labels[label], 0);
        }
    }
}

/// A call is orderly, the call stack deeper by at most one, and keeps the
/// flags.
pub proof fn lemma_call_orderly(code: Code, s: State, ops: Seq<Value>)
    ensures
        orderly(code, s, step_call(code, s, ops), 1),
        same_flags(s, step_call(code, s, ops).state),
{
    if ops.len() >= 1 {
        let name = display(operand(ops, 0), s.heap);
        if code.labels.contains_key(name) {
            let t = State { call_stack: s.call_stack.push((s.pc + 1) as usize), ..s };
            if !at_end(code, s) && targets_in_program(code, s) {
                assert forall|i: int| 0 <= i < t.call_stack.len() implies #[trigger] t.call_stack[i]
                    <= code.instructions.len() by {
                    if i < s.call_stack.len() {
                        assert(t.call_stack[i] == s.call_stack[i]);
                    }
                }
            }
            lemma_transfer(code, s, t, code.labels[name], 1);
        }
    }
}

/// A return is orderly and keeps the flags.
pub proof fn lemma_ret_orderly(code: Code, s: State)
    ensures
        orderly(code, s, step_ret(code, s), 0),
        same_flags(s, step_ret(code, s).state),
{
    if s.call_stack.len() > 0 {
        let t = State { call_stack: s.call_stack.drop_last(), ..s };
        if !at_end(code, s) && targets_in_program(code, s) {
            assert(s.call_stack[s.call_stack.len() - 1] <= code.instructions.len());
            assert forall|i: int| 0 <= i < t.call_stack.len() implies #[trigger] t.call_stack[i]
                <= code.instructions.len() by {
                assert(t.call_stack[i] == s.call_stack[i]);
            }
        }
        lemma_transfer(code, s, t, s.call_stack.last(), 0);
    }
}

/// A duplication is orderly and keeps the flags.
pub proof fn lemma_dup_orderly(code: Code, s: State)
    ensures
        orderly(code, s, step_dup(code, s), 0),
        same_flags(s, step_dup(code, s).state),
{
    if s.stack.len() > 0 {
        lemma_advance(code, s, State { stack: s.stack.push(s.stack.last()), ..s }, 0);
    }
}

/// An allocation is orderly and keeps the flags.
pub proof fn lemma_alloc_orderly(code: Code, s: State, ops: Seq<Value>)
    ensures
        orderly(code, s, step_alloc(code, s, ops), 0),
        same_flags(s, step_alloc(code, s, ops).state),
{
    let out = step_alloc(code, s, ops);
    if out.event is Continue {
        let size = size_value(code, s, operand(ops, 0))->Ok_0;
        let r = as_register(operand(ops, 1))->Ok_0;
        let k = choose|k: int| takes_block(s.heap, k, size);
        let p = Allocation { ptr: s.heap.blocks[k].addr, size, align: HEAP_ALIGN };
        lemma_advance(
            code,
            s,
            State {
                registers: s.registers.store(r, Value::Pointer(p)),
                heap: s.heap.with_allocation(k, size),
                ..s
            },
            0,
        );
    }
}

/// A free is orderly and keeps the flags.
pub proof fn lemma_free_orderly(code: Code, s: State, ops: Seq<Value>)
    ensures
        orderly(code, s, step_free(code, s, ops), 0),
        same_flags(s, step_free(code, s, ops).state),
{
    let out = step_free(code, s, ops);
    if out.event is Continue {
        let r = as_slot(operand(ops, 0))->Ok_0;
        let p = s.registers.get(r)->Pointer_0;
        lemma_advance(
            code,
            s,
            State { heap: s.heap.with_release(s.heap.index_of(p.ptr as int)), ..s },
            0,
        );
    }
}

/// A conversion is orderly and keeps the flags.
pub proof fn lemma_cast_orderly(code: Code, s: State, ops: Seq<Value>)
    ensures
        orderly(code, s, step_cast(code, s, ops), 0),
        same_flags(s, step_cast(code, s, ops).state),
{
    let out = step_cast(code, s, ops);
    if out.event is Continue {
        let kind = CastType::of_name(operand(ops, 0)->Str_0);
        match operand(ops, 1) {
            Value::Register(r) => {
                let v = cast_value(s.registers.get(r), kind)->Some_0;
                lemma_advance(code, s, State { registers: s.registers.store(r, v), ..s }, 0);
            },
            Value::Offsets(r, terms) => {
                let b = read_at(s, r, terms)->Ok_0;
                let v = cast_value(b, kind)->Some_0;
                lemma_write_frame(s, r, terms, v);
                lemma_advance(code, s, write_at(s, r, terms, v)->Ok_0, 0);
            },
            _ => {},
        }
    }
}

/// Every step is orderly, the call stack deeper by at most one.
pub proof fn lemma_step_orderly(code: Code, s: State)
    ensures
        orderly(
            code,
            s,
            step(code, s),
            if current(code, s).opcode == OpCode::Call {
                1
            } else {
                0
            },
        ),
        current(code, s).opcode != OpCode::Test && current(code, s).opcode != OpCode::Assert
            ==> same_flags(s, step(code, s).state),
{
    let ops = current(code, s).operands;
    lemma_advance(code, s, s, 0);
    match current(code, s).opcode {
        OpCode::Move => lemma_move_orderly(code, s, ops),
        OpCode::Push => lemma_push_orderly(code, s, ops),
        OpCode::Pop => lemma_pop_orderly(code, s, ops),
        OpCode::Add => lemma_arith_orderly(code, s, ops, ArithOp::Add),
        OpCode::Mul => lemma_arith_orderly(code, s, ops, ArithOp::Mul),
        OpCode::Sub => lemma_arith_orderly(code, s, ops, ArithOp::Sub),
        OpCode::Div => lemma_arith_orderly(code, s, ops, ArithOp::Div),
        OpCode::Mod => lemma_arith_orderly(code, s, ops, ArithOp::Rem),
        OpCode::Xor => lemma_arith_orderly(code, s, ops, ArithOp::Xor),
        OpCode::Input => {},
        OpCode::Call => lemma_call_orderly(code, s, ops),
        OpCode::Ret => lemma_ret_orderly(code, s),
        OpCode::Test => lemma_test_orderly(code, s, ops),
        OpCode::Assert => lemma_test_orderly(code, s, ops),
        OpCode::Jmp => lemma_jump_orderly(code, s, ops, true),
        OpCode::Je => lemma_jump_orderly(code, s, ops, s.registers.equals_flag),
        OpCode::Jne => lemma_jump_orderly(code, s, ops, !s.registers.equals_flag),
        OpCode::Jle => lemma_jump_orderly(
            code,
            s,
            ops,
            s.registers.equals_flag || s.registers.less_than_flag,
        ),
        OpCode::Jge => lemma_jump_orderly(
            code,
            s,
            ops,
            s.registers.equals_flag || s.registers.greater_than_flag,
        ),
        OpCode::Jl => lemma_jump_orderly(code, s, ops, s.registers.less_than_flag),
        OpCode::Jg => lemma_jump_orderly(code, s, ops, s.registers.greater_than_flag),
        OpCode::Nop => {},
        OpCode::Hlt => {},
        OpCode::Dup => lemma_dup_orderly(code, s),
        OpCode::Igl => {},
        OpCode::Alloc => lemma_alloc_orderly(code, s, ops),
        OpCode::Free => lemma_free_orderly(code, s, ops),
        OpCode::Cast => lemma_cast_orderly(code, s, ops),
    }
}

/// Reflection freshness: where the machine keeps the reflection slots,
/// they hold after every step that was carried out the depth of the stack,
/// the depth of the call stack and the program counter as the step left
/// them.
pub proof fn lemma_reflection_fresh(code: Code, s: State)
    requires
        code.reflection,
        step(code, s).event is Continue || step(code, s).event is Halt,
    ensures
        is_fresh(step(code, s).state),
{
    lemma_step_orderly(code, s);
}

/// The flags survive every instruction but `test` and `assert`.
pub proof fn lemma_flags_kept(code: Code, s: State)
    requires
        current(code, s).opcode != OpCode::Test,
        current(code, s).opcode != OpCode::Assert,
    ensures
        same_flags(s, step(code, s).state),
{
    lemma_step_orderly(code, s);
}

/// The program counter stays in the program: where the program counter,
/// every label and every return address names an instruction or the end
/// of the program, they do so after a step.
pub proof fn lemma_pc_in_program(code: Code, s: State)
    requires
        !at_end(code, s),
        targets_in_program(code, s),
    ensures
        targets_in_program(code, step(code, s).state),
{
    lemma_step_orderly(code, s);
}

/// The call stack grows only by calls: a step that is no call leaves it no
/// deeper than it was, and a call makes it deeper by at most one.
pub proof fn lemma_call_stack_depth(code: Code, s: State)
    ensures
        current(code, s).opcode != OpCode::Call ==> step(code, s).state.call_stack.len()
            <= s.call_stack.len(),
        step(code, s).state.call_stack.len() <= s.call_stack.len() + 1,
{
    lemma_step_orderly(code, s);
}

} // verus!
