//! The instructions, one function each.

use crate::text::{push_str, scalar, str_eq};
use crate::types::{Allocation, Type, Value};
use crate::types::arith::{compute, ArithError, ArithOp};
use crate::types::order::{compare, Order};
use crate::vm::builtin::BuiltIn;
use crate::vm::cast::{convert, CastType};
use crate::vm::error::{Error, ErrorKind};
use crate::vm::fault::{
    bad_cast, bad_free, cast_label, empty_call_stack, empty_stack, freed, missing_operand, no_label,
    no_memory, one, placed_text, quoted_text, two,
};
use crate::vm::field::{display, Field};
use crate::vm::heap::{block_len, lemma_live_in_bounds, HEAP_ALIGN, HeapError};
use crate::vm::opcode::OpCode;
use crate::vm::program::{data_views, instruction_views, Program};
use crate::vm::register::{Register, RegisterWithOffset};
use crate::vm::semantics::{
    advance, as_number, as_slot, at_end, builtin_index, cast_indexed, cast_register, cast_target,
    compared,
    compared_value, deref, fault, has_builtin, is_builtin, is_run, is_run_from, linked, moved,
    refreshed,
    size_value, source_value, step, step_alloc, step_arith, step_assert, step_branch, step_call,
    step_cast, step_dup, step_free, step_jump, step_move, step_pop, step_push, step_ret, step_test,
    takes_block, transfer, Code, Event, FloatRequest, Number, Outcome, State,
};
use crate::vm::stack::Stack;
use crate::vm::vm::{reports, stack_views, Status, Vm};
use vstd::prelude::*;
use vstd::string::*;

verus! {

/// Whether the machine did what a step says: it gave back how the step
/// ended, and is in the state that the step leaves. Of a fault it gave a
/// report.
pub open spec fn agrees(code: Code, post: State, r: Result<Status, Error>, out: Outcome) -> bool {
    &&& post == out.state
    &&& match out.event {
        Event::Continue => r == Ok::<Status, Error>(Status::Running),
        Event::Halt => r == Ok::<Status, Error>(Status::Halted),
        Event::Input => r == Ok::<Status, Error>(Status::AwaitingInput),
        Event::Float(request) => r == Ok::<Status, Error>(Status::AwaitingFloat(request)),
        Event::Builtin(i) => r == Ok::<Status, Error>(Status::AwaitingBuiltin(i as usize)),
        Event::Fault(f) => r is Err && reports(code, out.state, r->Err_0, f),
    }
}

/// Whether a run that went through the states `trace` ended as the machine
/// says: in state `post` with the result `r`. At the last state of the run
/// the program has ended, or the budget of `max` steps is used up, or the
/// step that is due does anything but carry an instruction out and go on:
/// then that step was made.
pub open spec fn ends(
    code: Code,
    trace: Seq<State>,
    post: State,
    r: Result<Status, Error>,
    max: nat,
) -> bool {
    let last = trace.last();
    if at_end(code, last) {
        r == Ok::<Status, Error>(Status::Halted) && post == last
    } else if trace.len() == max + 1 {
        r == Ok::<Status, Error>(Status::Running) && post == last
    } else {
        !(step(code, last).event is Continue) && agrees(code, post, r, step(code, last))
    }
}

/// Whether the machine, started in state `start` with a budget of `max`
/// steps, can end in state `post` with the result `r`.
pub open spec fn runs(code: Code, start: State, post: State, r: Result<Status, Error>, max: nat) -> bool {
    exists|trace: Seq<State>| #[trigger]
        is_run_from(code, trace, start, max) && ends(code, trace, post, r, max)
}

impl Vm {
    /// Carries out the instruction at the program counter. At the end of
    /// the program nothing is done.
    pub fn step(&mut self) -> (r: Result<Status, Error>)
        ensures
            final(self).code() == old(self).code(),
            at_end(old(self).code(), old(self).state()) ==> r == Ok::<Status, Error>(
                Status::Halted,
            ) && final(self).state() == old(self).state(),
            !at_end(old(self).code(), old(self).state()) ==> agrees(
                old(self).code(),
                final(self).state(),
                r,
                step(old(self).code(), old(self).state()),
            ),
    {
        assert(self.code().instructions.len() == self.instructions.len());
        if self.pc >= self.instructions.len() {
            return Ok(Status::Halted);
        }
        let instruction = self.instructions[self.pc].duplicate();
        assert(instruction@ == self.code().instructions[self.pc as int]);
        let opcode = instruction.opcode;
        let mut operand = instruction.operand;
        assert(stack_views(operand@) == self.code().instructions[self.pc as int].operands);
        match opcode {
            OpCode::Move => self.op_move(&mut operand),
            OpCode::Push => self.op_push(&mut operand),
            OpCode::Pop => self.op_pop(&mut operand),
            OpCode::Add => self.op_arith(&mut operand, ArithOp::Add),
            OpCode::Mul => self.op_arith(&mut operand, ArithOp::Mul),
            OpCode::Sub => self.op_arith(&mut operand, ArithOp::Sub),
            OpCode::Div => self.op_arith(&mut operand, ArithOp::Div),
            OpCode::Mod => self.op_arith(&mut operand, ArithOp::Rem),
            OpCode::Xor => self.op_arith(&mut operand, ArithOp::Xor),
            OpCode::Input => Ok(Status::AwaitingInput),
            OpCode::Call => self.op_call(&mut operand),
            OpCode::Ret => self.op_ret(),
            OpCode::Test => self.op_test(&mut operand),
            OpCode::Assert => self.op_assert(&mut operand),
            OpCode::Jmp => self.op_jump(&mut operand),
            OpCode::Je => {
                let taken = self.registers.check_equals_flag();
                self.op_branch(&mut operand, taken)
            },
            OpCode::Jne => {
                let taken = !self.registers.check_equals_flag();
                self.op_branch(&mut operand, taken)
            },
            OpCode::Jle => {
                let taken = self.registers.check_equals_flag()
                    || self.registers.check_less_than_flag();
                self.op_branch(&mut operand, taken)
            },
            OpCode::Jge => {
                let taken = self.registers.check_equals_flag()
                    || self.registers.check_greater_than_flag();
                self.op_branch(&mut operand, taken)
            },
            OpCode::Jl => {
                let taken = self.registers.check_less_than_flag();
                self.op_branch(&mut operand, taken)
            },
            OpCode::Jg => {
                let taken = self.registers.check_greater_than_flag();
                self.op_branch(&mut operand, taken)
            },
            OpCode::Nop => self.next(),
            OpCode::Hlt => {
                self.refresh();
                Ok(Status::Halted)
            },
            OpCode::Dup => self.op_dup(),
            OpCode::Igl => self.fail(
                ErrorKind::IllegalInstruction,
                placed_text("ILLEGAL instruction encountered at ", self.pc, "."),
                None,
            ),
            OpCode::Alloc => self.op_alloc(&mut operand),
            OpCode::Free => self.op_free(&mut operand),
            OpCode::Cast => self.op_cast(&mut operand),
        }
    }

    /// Carries instructions out until the program ends, a step fails or
    /// asks for the host, or `max_steps` steps have been made.
    pub fn run(&mut self, max_steps: u64) -> (r: Result<Status, Error>)
        ensures
            final(self).code() == old(self).code(),
            runs(old(self).code(), old(self).state(), final(self).state(), r, max_steps as nat),
    {
        let ghost code = self.code();
        let ghost mut trace: Seq<State> = seq![self.state()];
        let mut steps: u64 = 0;
        assert(is_run(code, trace));
        while steps < max_steps
            invariant
                self.code() == code,
                code == old(self).code(),
                steps <= max_steps,
                is_run(code, trace),
                trace[0] == old(self).state(),
                trace.len() == steps + 1,
                trace.last() == self.state(),
            decreases max_steps - steps,
        {
            let result = self.step();
            match result {
                Ok(Status::Running) => {
                    proof {
                        let grown = trace.push(self.state());
                        assert forall|i: int| 0 <= i < grown.len() - 1 implies #[trigger] linked(
                            code,
                            grown,
                            i,
                        ) by {
                            if i < trace.len() - 1 {
                                assert(linked(code, trace, i));
                            }
                        }
                        trace = grown;
                    }
                    steps += 1;
                },
                other => {
                    assert(is_run_from(code, trace, old(self).state(), max_steps as nat));
                    assert(ends(code, trace, self.state(), other, max_steps as nat));
                    return other;
                },
            }
        }
        assert(code.instructions.len() == self.instructions.len());
        if self.pc >= self.instructions.len() {
            assert(is_run_from(code, trace, old(self).state(), max_steps as nat));
            return Ok(Status::Halted);
        }
        assert(is_run_from(code, trace, old(self).state(), max_steps as nat));
        Ok(Status::Running)
    }
}

impl Vm {
    /// Takes `program` as the program of the machine and runs it from the
    /// program counter on, for at most `u64::MAX` steps.
    pub fn execute(&mut self, program: Program) -> (r: Result<Status, Error>)
        ensures
            final(self).code() == (Code {
                instructions: instruction_views(program.instructions@),
                labels: program.labels@,
                data: data_views(program.data@),
                ..old(self).code()
            }),
            runs(final(self).code(), old(self).state(), final(self).state(), r, u64::MAX as nat),
    {
        self.load(program);
        self.run(u64::MAX)
    }

    /// Takes `program` as the program of the machine. The state stays as
    /// it is.
    pub fn load(&mut self, program: Program)
        ensures
            final(self).state() == old(self).state(),
            final(self).code() == (Code {
                instructions: instruction_views(program.instructions@),
                labels: program.labels@,
                data: data_views(program.data@),
                ..old(self).code()
            }),
    {
        self.instructions = program.instructions;
        self.labels = program.labels;
        self.data = program.data;
    }

    /// Ends the call of a built-in: `result` is put into register `r0`,
    /// and the machine goes on behind the call. At the end of the program
    /// nothing is done.
    pub fn finish_call(&mut self, result: Field) -> (done: bool)
        ensures
            final(self).code() == old(self).code(),
            done == !at_end(old(self).code(), old(self).state()),
            done ==> final(self).state() == advance(
                old(self).code(),
                State {
                    registers: old(self).state().registers.put(Register::R0, result@),
                    ..old(self).state()
                },
            ).state,
            !done ==> final(self).state() == old(self).state(),
    {
        assert(self.code().instructions.len() == self.instructions.len());
        if self.pc >= self.instructions.len() {
            return false;
        }
        self.registers.put(Register::R0, result);
        let _ = self.next();
        true
    }

    /// Ends floating-point arithmetic that the host has done: the number
    /// with the bits `bits` is put into register `dest`, and the machine
    /// goes on behind the instruction. At the end of the program nothing is
    /// done.
    pub fn finish_float(&mut self, dest: Register, bits: u64) -> (done: bool)
        ensures
            final(self).code() == old(self).code(),
            done == !at_end(old(self).code(), old(self).state()),
            done ==> final(self).state() == advance(
                old(self).code(),
                State {
                    registers: old(self).state().registers.put(dest, Value::Float(bits)),
                    ..old(self).state()
                },
            ).state,
            !done ==> final(self).state() == old(self).state(),
    {
        assert(self.code().instructions.len() == self.instructions.len());
        if self.pc >= self.instructions.len() {
            return false;
        }
        self.registers.put(dest, Field(Type::Float(bits)));
        let _ = self.next();
        true
    }

    /// Ends the reading of input: the line that the host has read, with
    /// the white space at its ends taken off, is pushed as a string, and
    /// the machine goes on behind the instruction. At the end of the
    /// program nothing is done.
    pub fn finish_input(&mut self, line: String) -> (done: bool)
        ensures
            final(self).code() == old(self).code(),
            done == !at_end(old(self).code(), old(self).state()),
            done ==> final(self).state() == advance(
                old(self).code(),
                State {
                    stack: old(self).state().stack.push(Value::Str(line@)),
                    ..old(self).state()
                },
            ).state,
            !done ==> final(self).state() == old(self).state(),
    {
        assert(self.code().instructions.len() == self.instructions.len());
        if self.pc >= self.instructions.len() {
            return false;
        }
        self.stack.push(Field(Type::String(line)));
        assert(self.state().stack =~= old(self).state().stack.push(Value::Str(line@)));
        let _ = self.next();
        true
    }

    /// Calls `builtin` on the registers, the stack, the instructions and
    /// the heap of the machine, and ends the call with what it returns. At the end of
    /// the program nothing is done. The call stack and the heap stay as
    /// they are; what the built-in makes of the registers and of the stack
    /// is its own affair.
    pub fn invoke(&mut self, builtin: &dyn BuiltIn) -> (done: bool)
        ensures
            final(self).code() == old(self).code(),
            done == !at_end(old(self).code(), old(self).state()),
            final(self).state().call_stack == old(self).state().call_stack,
            final(self).state().heap == old(self).state().heap,
            done ==> final(self).state().pc == old(self).state().pc + 1 && refreshed(
                final(self).code(),
                final(self).state(),
            ) == final(self).state(),
            !done ==> final(self).state() == old(self).state(),
    {
        assert(self.code().instructions.len() == self.instructions.len());
        if self.pc >= self.instructions.len() {
            return false;
        }
        let result = builtin.call(
            &mut self.registers,
            &mut self.stack,
            &self.instructions,
            &self.heap,
        );
        self.finish_call(result)
    }

    /// Takes the next operand of an instruction: the rightmost that is
    /// left.
    pub fn pop_operand(&self, operand: &mut Stack<Field>) -> (r: Result<Field, Error>)
        ensures
            old(operand)@.len() > 0 ==> r is Ok && r->Ok_0 == old(operand)@.last() && final(operand)@ == old(operand)@.drop_last(),
            old(operand)@.len() == 0 ==> r is Err && reports(
                self.code(),
                self.state(),
                r->Err_0,
                missing_operand(),
            ) && final(operand)@ == old(operand)@,
    {
        match operand.pop() {
            Some(i) => Ok(i),
            None => self.fail(
                ErrorKind::StackUnderflow,
                String::from_str("Cannot pop empty operand stack."),
                None,
            ),
        }
    }

    /// The fault of a value asked of the empty stack.
    fn stack_fault<T>(&self) -> (r: Result<T, Error>)
        ensures
            r is Err,
            reports(self.code(), self.state(), r->Err_0, empty_stack()),
    {
        self.fail(ErrorKind::StackUnderflow, String::from_str("Cannot pop empty stack."), None)
    }

    /// Takes the top of the stack.
    pub fn pop_stack(&mut self) -> (r: Result<Field, Error>)
        ensures
            final(self).code() == old(self).code(),
            old(self).stack@.len() > 0 ==> r is Ok && r->Ok_0 == old(self).stack@.last()
                && final(self).state() == (State {
                stack: old(self).state().stack.drop_last(),
                ..old(self).state()
            }),
            old(self).stack@.len() == 0 ==> r is Err && reports(
                old(self).code(),
                old(self).state(),
                r->Err_0,
                empty_stack(),
            ) && final(self).state() == old(self).state(),
    {
        match self.stack.pop() {
            Some(i) => {
                assert(self.state().stack =~= old(self).state().stack.drop_last());
                Ok(i)
            },
            None => self.stack_fault(),
        }
    }

    /// Takes the top of the call stack.
    pub fn pop_call_stack(&mut self) -> (r: Result<usize, Error>)
        ensures
            final(self).code() == old(self).code(),
            old(self).call_stack@.len() > 0 ==> r == Ok::<usize, Error>(
                old(self).call_stack@.last(),
            ) && final(self).state() == (State {
                call_stack: old(self).call_stack@.drop_last(),
                ..old(self).state()
            }),
            old(self).call_stack@.len() == 0 ==> r is Err && reports(
                old(self).code(),
                old(self).state(),
                r->Err_0,
                empty_call_stack(),
            ) && final(self).state() == old(self).state(),
    {
        match self.call_stack.pop() {
            Some(u) => Ok(u),
            None => self.fail(
                ErrorKind::CallStackUnderflow,
                String::from_str("Cannot pop empty call stack."),
                None,
            ),
        }
    }

    /// Brings the reflection slots up to date, where the machine keeps
    /// them.
    pub fn refresh(&mut self)
        ensures
            final(self).code() == old(self).code(),
            final(self).state() == refreshed(old(self).code(), old(self).state()),
    {
        if self.reflection {
            self.registers.set_stack_len(Field(Type::UInt(self.stack.len())));
            self.registers.set_call_stack_len(Field(Type::UInt(self.call_stack.len())));
            self.registers.set_pc(Field(Type::UInt(self.pc)));
        }
    }

    /// Ends a step that carried its instruction out: the machine goes on
    /// behind it.
    fn next(&mut self) -> (r: Result<Status, Error>)
        requires
            !at_end(old(self).code(), old(self).state()),
        ensures
            final(self).code() == old(self).code(),
            agrees(
                old(self).code(),
                final(self).state(),
                r,
                advance(old(self).code(), old(self).state()),
            ),
    {
        assert(self.code().instructions.len() == self.instructions.len());
        self.pc = self.pc + 1;
        self.refresh();
        Ok(Status::Running)
    }

    /// Ends a step that carried its instruction out: the machine goes on
    /// at `target`.
    fn go(&mut self, target: usize) -> (r: Result<Status, Error>)
        ensures
            final(self).code() == old(self).code(),
            agrees(
                old(self).code(),
                final(self).state(),
                r,
                transfer(old(self).code(), old(self).state(), target),
            ),
    {
        self.pc = target;
        self.refresh();
        Ok(Status::Running)
    }

    /// What a register reference stands for.
    fn follow(&self, v: Field) -> (r: Result<Field, Error>)
        ensures
            match deref(self.registers@, v@) {
                Ok(x) => r is Ok && r->Ok_0@ == x,
                Err(f) => r is Err && reports(self.code(), self.state(), r->Err_0, f),
            },
    {
        match &v.0 {
            Type::Register(source) => {
                if source.ordinal() != 16 {
                    Ok(self.registers.get(*source).underlying_data_clone())
                } else {
                    self.register_fault()
                }
            },
            _ => Ok(v),
        }
    }

    /// The register that an operand names, given that it must hold a value.
    fn slot(&self, v: &Field) -> (r: Result<Register, Error>)
        ensures
            match as_slot(v@) {
                Ok(x) => r == Ok::<Register, Error>(x),
                Err(f) => r is Err && reports(self.code(), self.state(), r->Err_0, f),
            },
    {
        match v.to_r(self) {
            Ok(register) => {
                if register.ordinal() != 16 {
                    Ok(register)
                } else {
                    self.register_fault()
                }
            },
            Err(e) => Err(e),
        }
    }

    /// The data constant of the symbol `key`, if there is one.
    fn constant(&self, key: &str) -> (r: Option<Field>)
        ensures
            self.code().data.contains_key(key@) ==> r is Some && r->Some_0@
                == self.code().data[key@],
            !self.code().data.contains_key(key@) ==> r is None,
    {
        match self.data.get(key) {
            Some(f) => Some(f.underlying_data_clone()),
            None => None,
        }
    }

    /// The value that the source operand of a move stands for.
    fn source(&self, v: Field) -> (r: Result<Field, Error>)
        ensures
            match source_value(self.code(), self.state(), v@) {
                Ok(x) => r is Ok && r->Ok_0@ == x,
                Err(f) => r is Err && reports(self.code(), self.state(), r->Err_0, f),
            },
    {
        match &v.0 {
            Type::String(s) => {
                match self.constant(s.as_str()) {
                    Some(f) => Ok(f),
                    None => {
                        if s.as_str().as_bytes().len() == 1 {
                            assert(s@.len() > 0);
                            Ok(Field(Type::Char(scalar(s.as_str().get_char(0)))))
                        } else {
                            let head = quoted_text("Cannot find symbol '", s.as_str(), "' at ");
                            self.fail(
                                ErrorKind::UnknownSymbol,
                                placed_text(head.as_str(), self.pc, "!"),
                                one(v.underlying_data_clone()),
                            )
                        }
                    },
                }
            },
            Type::Register(_) => self.follow(v),
            Type::RegisterWithOffsets(r2) => {
                proof {
                    crate::vm::field::lemma_offsets_view(*r2);
                }
                self.get_source_data(r2)
            },
            _ => Ok(v),
        }
    }

    /// A move.
    pub(crate) fn op_move(&mut self, operand: &mut Stack<Field>) -> (r: Result<Status, Error>)
        requires
            !at_end(old(self).code(), old(self).state()),
        ensures
            final(self).code() == old(self).code(),
            agrees(
                old(self).code(),
                final(self).state(),
                r,
                step_move(old(self).code(), old(self).state(), stack_views(old(operand)@)),
            ),
    {
        let data = match self.pop_operand(operand) {
            Ok(f) => f,
            Err(e) => {
                return Err(e);
            },
        };
        let register = match self.pop_operand(operand) {
            Ok(f) => f,
            Err(e) => {
                return Err(e);
            },
        };
        match &register.0 {
            Type::Register(_) | Type::RegisterWithOffsets(_) => {},
            _ => {
                return self.fail(
                    ErrorKind::TypeError,
                    String::from_str("Value is not a register with offset!"),
                    one(register),
                );
            },
        }
        match self.source(data) {
            Ok(value) => self.store(register, value),
            Err(e) => Err(e),
        }
    }

    /// Stores a value into what an operand names.
    fn store(&mut self, target: Field, value: Field) -> (r: Result<Status, Error>)
        requires
            !at_end(old(self).code(), old(self).state()),
        ensures
            final(self).code() == old(self).code(),
            agrees(
                old(self).code(),
                final(self).state(),
                r,
                moved(old(self).code(), old(self).state(), target@, value@),
            ),
    {
        match &target.0 {
            Type::Register(r) => {
                self.registers.set(*r, value);
                self.next()
            },
            Type::RegisterWithOffsets(rwo) => {
                proof {
                    crate::vm::field::lemma_offsets_view(*rwo);
                }
                match self.set_dest_data(rwo, value) {
                    Ok(_) => self.next(),
                    Err(e) => Err(e),
                }
            },
            _ => self.fail(
                ErrorKind::TypeError,
                String::from_str("Value is not a register with offset!"),
                one(target.underlying_data_clone()),
            ),
        }
    }

    /// A push.
    pub(crate) fn op_push(&mut self, operand: &mut Stack<Field>) -> (r: Result<Status, Error>)
        requires
            !at_end(old(self).code(), old(self).state()),
        ensures
            final(self).code() == old(self).code(),
            agrees(
                old(self).code(),
                final(self).state(),
                r,
                step_push(old(self).code(), old(self).state(), stack_views(old(operand)@)),
            ),
    {
        let register = match self.pop_operand(operand) {
            Ok(f) => f,
            Err(e) => {
                return Err(e);
            },
        };
        let pushed = match &register.0 {
            Type::Register(r) => {
                if r.ordinal() != 16 {
                    Some(self.registers.get(*r).underlying_data_clone())
                } else {
                    None
                }
            },
            Type::String(s) => self.constant(s.as_str()),
            _ => None,
        };
        match pushed {
            Some(v) => {
                self.stack.push(v);
                assert(self.state().stack =~= old(self).state().stack.push(v@));
                self.next()
            },
            None => self.fail(
                ErrorKind::TypeError,
                placed_text("Cannot push datatype to stack at ", self.pc, "!"),
                one(register),
            ),
        }
    }

    /// A pop.
    pub(crate) fn op_pop(&mut self, operand: &mut Stack<Field>) -> (r: Result<Status, Error>)
        requires
            !at_end(old(self).code(), old(self).state()),
        ensures
            final(self).code() == old(self).code(),
            agrees(
                old(self).code(),
                final(self).state(),
                r,
                step_pop(old(self).code(), old(self).state(), stack_views(old(operand)@)),
            ),
    {
        let register = match self.pop_operand(operand) {
            Ok(f) => f,
            Err(e) => {
                return Err(e);
            },
        };
        let register = match register.to_r(self) {
            Ok(r) => r,
            Err(e) => {
                return Err(e);
            },
        };
        let data = match self.pop_stack() {
            Ok(f) => f,
            Err(e) => {
                return Err(e);
            },
        };
        self.registers.set(register, data);
        self.next()
    }

    /// The number that a value is, for floating-point arithmetic.
    fn number(v: &Field) -> (n: Number)
        ensures
            n == as_number(v@),
    {
        match &v.0 {
            Type::UInt(u) => Number::UInt(*u),
            Type::Float(f) => Number::Float(*f),
            Type::Int(i) => Number::Int(*i),
            _ => Number::Int(0),
        }
    }

    /// Arithmetic on a register.
    pub(crate) fn op_arith(&mut self, operand: &mut Stack<Field>, op: ArithOp) -> (r: Result<
        Status,
        Error,
    >)
        requires
            !at_end(old(self).code(), old(self).state()),
        ensures
            final(self).code() == old(self).code(),
            agrees(
                old(self).code(),
                final(self).state(),
                r,
                step_arith(old(self).code(), old(self).state(), stack_views(old(operand)@), op),
            ),
    {
        let register2 = match self.pop_operand(operand) {
            Ok(f) => f,
            Err(e) => {
                return Err(e);
            },
        };
        let register1 = match self.pop_operand(operand) {
            Ok(f) => f,
            Err(e) => {
                return Err(e);
            },
        };
        let r = match self.slot(&register1) {
            Ok(r) => r,
            Err(e) => {
                return Err(e);
            },
        };
        let data2 = match self.follow(register2) {
            Ok(f) => f,
            Err(e) => {
                return Err(e);
            },
        };
        let outcome = compute(op, &self.registers.get(r).0, &data2.0);
        match outcome {
            Ok(value) => {
                self.registers.set(r, Field(value));
                self.next()
            },
            Err(ArithError::FloatingPoint) => {
                let lhs = Vm::number(self.registers.get(r));
                let rhs = Vm::number(&data2);
                Ok(Status::AwaitingFloat(FloatRequest { op, dest: r, lhs, rhs }))
            },
            Err(ArithError::Incompatible) => self.fail(
                ErrorKind::TypeError,
                String::from_str("Invalid combination for type..."),
                two(self.registers.get(r).underlying_data_clone(), data2),
            ),
        }
    }

    /// The right operand of a comparison.
    fn right(&self, v: Field) -> (r: Result<Field, Error>)
        ensures
            match compared_value(self.code(), self.state(), v@) {
                Ok(x) => r is Ok && r->Ok_0@ == x,
                Err(f) => r is Err && reports(self.code(), self.state(), r->Err_0, f),
            },
    {
        match &v.0 {
            Type::String(s) => match self.constant(s.as_str()) {
                Some(f) => Ok(f),
                None => Ok(v),
            },
            _ => self.follow(v),
        }
    }

    /// The comparison that `test` and `assert` make: the flags are cleared,
    /// and each is set that holds of the two operands.
    pub fn test(&mut self, operand: &mut Stack<Field>) -> (r: Result<(), Error>)
        ensures
            final(self).code() == old(self).code(),
            match compared(old(self).code(), old(self).state(), stack_views(old(operand)@)) {
                Ok(t) => r is Ok && final(self).state() == t,
                Err(f) => r is Err && reports(old(self).code(), old(self).state(), r->Err_0, f)
                    && final(self).state() == old(self).state(),
            },
    {
        let register2 = match self.pop_operand(operand) {
            Ok(f) => f,
            Err(e) => {
                return Err(e);
            },
        };
        let register1 = match self.pop_operand(operand) {
            Ok(f) => f,
            Err(e) => {
                return Err(e);
            },
        };
        let r = match self.slot(&register1) {
            Ok(r) => r,
            Err(e) => {
                return Err(e);
            },
        };
        let i2 = match self.right(register2) {
            Ok(f) => f,
            Err(e) => {
                return Err(e);
            },
        };
        let order = compare(&self.registers.get(r).0, &i2.0);
        self.registers.reset_flags();
        match order {
            Some(Order::Equal) => {
                self.registers.set_equals_flag(true);
            },
            Some(Order::Less) => {
                self.registers.set_less_than_flag(true);
            },
            Some(Order::Greater) => {
                self.registers.set_greater_than_flag(true);
            },
            None => {},
        }
        Ok(())
    }

    /// A comparison that sets the flags.
    pub(crate) fn op_test(&mut self, operand: &mut Stack<Field>) -> (r: Result<Status, Error>)
        requires
            !at_end(old(self).code(), old(self).state()),
        ensures
            final(self).code() == old(self).code(),
            agrees(
                old(self).code(),
                final(self).state(),
                r,
                step_test(old(self).code(), old(self).state(), stack_views(old(operand)@)),
            ),
    {
        match self.test(operand) {
            Ok(_) => self.next(),
            Err(e) => Err(e),
        }
    }

    /// A comparison that must find its operands equal.
    pub(crate) fn op_assert(&mut self, operand: &mut Stack<Field>) -> (r: Result<Status, Error>)
        requires
            !at_end(old(self).code(), old(self).state()),
        ensures
            final(self).code() == old(self).code(),
            agrees(
                old(self).code(),
                final(self).state(),
                r,
                step_assert(old(self).code(), old(self).state(), stack_views(old(operand)@)),
            ),
    {
        match self.test(operand) {
            Ok(_) => {
                if !self.registers.check_equals_flag() {
                    return self.fail(
                        ErrorKind::AssertionFailed,
                        placed_text("Assertion failed at ", self.pc, "."),
                        None,
                    );
                }
                self.registers.reset_flags();
                self.next()
            },
            Err(e) => Err(e),
        }
    }

    /// The instruction index that a label names.
    pub fn jump_to_label(&self, operand: Field) -> (r: Result<usize, Error>)
        ensures
            self.code().labels.contains_key(display(operand@, self.heap@)) ==> r == Ok::<
                usize,
                Error,
            >(self.code().labels[display(operand@, self.heap@)]),
            !self.code().labels.contains_key(display(operand@, self.heap@)) ==> r is Err
                && reports(
                self.code(),
                self.state(),
                r->Err_0,
                no_label(display(operand@, self.heap@)),
            ),
    {
        let label = operand.to_text(&self.heap);
        match self.labels.get(label.as_str()) {
            Some(n) => Ok(*n),
            None => self.fail(
                ErrorKind::UnknownLabel,
                quoted_text("Cannot find label '", label.as_str(), "'."),
                None,
            ),
        }
    }

    /// A jump.
    pub(crate) fn op_jump(&mut self, operand: &mut Stack<Field>) -> (r: Result<Status, Error>)
        requires
            !at_end(old(self).code(), old(self).state()),
        ensures
            final(self).code() == old(self).code(),
            agrees(
                old(self).code(),
                final(self).state(),
                r,
                step_jump(old(self).code(), old(self).state(), stack_views(old(operand)@)),
            ),
    {
        let label = match self.pop_operand(operand) {
            Ok(f) => f,
            Err(e) => {
                return Err(e);
            },
        };
        match self.jump_to_label(label) {
            Ok(target) => self.go(target),
            Err(e) => Err(e),
        }
    }

    /// A jump that is taken if `taken`.
    pub(crate) fn op_branch(&mut self, operand: &mut Stack<Field>, taken: bool) -> (r: Result<
        Status,
        Error,
    >)
        requires
            !at_end(old(self).code(), old(self).state()),
        ensures
            final(self).code() == old(self).code(),
            agrees(
                old(self).code(),
                final(self).state(),
                r,
                step_branch(old(self).code(), old(self).state(), stack_views(old(operand)@), taken),
            ),
    {
        if taken {
            self.op_jump(operand)
        } else {
            self.next()
        }
    }

    /// The index of the first built-in of the name `name`.
    pub fn find_builtin(&self, name: &str) -> (r: Option<usize>)
        ensures
            match r {
                Some(i) => is_builtin(self.code(), i as int, name@) && has_builtin(
                    self.code(),
                    name@,
                ) && builtin_index(self.code(), name@) == i,
                None => !has_builtin(self.code(), name@),
            },
    {
        let mut i: usize = 0;
        while i < self.names.len()
            invariant
                i <= self.names.len(),
                self.code().builtins.len() == self.names.len(),
                forall|j: int| 0 <= j < i ==> self.code().builtins[j] != name@,
            decreases self.names.len() - i,
        {
            if str_eq(self.names[i].as_str(), name) {
                proof {
                    let code = self.code();
                    assert(code.builtins[i as int] == name@);
                    assert(is_builtin(code, i as int, name@));
                    let k = builtin_index(code, name@);
                    assert(is_builtin(code, k, name@));
                    if k < i {
                        assert(code.builtins[k] != name@);
                    } else if i < k {
                        assert(code.builtins[i as int] != name@);
                    }
                }
                return Some(i);
            }
            i += 1;
        }
        None
    }

    /// A call.
    pub(crate) fn op_call(&mut self, operand: &mut Stack<Field>) -> (r: Result<Status, Error>)
        requires
            !at_end(old(self).code(), old(self).state()),
        ensures
            final(self).code() == old(self).code(),
            agrees(
                old(self).code(),
                final(self).state(),
                r,
                step_call(old(self).code(), old(self).state(), stack_views(old(operand)@)),
            ),
    {
        let label = match self.pop_operand(operand) {
            Ok(f) => f,
            Err(e) => {
                return Err(e);
            },
        };
        let name = label.to_text(&self.heap);
        match self.labels.get(name.as_str()) {
            Some(target) => {
                let target = *target;
                assert(self.code().instructions.len() == self.instructions.len());
                self.call_stack.push(self.pc + 1);
                self.go(target)
            },
            None => match self.find_builtin(name.as_str()) {
                Some(i) => Ok(Status::AwaitingBuiltin(i)),
                None => {
                    let head = quoted_text("Cannot find label '", name.as_str(), "' at ");
                    self.fail(
                        ErrorKind::UnknownSymbol,
                        placed_text(head.as_str(), self.pc, "!"),
                        one(label),
                    )
                },
            },
        }
    }

    /// A return.
    pub(crate) fn op_ret(&mut self) -> (r: Result<Status, Error>)
        requires
            !at_end(old(self).code(), old(self).state()),
        ensures
            final(self).code() == old(self).code(),
            agrees(
                old(self).code(),
                final(self).state(),
                r,
                step_ret(old(self).code(), old(self).state()),
            ),
    {
        match self.pop_call_stack() {
            Ok(target) => self.go(target),
            Err(e) => Err(e),
        }
    }

    /// A duplication of the top of the stack.
    pub(crate) fn op_dup(&mut self) -> (r: Result<Status, Error>)
        requires
            !at_end(old(self).code(), old(self).state()),
        ensures
            final(self).code() == old(self).code(),
            agrees(
                old(self).code(),
                final(self).state(),
                r,
                step_dup(old(self).code(), old(self).state()),
            ),
    {
        let n = self.stack.len();
        if n == 0 {
            return self.stack_fault();
        }
        let copy = self.stack.0[n - 1].underlying_data_clone();
        self.stack.push(copy);
        assert(self.state().stack =~= old(self).state().stack.push(
            old(self).state().stack.last(),
        ));
        self.next()
    }

    /// The number of bytes that the size operand of an allocation asks for.
    fn size(&self, v: &Field) -> (r: Result<usize, Error>)
        ensures
            match size_value(self.code(), self.state(), v@) {
                Ok(n) => r == Ok::<usize, Error>(n),
                Err(f) => r is Err && reports(self.code(), self.state(), r->Err_0, f),
            },
    {
        match &v.0 {
            Type::Register(r) => {
                if r.ordinal() != 16 {
                    self.registers.get(*r).to_u(self)
                } else {
                    self.register_fault()
                }
            },
            Type::UInt(_) | Type::Int(_) => v.to_u(self),
            Type::String(s) => match self.constant(s.as_str()) {
                Some(f) => f.to_u(self),
                None => self.fail(
                    ErrorKind::TypeError,
                    quoted_text("Cannot parse '", s.as_str(), "' as size for allocation!"),
                    one(v.underlying_data_clone()),
                ),
            },
            _ => self.fail(
                ErrorKind::TypeError,
                String::from_str("Cannot use for allocation!"),
                one(v.underlying_data_clone()),
            ),
        }
    }

    /// Takes `size` bytes from the heap and gives the pointer to them.
    pub fn allocate_heap(&mut self, size: usize) -> (r: Result<Field, Error>)
        ensures
            final(self).code() == old(self).code(),
            match r {
                Ok(f) => exists|k: int|
                    {
                        &&& #[trigger] takes_block(old(self).heap@, k, size)
                        &&& f@ == Value::Pointer(
                            Allocation { ptr: old(self).heap@.blocks[k].addr, size, align: HEAP_ALIGN },
                        )
                        &&& final(self).state() == (State {
                            heap: old(self).heap@.with_allocation(k, size),
                            ..old(self).state()
                        })
                    },
                Err(e) => {
                    &&& reports(
                        old(self).code(),
                        old(self).state(),
                        e,
                        no_memory(old(self).pc, size),
                    )
                    &&& final(self).state() == old(self).state()
                    &&& forall|k: int| !takes_block(old(self).heap@, k, size)
                },
            },
    {
        match self.heap.allocate(size) {
            Ok(address) => {
                proof {
                    let heap = old(self).heap@;
                    let k = choose|k: int|
                        {
                            &&& #[trigger] heap.first_fit(k, block_len(size as int))
                            &&& address == heap.blocks[k].addr
                            &&& self.heap@ == heap.with_allocation(k, size)
                        };
                    assert(takes_block(heap, k, size));
                }
                Ok(Field(Type::Pointer(Allocation::new(address, size, HEAP_ALIGN))))
            },
            Err(_) => {
                assert forall|k: int| !takes_block(old(self).heap@, k, size) by {
                    assert(!old(self).heap@.fits(k, block_len(size as int)));
                }
                self.fail(
                    ErrorKind::OutOfMemory,
                    placed_text("Cannot allocate heap at ", self.pc, "!"),
                    one(Field(Type::UInt(size))),
                )
            },
        }
    }

    /// An allocation.
    pub(crate) fn op_alloc(&mut self, operand: &mut Stack<Field>) -> (r: Result<Status, Error>)
        requires
            !at_end(old(self).code(), old(self).state()),
        ensures
            final(self).code() == old(self).code(),
            agrees(
                old(self).code(),
                final(self).state(),
                r,
                step_alloc(old(self).code(), old(self).state(), stack_views(old(operand)@)),
            ),
    {
        let to_alloc = match self.pop_operand(operand) {
            Ok(f) => f,
            Err(e) => {
                return Err(e);
            },
        };
        let size = match self.size(&to_alloc) {
            Ok(n) => n,
            Err(e) => {
                return Err(e);
            },
        };
        let register = match self.pop_operand(operand) {
            Ok(f) => f,
            Err(e) => {
                return Err(e);
            },
        };
        let register = match register.to_r(self) {
            Ok(r) => r,
            Err(e) => {
                return Err(e);
            },
        };
        match self.allocate_heap(size) {
            Ok(pointer) => {
                proof {
                    let heap = old(self).heap@;
                    let k = choose|k: int| takes_block(heap, k, size);
                    let j = choose|j: int|
                        {
                            &&& #[trigger] takes_block(heap, j, size)
                            &&& pointer@ == Value::Pointer(
                                Allocation { ptr: heap.blocks[j].addr, size, align: HEAP_ALIGN },
                            )
                            &&& self.state() == (State {
                                heap: heap.with_allocation(j, size),
                                ..old(self).state()
                            })
                        };
                    assert(takes_block(heap, j, size));
                    assert(takes_block(heap, k, size));
                    if k < j {
                        assert(false);
                    } else if j < k {
                        assert(false);
                    }
                }
                self.registers.set(register, pointer);
                self.next()
            },
            Err(e) => Err(e),
        }
    }

    /// Gives the allocation that `allocation` points to back to the heap.
    pub fn free_heap(&mut self, allocation: &Allocation) -> (r: Result<(), Error>)
        ensures
            final(self).code() == old(self).code(),
            match r {
                Ok(_) => {
                    &&& allocation.ptr < old(self).heap@.bytes.len()
                    &&& old(self).heap@.is_live(allocation.ptr as int)
                    &&& old(self).heap@.size_at(allocation.ptr as int) == allocation.size
                    &&& final(self).state() == (State {
                        heap: old(self).heap@.with_release(
                            old(self).heap@.index_of(allocation.ptr as int),
                        ),
                        ..old(self).state()
                    })
                },
                Err(e) => {
                    &&& final(self).state() == old(self).state()
                    &&& if allocation.ptr >= old(self).heap@.bytes.len() {
                        reports(
                            old(self).code(),
                            old(self).state(),
                            e,
                            bad_free(old(self).pc, allocation.ptr),
                        )
                    } else if !old(self).heap@.is_live(allocation.ptr as int) {
                        reports(
                            old(self).code(),
                            old(self).state(),
                            e,
                            freed(old(self).pc, allocation.ptr),
                        )
                    } else {
                        old(self).heap@.size_at(allocation.ptr as int) != allocation.size
                            && reports(
                            old(self).code(),
                            old(self).state(),
                            e,
                            bad_free(old(self).pc, allocation.ptr),
                        )
                    }
                },
            },
    {
        proof {
            use_type_invariant(&self.heap);
        }
        match self.heap.deallocate(allocation.ptr, allocation.size) {
            Ok(_) => {
                proof {
                    lemma_live_in_bounds(old(self).heap@, allocation.ptr as int);
                    let i = old(self).heap@.index_of(allocation.ptr as int);
                    assert(old(self).heap@.block_ok(i));
                }
                Ok(())
            },
            Err(e) => {
                match e {
                    HeapError::NotLive => self.freed_fault(allocation.ptr),
                    _ => self.fail(
                        ErrorKind::InvalidFree,
                        placed_text("Cannot free heap at ", self.pc, "!"),
                        one(Field(Type::UInt(allocation.ptr))),
                    ),
                }
            },
        }
    }

    /// The freeing of an allocation.
    pub(crate) fn op_free(&mut self, operand: &mut Stack<Field>) -> (r: Result<Status, Error>)
        requires
            !at_end(old(self).code(), old(self).state()),
        ensures
            final(self).code() == old(self).code(),
            agrees(
                old(self).code(),
                final(self).state(),
                r,
                step_free(old(self).code(), old(self).state(), stack_views(old(operand)@)),
            ),
    {
        let register = match self.pop_operand(operand) {
            Ok(f) => f,
            Err(e) => {
                return Err(e);
            },
        };
        let register = match self.slot(&register) {
            Ok(r) => r,
            Err(e) => {
                return Err(e);
            },
        };
        let p = match self.registers.get(register).to_p(self) {
            Ok(p) => p,
            Err(e) => {
                return Err(e);
            },
        };
        match self.free_heap(&p) {
            Ok(_) => self.next(),
            Err(e) => Err(e),
        }
    }

    /// A conversion.
    #[verifier::rlimit(50)]
    pub(crate) fn op_cast(&mut self, operand: &mut Stack<Field>) -> (r: Result<Status, Error>)
        requires
            !at_end(old(self).code(), old(self).state()),
        ensures
            final(self).code() == old(self).code(),
            agrees(
                old(self).code(),
                final(self).state(),
                r,
                step_cast(old(self).code(), old(self).state(), stack_views(old(operand)@)),
            ),
    {
        let kind = match self.pop_operand(operand) {
            Ok(f) => f,
            Err(e) => {
                return Err(e);
            },
        };
        let cast_type = match &kind.0 {
            Type::String(name) => CastType::from(name.as_str()),
            _ => {
                return self.fail(
                    ErrorKind::TypeError,
                    String::from_str("Value is not a string!"),
                    one(kind),
                );
            },
        };
        let register = match self.pop_operand(operand) {
            Ok(f) => f,
            Err(e) => {
                return Err(e);
            },
        };
        self.cast_target(register, cast_type)
    }

    /// A conversion of what an operand names.
    fn cast_target(&mut self, target: Field, cast_type: CastType) -> (r: Result<Status, Error>)
        requires
            !at_end(old(self).code(), old(self).state()),
        ensures
            final(self).code() == old(self).code(),
            agrees(
                old(self).code(),
                final(self).state(),
                r,
                cast_target(old(self).code(), old(self).state(), target@, cast_type),
            ),
    {
        match &target.0 {
            Type::Register(r) => self.cast_register(*r, cast_type),
            Type::RegisterWithOffsets(rwo) => {
                proof {
                    crate::vm::field::lemma_offsets_view(*rwo);
                }
                self.cast_indexed(rwo, cast_type)
            },
            _ => self.fail(
                ErrorKind::TypeError,
                String::from_str("Value is not a register!"),
                one(target.underlying_data_clone()),
            ),
        }
    }

    /// A conversion of what a register holds.
    fn cast_register(&mut self, register: Register, cast_type: CastType) -> (r: Result<
        Status,
        Error,
    >)
        requires
            !at_end(old(self).code(), old(self).state()),
        ensures
            final(self).code() == old(self).code(),
            agrees(
                old(self).code(),
                final(self).state(),
                r,
                cast_register(old(self).code(), old(self).state(), register, cast_type),
            ),
    {
        if register.ordinal() == 16 {
            return self.register_fault();
        }
        let value = self.registers.get(register).underlying_data_clone();
        match value.cast(self, cast_type) {
            Ok(converted) => {
                self.registers.set(register, converted);
                self.next()
            },
            Err(e) => Err(e),
        }
    }

    /// A conversion of the byte that a reference into a register reads.
    fn cast_indexed(&mut self, rwo: &RegisterWithOffset, cast_type: CastType) -> (r: Result<
        Status,
        Error,
    >)
        requires
            !at_end(old(self).code(), old(self).state()),
        ensures
            final(self).code() == old(self).code(),
            agrees(
                old(self).code(),
                final(self).state(),
                r,
                cast_indexed(
                    old(self).code(),
                    old(self).state(),
                    rwo.register,
                    rwo.terms(),
                    cast_type,
                ),
            ),
    {
        let value = match self.get_source_data(rwo) {
            Ok(v) => v,
            Err(e) => {
                return Err(e);
            },
        };
        let converted = match value.cast(self, cast_type) {
            Ok(v) => v,
            Err(e) => {
                return Err(e);
            },
        };
        match self.set_dest_data(rwo, converted) {
            Ok(_) => self.next(),
            Err(e) => Err(e),
        }
    }
}

impl Field {
    /// Converts the value to the kind `cast_type`.
    pub fn cast(self, vm: &Vm, cast_type: CastType) -> (r: Result<Field, Error>)
        ensures
            match crate::vm::cast::cast_value(self@, cast_type) {
                Some(v) => r is Ok && r->Ok_0@ == v,
                None => r is Err && reports(
                    vm.code(),
                    vm.state(),
                    r->Err_0,
                    bad_cast(self@, vm.heap@, cast_type),
                ),
            },
    {
        let copy = self.underlying_data_clone();
        match convert(self.0, cast_type) {
            Some(t) => Ok(Field(t)),
            None => {
                let text = copy.to_text(&vm.heap);
                let mut message = quoted_text("Cannot cast '", text.as_str(), "' to: ");
                push_str(&mut message, cast_label(cast_type));
                vm.fail(ErrorKind::CastError, message, one(copy))
            },
        }
    }
}

} // verus!
