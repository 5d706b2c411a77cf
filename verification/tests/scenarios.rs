use regvm::types::Type;
use regvm::vm::error::ErrorKind;
use regvm::vm::field::Field;
use regvm::vm::instruction::Instruction;
use regvm::vm::opcode::OpCode;
use regvm::vm::program::Program;
use regvm::vm::register::{Register, RegisterOffset, RegisterOffsetOperandType, RegisterWithOffset};
use regvm::vm::vm::{Status, Vm};

fn reg(r: Register) -> Field {
    Field::from(r)
}

fn at(r: Register, index: i64) -> Field {
    Field(Type::RegisterWithOffsets(RegisterWithOffset::new(
        r,
        vec![RegisterOffset {
            offset: Field::from(index),
            operand: RegisterOffsetOperandType::End,
        }],
    )))
}

fn program(instructions: Vec<Instruction>) -> Program {
    let mut p = Program::new();
    p.instructions = instructions;
    p
}

#[test]
fn four_instruction_counter() {
    let mut p = program(vec![
        Instruction::new(OpCode::Move, vec![reg(Register::Ra), Field::from(0)]),
        Instruction::new(OpCode::Add, vec![reg(Register::Ra), Field::from(1)]),
        Instruction::new(OpCode::Test, vec![reg(Register::Ra), Field::from("_n")]),
        Instruction::new(OpCode::Jl, vec![Field::from("L")]),
    ]);
    p.labels.insert("L".to_string(), 1);
    p.data.insert("_n".to_string(), Field::from(3));
    let mut vm = Vm::new(true);
    let status = vm.execute(p).unwrap();
    assert_eq!(status, Status::Halted);
    assert_eq!(vm.registers.ra, Field::from(3));
    assert!(vm.registers.check_equals_flag());
    assert!(!vm.registers.check_less_than_flag());
    assert!(!vm.registers.check_greater_than_flag());
    assert_eq!(vm.pc, 4);
}

#[test]
fn pointer_string_build() {
    let p = program(vec![
        Instruction::new(OpCode::Alloc, vec![reg(Register::Ra), Field::from(4)]),
        Instruction::new(OpCode::Move, vec![at(Register::Ra, 0), Field::from('d')]),
        Instruction::new(OpCode::Move, vec![at(Register::Ra, 1), Field::from('a')]),
        Instruction::new(OpCode::Move, vec![at(Register::Ra, 2), Field::from('y')]),
        Instruction::new(OpCode::Move, vec![reg(Register::Rd), reg(Register::Ra)]),
    ]);
    let mut vm = Vm::new(true);
    vm.execute(p).unwrap();
    assert_eq!(vm.registers.rd.to_text(&vm.heap), "day");
}

#[test]
fn pointer_to_pointer_copy() {
    let p = program(vec![
        Instruction::new(OpCode::Alloc, vec![reg(Register::Ra), Field::from(4)]),
        Instruction::new(OpCode::Move, vec![at(Register::Ra, 0), Field::from('d')]),
        Instruction::new(OpCode::Move, vec![at(Register::Ra, 1), Field::from('a')]),
        Instruction::new(OpCode::Move, vec![at(Register::Ra, 2), Field::from('y')]),
        Instruction::new(OpCode::Alloc, vec![reg(Register::Rb), Field::from(4)]),
        Instruction::new(OpCode::Move, vec![at(Register::Rb, 0), at(Register::Ra, 0)]),
        Instruction::new(OpCode::Move, vec![at(Register::Rb, 1), at(Register::Ra, 1)]),
        Instruction::new(OpCode::Move, vec![at(Register::Rb, 2), at(Register::Ra, 2)]),
    ]);
    let mut vm = Vm::new(true);
    vm.execute(p).unwrap();
    assert_eq!(vm.registers.rb.to_text(&vm.heap), "day");
    assert_eq!(
        vm.registers.rb.to_text(&vm.heap),
        vm.registers.ra.to_text(&vm.heap)
    );
}

#[test]
fn conditional_branch_via_flags() {
    let mut p = program(vec![
        Instruction::new(OpCode::Move, vec![reg(Register::Ra), Field::from(7)]),
        Instruction::new(OpCode::Move, vec![reg(Register::Rb), Field::from(5)]),
        Instruction::new(OpCode::Test, vec![reg(Register::Ra), reg(Register::Rb)]),
        Instruction::new(OpCode::Jle, vec![Field::from("L")]),
        Instruction::new(OpCode::Move, vec![reg(Register::Rc), Field::from(5)]),
    ]);
    p.labels.insert("L".to_string(), 5);
    let mut vm = Vm::new(true);
    vm.execute(p).unwrap();
    assert_eq!(vm.registers.rc, Field::from(5));
}

#[test]
fn use_after_free() {
    let p = program(vec![
        Instruction::new(OpCode::Alloc, vec![reg(Register::Ra), Field::from(4)]),
        Instruction::new(OpCode::Free, vec![reg(Register::Ra)]),
        Instruction::new(OpCode::Move, vec![at(Register::Ra, 0), Field::from('x')]),
    ]);
    let mut vm = Vm::new(true);
    let err = vm.execute(p).unwrap_err();
    assert_eq!(err.kind, ErrorKind::UseAfterFree);
    assert_eq!(vm.pc, 2);
    assert_eq!(err.stacktrace.len(), 3);
    assert_eq!(err.stacktrace[1], "1\t | free ra");
    assert!(err.stacktrace[2].starts_with("2\t | mov ra[0] x <-- error occurred here"));
}
