use regvm::types::Type;
use regvm::vm::error::Error;
use regvm::vm::field::Field;
use regvm::vm::instruction::Instruction;
use regvm::vm::opcode::OpCode;
use regvm::vm::program::Program;
use regvm::vm::register::Register;
use regvm::vm::vm::Vm;

fn ins<T>(opcode: OpCode, item: T) -> Instruction
where
    Field: From<T>,
{
    Instruction::new(opcode, vec![Field::from(item)])
}

fn ins_vec(opcode: OpCode, items: Vec<Field>) -> Instruction {
    Instruction::new(opcode, items)
}

fn ins_e(opcode: OpCode) -> Instruction {
    Instruction::new(opcode, vec![])
}

fn create_vm_with_data(
    instructions: Vec<Instruction>,
    labels: Option<Vec<(&str, usize)>>,
    data: Vec<(&str, Field)>,
) -> Result<Vm, Error> {
    let mut vm = Vm::new(true);
    execute(&mut vm, instructions, labels, Some(data))?;
    Ok(vm)
}

fn create_vm(
    instructions: Vec<Instruction>,
    labels: Option<Vec<(&str, usize)>>,
) -> Result<Vm, Error> {
    let mut vm = Vm::new(true);
    execute(&mut vm, instructions, labels, None)?;
    Ok(vm)
}

fn execute(
    vm: &mut Vm,
    instructions: Vec<Instruction>,
    labels: Option<Vec<(&str, usize)>>,
    data: Option<Vec<(&str, Field)>>,
) -> Result<(), Error> {
    let mut program = Program::new();
    program.instructions = instructions;

    if labels.is_some() {
        for (name, target) in labels.unwrap() {
            program.labels.insert(name.to_string(), target);
        }
    }

    if data.is_some() {
        for (name, value) in data.unwrap() {
            program.data.insert(name.to_string(), value);
        }
    }

    vm.execute(program)?;

    Ok(())
}

#[test]
fn test_mov() -> Result<(), Error> {
    let mut hm = Vec::new();
    hm.push(("uhoh", Field::from("Uh OH!")));
    let vm = create_vm_with_data(
        vec![
            ins_vec(OpCode::Move, vec![Register::Ra.into(), Field::from(4)]),
            ins_vec(OpCode::Move, vec![Register::Rb.into(), Register::Ra.into()]),
            ins_vec(OpCode::Move, vec![Register::Rc.into(), Register::Rb.into()]),
            ins_vec(
                OpCode::Move,
                vec![Register::Rd.into(), Field(Type::String("uhoh".to_string()))],
            ),
        ],
        None,
        hm,
    )?;

    assert_eq!(vm.registers.ra.to_u(&vm)?, 4);
    assert_eq!(vm.registers.rb.to_u(&vm)?, 4);
    assert_eq!(vm.registers.rc.to_u(&vm)?, 4);
    assert_eq!(vm.registers.rd.to_text(&vm.heap), "Uh OH!".to_string());
    Ok(())
}

#[test]
fn test_push() -> Result<(), Error> {
    let mut vm = create_vm(
        vec![
            ins_vec(OpCode::Move, vec![Register::Ra.into(), Field::from(4)]),
            ins(OpCode::Push, Register::Ra),
        ],
        None,
    )?;

    assert_eq!(vm.registers.ra.to_u(&vm)?, 4);
    assert_eq!(vm.stack.len(), 1);
    assert_eq!(vm.pop_stack()?.to_u(&vm)?, 4);
    Ok(())
}

#[test]
fn test_pop() -> Result<(), Error> {
    let vm = create_vm(
        vec![
            ins_vec(OpCode::Move, vec![Register::Ra.into(), Field::from(4)]),
            ins(OpCode::Push, Register::Ra),
            ins(OpCode::Pop, Register::Rb),
        ],
        None,
    )?;

    assert_eq!(vm.stack.len(), 0);
    assert_eq!(vm.registers.rb.to_u(&vm)?, 4);
    assert_eq!(vm.registers.ra.to_u(&vm)?, 4);
    Ok(())
}

#[test]
fn test_add() -> Result<(), Error> {
    let vm = create_vm(
        vec![
            ins_vec(OpCode::Move, vec![Register::Ra.into(), Field::from(4)]),
            ins_vec(OpCode::Move, vec![Register::Rb.into(), Field::from(5)]),
            ins_vec(OpCode::Add, vec![Register::Ra.into(), Register::Rb.into()]),
        ],
        None,
    )?;

    assert_eq!(vm.registers.ra.to_u(&vm)?, 9);

    let vm = create_vm(
        vec![
            ins_vec(OpCode::Move, vec![Register::Ra.into(), Field::from(4)]),
            ins_vec(OpCode::Add, vec![Register::Ra.into(), Field::from(12)]),
        ],
        None,
    )?;

    assert_eq!(vm.registers.ra.to_u(&vm)?, 16);
    Ok(())
}

#[test]
fn test_mul() -> Result<(), Error> {
    let vm = create_vm(
        vec![
            ins_vec(OpCode::Move, vec![Register::Ra.into(), Field::from(4)]),
            ins_vec(OpCode::Move, vec![Register::Rb.into(), Field::from(5)]),
            ins_vec(OpCode::Mul, vec![Register::Ra.into(), Register::Rb.into()]),
        ],
        None,
    )?;

    assert_eq!(vm.registers.ra.to_u(&vm)?, 20);
    Ok(())
}

#[test]
fn test_sub() -> Result<(), Error> {
    let vm = create_vm(
        vec![
            ins_vec(OpCode::Move, vec![Register::Ra.into(), Field::from(10)]),
            ins_vec(OpCode::Move, vec![Register::Rb.into(), Field::from(3)]),
            ins_vec(OpCode::Sub, vec![Register::Ra.into(), Register::Rb.into()]),
        ],
        None,
    )?;

    assert_eq!(vm.registers.ra.to_u(&vm)?, 7);
    Ok(())
}

#[test]
fn test_div() -> Result<(), Error> {
    let vm = create_vm(
        vec![
            ins_vec(OpCode::Move, vec![Register::Ra.into(), Field::from(12)]),
            ins_vec(OpCode::Move, vec![Register::Rb.into(), Field::from(3)]),
            ins_vec(OpCode::Div, vec![Register::Ra.into(), Register::Rb.into()]),
        ],
        None,
    )?;

    assert_eq!(vm.registers.ra.to_u(&vm)?, 4);
    Ok(())
}

#[test]
fn test_mod() -> Result<(), Error> {
    let vm = create_vm(
        vec![
            ins_vec(OpCode::Move, vec![Register::Ra.into(), Field::from(13)]),
            ins_vec(OpCode::Move, vec![Register::Rb.into(), Field::from(3)]),
            ins_vec(OpCode::Mod, vec![Register::Ra.into(), Register::Rb.into()]),
        ],
        None,
    )?;

    assert_eq!(vm.registers.ra.to_u(&vm)?, 1);
    Ok(())
}

#[test]
fn test_call() -> Result<(), Error> {
    let mut hashmap = Vec::new();
    hashmap.push(("@func", 2));
    let mut vm = create_vm(
        vec![
            ins_vec(OpCode::Move, vec![Register::Ra.into(), Field::from(4)]),
            ins(OpCode::Call, "@func"),
            ins(OpCode::Push, Register::Ra),
        ],
        Some(hashmap),
    )?;

    assert_eq!(vm.pop_stack()?.to_u(&vm)?, 4);
    Ok(())
}

#[test]
fn test_ret() -> Result<(), Error> {
    let mut hashmap = Vec::new();
    hashmap.push(("@func", 3));
    hashmap.push(("@end", 5));
    let vm = create_vm(
        vec![
            ins_vec(OpCode::Move, vec![Register::Ra.into(), Field::from(4)]),
            ins(OpCode::Call, "@func"),
            ins(OpCode::Jmp, "@end"),
            ins_vec(OpCode::Move, vec![Register::Rb.into(), Field::from(9)]),
            ins_e(OpCode::Ret),
            ins_vec(OpCode::Move, vec![Register::Rc.into(), Field::from(8)]),
        ],
        Some(hashmap),
    )?;

    assert_eq!(vm.registers.ra.to_u(&vm)?, 4);
    assert_eq!(vm.registers.rb.to_u(&vm)?, 9);
    assert_eq!(vm.registers.rc.to_u(&vm)?, 8);
    Ok(())
}

#[test]
fn test_label() -> Result<(), Error> {
    let mut hashmap = Vec::new();
    hashmap.push(("@end", 2));
    let vm = create_vm(
        vec![ins(OpCode::Jmp, "@end"), ins(OpCode::Push, 1)],
        Some(hashmap),
    )?;

    assert_eq!(vm.stack.len(), 0);
    Ok(())
}

#[test]
fn test_jmp() -> Result<(), Error> {
    let mut hashmap = Vec::new();
    hashmap.push(("@end", 2));
    let vm = create_vm(
        vec![
            ins(OpCode::Jmp, "@end"),
            ins_vec(OpCode::Move, vec![Register::Ra.into(), Field::from(5)]),
        ],
        Some(hashmap),
    )?;

    assert_ne!(vm.registers.get(Register::Rc).to_u(&vm)?, 5);
    Ok(())
}

#[test]
fn test_je() -> Result<(), Error> {
    let mut hashmap = Vec::new();
    hashmap.push(("@equal", 6));
    let vm = create_vm(
        vec![
            ins_vec(OpCode::Move, vec![Register::Ra.into(), Field::from(13)]),
            ins_vec(OpCode::Move, vec![Register::Rb.into(), Field::from(13)]),
            ins_vec(OpCode::Test, vec![Register::Ra.into(), Register::Rb.into()]),
            ins(OpCode::Je, "@equal"),
            ins_vec(OpCode::Move, vec![Register::Rc.into(), Field::from(5)]),
        ],
        Some(hashmap),
    )?;

    assert_ne!(vm.registers.get(Register::Rc).to_u(&vm)?, 5);

    let mut hashmap = Vec::new();
    hashmap.push(("@equal", 5));
    let vm = create_vm(
        vec![
            ins_vec(OpCode::Move, vec![Register::Ra.into(), Field::from(4)]),
            ins_vec(OpCode::Move, vec![Register::Rb.into(), Field::from(13)]),
            ins_vec(OpCode::Test, vec![Register::Ra.into(), Register::Rb.into()]),
            ins(OpCode::Je, "@equal"),
            ins_vec(OpCode::Move, vec![Register::Rc.into(), Field::from(5)]),
        ],
        Some(hashmap),
    )?;

    assert_eq!(vm.registers.get(Register::Rc).to_u(&vm)?, 5);
    Ok(())
}

#[test]
fn test_jne() -> Result<(), Error> {
    let mut hashmap = Vec::new();
    hashmap.push(("@notequal", 6));
    let vm = create_vm(
        vec![
            ins_vec(OpCode::Move, vec![Register::Ra.into(), Field::from(13)]),
            ins_vec(OpCode::Move, vec![Register::Rb.into(), Field::from(13)]),
            ins_vec(OpCode::Test, vec![Register::Ra.into(), Register::Rb.into()]),
            ins(OpCode::Je, "@notequal"),
            ins_vec(OpCode::Move, vec![Register::Rc.into(), Field::from(5)]),
        ],
        Some(hashmap),
    )?;

    assert_ne!(vm.registers.get(Register::Rc).to_u(&vm)?, 5);

    let mut hashmap = Vec::new();
    hashmap.push(("@notequal", 5));
    let vm = create_vm(
        vec![
            ins_vec(OpCode::Move, vec![Register::Ra.into(), Field::from(13)]),
            ins_vec(OpCode::Move, vec![Register::Rb.into(), Field::from(3)]),
            ins_vec(OpCode::Test, vec![Register::Ra.into(), Register::Rb.into()]),
            ins(OpCode::Je, "@notequal"),
            ins_vec(OpCode::Move, vec![Register::Rc.into(), Field::from(5)]),
        ],
        Some(hashmap),
    )?;

    assert_eq!(vm.registers.get(Register::Rc).to_u(&vm)?, 5);
    Ok(())
}

#[test]
fn test_jle() -> Result<(), Error> {
    let mut hashmap = Vec::new();
    hashmap.push(("@less", 6));
    let vm = create_vm(
        vec![
            ins_vec(OpCode::Move, vec![Register::Ra.into(), Field::from(4)]),
            ins_vec(OpCode::Move, vec![Register::Rb.into(), Field::from(7)]),
            ins_vec(OpCode::Test, vec![Register::Ra.into(), Register::Rb.into()]),
            ins(OpCode::Jle, "@less"),
            ins_vec(OpCode::Move, vec![Register::Rc.into(), Field::from(5)]),
        ],
        Some(hashmap),
    )?;

    assert_ne!(vm.registers.get(Register::Rc).to_u(&vm)?, 5);

    let mut hashmap = Vec::new();
    hashmap.push(("@equal", 5));
    let vm = create_vm(
        vec![
            ins_vec(OpCode::Move, vec![Register::Ra.into(), Field::from(7)]),
            ins_vec(OpCode::Move, vec![Register::Rb.into(), Field::from(7)]),
            ins_vec(OpCode::Test, vec![Register::Ra.into(), Register::Rb.into()]),
            ins(OpCode::Jle, "@equal"),
            ins_vec(OpCode::Move, vec![Register::Rc.into(), Field::from(5)]),
        ],
        Some(hashmap),
    )?;
    assert_ne!(vm.registers.get(Register::Rc).to_u(&vm)?, 5);

    let mut hashmap = Vec::new();
    hashmap.push(("@less", 5));
    let vm = create_vm(
        vec![
            ins_vec(OpCode::Move, vec![Register::Ra.into(), Field::from(7)]),
            ins_vec(OpCode::Move, vec![Register::Rb.into(), Field::from(4)]),
            ins_vec(OpCode::Test, vec![Register::Ra.into(), Register::Rb.into()]),
            ins(OpCode::Jle, "@less"),
            ins_vec(OpCode::Move, vec![Register::Rc.into(), Field::from(5)]),
        ],
        Some(hashmap),
    )?;
    assert_eq!(vm.registers.get(Register::Rc).to_u(&vm)?, 5);
    Ok(())
}

#[test]
fn test_jge() -> Result<(), Error> {
    let mut hashmap = Vec::new();
    hashmap.push(("@greater", 6));
    let vm = create_vm(
        vec![
            ins_vec(OpCode::Move, vec![Register::Ra.into(), Field::from(7)]),
            ins_vec(OpCode::Move, vec![Register::Rb.into(), Field::from(4)]),
            ins_vec(OpCode::Test, vec![Register::Ra.into(), Register::Rb.into()]),
            ins(OpCode::Jge, "@greater"),
            ins_vec(OpCode::Move, vec![Register::Rc.into(), Field::from(5)]),
        ],
        Some(hashmap),
    )?;

    assert_ne!(vm.registers.get(Register::Rc).to_u(&vm)?, 5);

    let mut hashmap = Vec::new();
    hashmap.push(("@equal", 5));
    let vm = create_vm(
        vec![
            ins_vec(OpCode::Move, vec![Register::Ra.into(), Field::from(7)]),
            ins_vec(OpCode::Move, vec![Register::Rb.into(), Field::from(7)]),
            ins_vec(OpCode::Test, vec![Register::Ra.into(), Register::Rb.into()]),
            ins(OpCode::Jge, "@equal"),
            ins_vec(OpCode::Move, vec![Register::Rc.into(), Field::from(5)]),
        ],
        Some(hashmap),
    )?;
    assert_ne!(vm.registers.get(Register::Rc).to_u(&vm)?, 5);

    let mut hashmap = Vec::new();
    hashmap.push(("@greater", 5));
    let vm = create_vm(
        vec![
            ins_vec(OpCode::Move, vec![Register::Ra.into(), Field::from(4)]),
            ins_vec(OpCode::Move, vec![Register::Rb.into(), Field::from(7)]),
            ins_vec(OpCode::Test, vec![Register::Ra.into(), Register::Rb.into()]),
            ins(OpCode::Jge, "@greater"),
            ins_vec(OpCode::Move, vec![Register::Rc.into(), Field::from(5)]),
        ],
        Some(hashmap),
    )?;
    assert_eq!(vm.registers.get(Register::Rc).to_u(&vm)?, 5);
    Ok(())
}

#[test]
fn test_jl() -> Result<(), Error> {
    let mut hashmap = Vec::new();
    hashmap.push(("less", 6));
    let vm = create_vm(
        vec![
            ins_vec(OpCode::Move, vec![Register::Ra.into(), Field::from(4)]),
            ins_vec(OpCode::Move, vec![Register::Rb.into(), Field::from(7)]),
            ins_vec(OpCode::Test, vec![Register::Ra.into(), Register::Rb.into()]),
            ins(OpCode::Jl, "less"),
            ins_vec(OpCode::Move, vec![Register::Rc.into(), Field::from(5)]),
        ],
        Some(hashmap),
    )?;

    assert_ne!(vm.registers.get(Register::Rc).to_u(&vm)?, 5);

    let mut hashmap = Vec::new();
    hashmap.push(("less", 5));
    let vm = create_vm(
        vec![
            ins_vec(OpCode::Move, vec![Register::Ra.into(), Field::from(7)]),
            ins_vec(OpCode::Move, vec![Register::Rb.into(), Field::from(4)]),
            ins_vec(OpCode::Test, vec![Register::Ra.into(), Register::Rb.into()]),
            ins(OpCode::Jl, "less"),
            ins_vec(OpCode::Move, vec![Register::Rc.into(), Field::from(5)]),
        ],
        Some(hashmap),
    )?;
    assert_eq!(vm.registers.get(Register::Rc).to_u(&vm)?, 5);
    Ok(())
}

#[test]
fn test_jg() -> Result<(), Error> {
    let mut hashmap = Vec::new();
    hashmap.push(("@greater", 6));
    let vm = create_vm(
        vec![
            ins_vec(OpCode::Move, vec![Register::Ra.into(), Field::from(7)]),
            ins_vec(OpCode::Move, vec![Register::Rb.into(), Field::from(4)]),
            ins_vec(OpCode::Test, vec![Register::Ra.into(), Register::Rb.into()]),
            ins(OpCode::Jge, "@greater"),
            ins_vec(OpCode::Move, vec![Register::Rc.into(), Field::from(5)]),
        ],
        Some(hashmap),
    )?;

    assert_ne!(vm.registers.get(Register::Rc).to_u(&vm)?, 5);

    let mut hashmap = Vec::new();
    hashmap.push(("@greater", 5));
    let vm = create_vm(
        vec![
            ins_vec(OpCode::Move, vec![Register::Ra.into(), Field::from(4)]),
            ins_vec(OpCode::Move, vec![Register::Rb.into(), Field::from(7)]),
            ins_vec(OpCode::Test, vec![Register::Ra.into(), Register::Rb.into()]),
            ins(OpCode::Jge, "@greater"),
            ins_vec(OpCode::Move, vec![Register::Rc.into(), Field::from(5)]),
        ],
        Some(hashmap),
    )?;
    assert_eq!(vm.registers.get(Register::Rc).to_u(&vm)?, 5);
    Ok(())
}

#[test]
fn test_dup() -> Result<(), Error> {
    let mut vm = create_vm(
        vec![
            ins_vec(OpCode::Move, vec![Register::Ra.into(), Field::from(4)]),
            ins(OpCode::Push, Register::Ra),
            ins_e(OpCode::Dup),
        ],
        None,
    )?;

    assert_eq!(vm.pop_stack()?.to_u(&vm)?, 4);
    assert_eq!(vm.pop_stack()?.to_u(&vm)?, 4);
    Ok(())
}

#[test]
fn test_xor() -> Result<(), Error> {
    let vm = create_vm(
        vec![
            ins_vec(OpCode::Move, vec![Register::Ra.into(), Field::from(10)]),
            ins_vec(OpCode::Move, vec![Register::Rb.into(), Field::from(10)]),
            ins_vec(OpCode::Xor, vec![Register::Ra.into(), Register::Rb.into()]),
        ],
        None,
    )?;

    assert_eq!(vm.registers.ra.to_u(&vm)?, 0);

    let vm = create_vm(
        vec![
            ins_vec(OpCode::Move, vec![Register::Ra.into(), Field::from(100)]),
            ins_vec(OpCode::Move, vec![Register::Rb.into(), Field::from(10)]),
            ins_vec(OpCode::Xor, vec![Register::Ra.into(), Register::Rb.into()]),
        ],
        None,
    )?;

    assert_eq!(vm.registers.ra.to_u(&vm)?, 110);
    Ok(())
}

#[test]
fn test_test() -> Result<(), Error> {
    let vm = create_vm(
        vec![
            ins_vec(OpCode::Move, vec![Register::Ra.into(), Field::from(7)]),
            ins_vec(OpCode::Move, vec![Register::Rb.into(), Field::from(5)]),
            ins_vec(OpCode::Test, vec![Register::Ra.into(), Register::Rb.into()]),
        ],
        None,
    )?;

    assert_eq!(vm.registers.check_greater_than_flag(), true);
    assert_eq!(vm.registers.check_equals_flag(), false);
    assert_eq!(vm.registers.check_less_than_flag(), false);
    Ok(())
}
