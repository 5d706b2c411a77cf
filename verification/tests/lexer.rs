use regvm::lexer::lexer::Lexer;
use regvm::types::Type;
use regvm::vm::field::Field;
use regvm::vm::heap::Heap;
use regvm::vm::register::{Register, RegisterOffset, RegisterOffsetOperandType, RegisterWithOffset};

#[test]
fn can_parse_directives() {
    let assm = r#"
    section .data
        _label: 1
    section .code
        _main: 
    "#;
    let instructions = Lexer::new().process(assm.to_string());
    assert!(instructions.is_some());
    let unwrapped = instructions.unwrap();
    assert_eq!(unwrapped.data.len(), 1);
    //assert_eq!(unwrapped.data.get("_label").unwrap(), &Field(Type::Int(1)));
}

#[test]
fn can_parse_labels() {
    let assm = r#"
    section .data
        _label: 1
    section .code
        _main:
            push @label
            print
    "#;
    let instructions = Lexer::new().process(assm.to_string());
    assert!(instructions.is_some());
    let unwrapped = instructions.unwrap();
    assert_eq!(unwrapped.labels.len(), 1);
    assert_eq!(*unwrapped.labels.get("_main").unwrap(), 0 as usize);
}

#[test]
fn can_ignore_comments() {
    let assm = r#"
    ; this is a test comment!
    "#;
    let instructions = Lexer::new().process(assm.to_string());
    assert!(instructions.is_some());
    let unwrapped = instructions.unwrap();
    assert_eq!(unwrapped.instructions.len(), 0);
}

#[test]
fn can_ignore_empty_lines() {
    let assm = r#"

    "#;
    let instructions = Lexer::new().process(assm.to_string());
    assert!(instructions.is_some());
    let unwrapped = instructions.unwrap();
    assert_eq!(unwrapped.instructions.len(), 0);
}

#[test]
fn can_have_comments_on_lines() {
    let assm = r#"
        section .data; my comment
            _hi: "ayy";comment
            _xdd: 2 ; comment
        section .code        ; comment
            _main: ;comment
                push 1; comment
                pop                             ; comment
                push 2;comment
                pop;        comment
    "#;
    let instructions = Lexer::new().process(assm.to_string());
    assert!(instructions.is_some());
    let unwrapped = instructions.unwrap();
    assert_eq!(unwrapped.instructions.len(), 4);
    assert_eq!(unwrapped.labels.len(), 1);
    assert_eq!(
        *unwrapped.data.get("_hi").unwrap().to_text(&Heap::new(16)),
        "ayy".to_string()
    );
    if let Type::Int(int) = unwrapped.data.get("_xdd").unwrap().0 {
        assert_eq!(int, 2);
    } else {
        panic!("Expected int!");
    }

    assert_eq!(*unwrapped.labels.get("_main").unwrap(), 0);
}

#[test]
fn can_parse_commas() {
    let assm = r#"
    section .data
        _label: 1
    section .code
        _main:
            mov ra,0
    "#;
    let instructions = Lexer::new().process(assm.to_string());
    assert!(instructions.is_some());
    let unwrapped = instructions.unwrap();
    assert_eq!(unwrapped.labels.len(), 1);
    println!("{:?}", unwrapped.instructions[0].operand);
    //assert_eq!(unwrapped.instructions[0].operand, 1);
}

#[test]
fn can_parse_commas_with_offsets() {
    let assm = r#"
    section .data
        _label: 1
    section .code
        _main:
            mov ra[2],0
    "#;
    let instructions = Lexer::new().process(assm.to_string());
    assert!(instructions.is_some());
    let unwrapped = instructions.unwrap();
    assert_eq!(unwrapped.labels.len(), 1);
    println!("{:?}", unwrapped.instructions[0].operand);
    //assert_eq!(unwrapped.instructions[0].operand, 1);
}

#[test]
fn parse_words_can_parse_spaces_or_commas() {
    let assm = r#"
    section .code
        _main:
            mov ra,1
            mov rb,1 a a a a
    "#;

    let instructions = Lexer::new().process(assm.to_string());
    assert!(instructions.is_some());
    let unwrapped = instructions.unwrap();
    println!("{:?}", unwrapped.instructions);
    assert_eq!(2, unwrapped.instructions.len());
    assert_eq!(2, unwrapped.instructions[0].operand.len());
}

#[test]
fn parse_words_can_parse_spaces_after_commas() {
    let assm = r#"
    section .code
        _main:
            mov ra, 1
            mov rb, 1
    "#;

    let instructions = Lexer::new().process(assm.to_string());
    assert!(instructions.is_some());
    let mut unwrapped = instructions.unwrap();
    println!("{:?}", unwrapped.instructions);
    assert_eq!(2, unwrapped.instructions.len());
    assert_eq!(2, unwrapped.instructions[0].operand.len());
    assert_eq!(
        Field(Type::Int(1)),
        unwrapped.instructions[0].operand.pop().unwrap()
    );
    assert_eq!(
        Field(Type::Register(Register::Ra)),
        unwrapped.instructions[0].operand.pop().unwrap()
    );
}

#[test]
fn can_parse_offsets() {
    let assm = r#"
    section .code
        _main:
            mov ra[ra-rb+rc], rb[r0]
            mov ra[ra], rb[ra+rb]
            mov ra[ra-2], rb[1]
            mov r2, rb[1]
    "#;

    let instructions = Lexer::new().process(assm.to_string());
    assert!(instructions.is_some());
    let mut unwrapped = instructions.unwrap();
    println!("{:?}", unwrapped.instructions);
    assert_eq!(4, unwrapped.instructions.len());
    assert_eq!(2, unwrapped.instructions[0].operand.len());
    assert_eq!(2, unwrapped.instructions[1].operand.len());
    assert_eq!(2, unwrapped.instructions[2].operand.len());
    assert_eq!(2, unwrapped.instructions[3].operand.len());

    //mov ra[ra-rb+rc], rb[r0]
    assert_eq!(
        Field(Type::RegisterWithOffsets(RegisterWithOffset::new(
            Register::Rb,
            vec![RegisterOffset {
                offset: Field(Type::Register(Register::R0)),
                operand: RegisterOffsetOperandType::End
            }]
        ))),
        unwrapped.instructions[0].operand.pop().unwrap()
    );
    assert_eq!(
        Field(Type::RegisterWithOffsets(RegisterWithOffset::new(
            Register::Ra,
            vec![
                RegisterOffset {
                    offset: Field(Type::Register(Register::Ra)),
                    operand: RegisterOffsetOperandType::Sub
                },
                RegisterOffset {
                    offset: Field(Type::Register(Register::Rb)),
                    operand: RegisterOffsetOperandType::Add
                },
                RegisterOffset {
                    offset: Field(Type::Register(Register::Rc)),
                    operand: RegisterOffsetOperandType::End
                }
            ]
        ))),
        unwrapped.instructions[0].operand.pop().unwrap()
    );

    // mov ra[ra], rb[ra+rb]
    assert_eq!(
        Field(Type::RegisterWithOffsets(RegisterWithOffset::new(
            Register::Rb,
            vec![
                RegisterOffset {
                    offset: Field(Type::Register(Register::Ra)),
                    operand: RegisterOffsetOperandType::Add
                },
                RegisterOffset {
                    offset: Field(Type::Register(Register::Rb)),
                    operand: RegisterOffsetOperandType::End
                }
            ]
        ))),
        unwrapped.instructions[1].operand.pop().unwrap()
    );
    assert_eq!(
        Field(Type::RegisterWithOffsets(RegisterWithOffset::new(
            Register::Ra,
            vec![RegisterOffset {
                offset: Field(Type::Register(Register::Ra)),
                operand: RegisterOffsetOperandType::End
            }]
        ))),
        unwrapped.instructions[1].operand.pop().unwrap()
    );

    // mov ra[ra-2], rb[1]
    assert_eq!(
        Field(Type::RegisterWithOffsets(RegisterWithOffset::new(
            Register::Rb,
            vec![RegisterOffset {
                offset: Field(Type::Int(1)),
                operand: RegisterOffsetOperandType::End
            }]
        ))),
        unwrapped.instructions[2].operand.pop().unwrap()
    );
    assert_eq!(
        Field(Type::RegisterWithOffsets(RegisterWithOffset::new(
            Register::Ra,
            vec![
                RegisterOffset {
                    offset: Field(Type::Register(Register::Ra)),
                    operand: RegisterOffsetOperandType::Sub
                },
                RegisterOffset {
                    offset: Field(Type::Int(2)),
                    operand: RegisterOffsetOperandType::End
                }
            ]
        ))),
        unwrapped.instructions[2].operand.pop().unwrap()
    );

    // mov r2, rb[1]
    assert_eq!(
        Field(Type::RegisterWithOffsets(RegisterWithOffset::new(
            Register::Rb,
            vec![RegisterOffset {
                offset: Field(Type::Int(1)),
                operand: RegisterOffsetOperandType::End
            }]
        ))),
        unwrapped.instructions[3].operand.pop().unwrap()
    );
    assert_eq!(
        Field(Type::Register(Register::R2)),
        unwrapped.instructions[3].operand.pop().unwrap()
    );
}

#[test]
fn can_assert_chars() {
    let assm = r#"
    section .code
        _main:
            mov ra[0], 'a'
    "#;

    let instructions = Lexer::new().process(assm.to_string());
    assert!(instructions.is_some());
    let mut unwrapped = instructions.unwrap();
    println!("{:?}", unwrapped.instructions);
    assert_eq!(1, unwrapped.instructions.len());
    assert_eq!(2, unwrapped.instructions[0].operand.len());
    assert_eq!(Field(Type::Char('a')), unwrapped.instructions[0].operand.pop().unwrap());
}
