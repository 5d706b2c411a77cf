use regvm::lexer::lexer::Lexer;
use regvm::lexer::operand::{operand_field, read_hex};
use regvm::lexer::scan::{chars_of, find_char, matches_at, text_of, trim};
use regvm::lexer::token::TokenType;
use regvm::types::Type;
use regvm::vm::builder::builder;
use regvm::vm::field::Field;
use regvm::vm::heap::Heap;
use regvm::vm::instruction::Instruction;
use regvm::vm::opcode::OpCode;
use regvm::vm::register::RegisterOffsetOperandType::{Add, Div, End, Mul, Rem, Sub};
use regvm::vm::register::{
    Register, RegisterOffset, RegisterOffsetOperandType, RegisterWithOffset, Registers,
};
use regvm::vm::stack::Stack;

fn kinds(text: &str) -> Vec<(TokenType, String)> {
    Lexer::new()
        .tokenize(text)
        .into_iter()
        .map(|t| (t.token_type, t.content.unwrap()))
        .collect()
}

fn t(kind: TokenType, content: &str) -> (TokenType, String) {
    (kind, content.to_string())
}

#[test]
fn lines_are_read_as_tokens() {
    assert_eq!(kinds(""), vec![t(TokenType::Empty, "")]);
    assert_eq!(
        kinds("a\n\nb\n"),
        vec![
            t(TokenType::Instruction, "a"),
            t(TokenType::Empty, ""),
            t(TokenType::Instruction, "b"),
            t(TokenType::Empty, "")
        ]
    );
    assert_eq!(
        kinds("  section .data ; the data\r\n\t_x: 1\n; only this  \n _l:\n mov ra, ';' ; c"),
        vec![
            t(TokenType::Directive, "data"),
            t(TokenType::Label, "_x: 1"),
            t(TokenType::Comment, "only this"),
            t(TokenType::Label, "_l:"),
            t(TokenType::Instruction, "mov ra, ';'"),
        ]
    );
    assert_eq!(
        kinds("section.data\nsection .\nmov ra, \"a:b\"\n:x\nmov: 1\nx \"y;z\" ;;"),
        vec![
            t(TokenType::Instruction, "section.data"),
            t(TokenType::Directive, ""),
            t(TokenType::Instruction, "mov ra, \"a:b\""),
            t(TokenType::Instruction, ":x"),
            t(TokenType::Label, "mov: 1"),
            t(TokenType::Instruction, "x \"y;z\""),
        ]
    );
}

#[test]
fn programs_are_built_from_tokens() {
    let p = Lexer::new()
        .process(
            "
            mov ra, 1
        section .data
            _a: 0x10
            _b: \"two words\" ; comment
            _c: 'c'
            _d: ra
            _e:
            _a: 3
        section .other
            _f: nop
            @g:
        section .code
            _h: ; comment
                mov ra[rb * 2], _a, 'x y' extra
        "
            .to_string(),
        )
        .unwrap();
    assert_eq!(p.instructions.len(), 3);
    assert_eq!(p.data.len(), 4);
    assert_eq!(p.data.get("_a"), Some(&Field::from(3)));
    assert_eq!(p.data.get("_b"), Some(&Field::from("two words")));
    assert_eq!(p.data.get("_c"), Some(&Field::from('c')));
    assert_eq!(p.data.get("_d"), Some(&Field::from(Register::Ra)));
    assert_eq!(p.labels.len(), 4);
    assert_eq!(p.labels.get("_e"), Some(&1));
    assert_eq!(p.labels.get("_f"), Some(&1));
    assert_eq!(p.labels.get("@g"), Some(&2));
    assert_eq!(p.labels.get("_h"), Some(&2));
    assert_eq!(p.instructions[0].opcode, OpCode::Move);
    assert_eq!(p.instructions[1].opcode, OpCode::Nop);
    let heap = Heap::new(0);
    assert_eq!(p.instructions[2].assemble(&heap), "mov ra[rb*2] _a x y extra");
    assert_eq!(p.instructions[2].operand.len(), 4);
}

fn read(text: &str) -> Field {
    Instruction::construct_field(text)
}

#[test]
fn operands_are_read() {
    assert_eq!(read("ra"), Field::from(Register::Ra));
    assert_eq!(read("r9"), Field::from(Register::R9));
    assert_eq!(read("rz"), Field::from("rz"));
    assert_eq!(read("unknown"), Field::from("unknown"));
    assert_eq!(read("12"), Field::from(12));
    assert_eq!(read("-12"), Field::from(-12));
    assert_eq!(read("0x1f"), Field::from(31));
    assert_eq!(read("0x1F"), Field::from(31));
    assert_eq!(read("0x7fffffffffffffff"), Field::from(i64::MAX));
    assert_eq!(read("0x8000000000000000"), Field::from("0x8000000000000000"));
    assert_eq!(read("0x"), Field::from("0x"));
    assert_eq!(read("0xg"), Field::from("0xg"));
    assert_eq!(read("0X10"), Field::from("0X10"));
    assert_eq!(read("99999999999999999999"), Field::from("99999999999999999999"));
    assert_eq!(read("'c'"), Field::from('c'));
    assert_eq!(read("'é'"), Field::from('é'));
    assert_eq!(read("'ab'"), Field::from("ab"));
    assert_eq!(read("''"), Field::from(""));
    assert_eq!(read("'"), Field::from("'"));
    assert_eq!(read("\"c\""), Field::from("c"));
    assert_eq!(read("\"12\""), Field::from("12"));
    assert_eq!(read("\"ra[0]\""), Field::from("ra[0]"));
    assert_eq!(read("_sym"), Field::from("_sym"));
    assert_eq!(read(""), Field::from(""));
    assert_eq!(read_hex(&chars_of("0xff")), Some(255));
    assert_eq!(read_hex(&chars_of("ff")), None);
    assert_eq!(operand_field(&chars_of("7")), Field::from(7));
}

fn terms(register: Register, terms: Vec<(Field, RegisterOffsetOperandType)>) -> Field {
    Field(Type::RegisterWithOffsets(RegisterWithOffset::new(
        register,
        terms
            .into_iter()
            .map(|(offset, operand)| RegisterOffset { offset, operand })
            .collect(),
    )))
}

#[test]
fn references_into_registers_are_read() {
    assert_eq!(read("ra[0]"), terms(Register::Ra, vec![(Field::from(0), End)]));
    assert_eq!(
        read("rb[ ra + 0x10 * rc / 2 % _s - 1 ]"),
        terms(
            Register::Rb,
            vec![
                (Field::from(Register::Ra), Add),
                (Field::from(16), Mul),
                (Field::from(Register::Rc), Div),
                (Field::from(2), Rem),
                (Field::from("_s"), Sub),
                (Field::from(1), End),
            ]
        )
    );
    assert_eq!(read("x[1]"), terms(Register::Unknown, vec![(Field::from(1), End)]));
    assert_eq!(read("ra[]"), terms(Register::Ra, vec![(Field::from(""), End)]));
    assert_eq!(
        read("ra[1+]"),
        terms(Register::Ra, vec![(Field::from(1), Add), (Field::from(""), End)])
    );
    assert_eq!(
        read("ra[-1]"),
        terms(Register::Ra, vec![(Field::from(""), Sub), (Field::from(1), End)])
    );
    assert_eq!(read("ra[1"), Field::from("ra[1"));
    assert_eq!(RegisterOffsetOperandType::from('+'), Add);
    assert_eq!(RegisterOffsetOperandType::from('-'), Sub);
    assert_eq!(RegisterOffsetOperandType::from('*'), Mul);
    assert_eq!(RegisterOffsetOperandType::from('/'), Div);
    assert_eq!(RegisterOffsetOperandType::from('%'), Rem);
    assert_eq!(RegisterOffsetOperandType::from('^'), End);
    assert_eq!(Add.as_str(), "+");
    assert_eq!(End.as_str(), "");
}

#[test]
fn instructions_are_made_and_written() {
    let heap = Heap::new(0);
    let i = Instruction::new_from_words(vec!["mov", "ra[rb+1]", "'c'", "\"s\"", "0x10"]);
    assert_eq!(i.opcode, OpCode::Move);
    assert_eq!(i.operand.len(), 4);
    assert_eq!(i.assemble(&heap), "mov ra[rb+1] c s 16");
    let unknown = Instruction::new_from_words(vec!["frob"]);
    assert_eq!(unknown.opcode, OpCode::Igl);
    assert_eq!(unknown.assemble(&heap), "igl");
    let copy = i.duplicate();
    assert_eq!(copy.opcode, i.opcode);
    assert_eq!(copy.operand.to_vec(), i.operand.to_vec());
    let mut b = builder::new();
    b.push(OpCode::Push, vec![Field::from(Register::Ra)]);
    b.push(OpCode::Nop, vec![]);
    assert_eq!(b.instructions.len(), 2);
    assert_eq!(b.instructions[0].assemble(&heap), "push ra");
}

#[test]
fn mnemonics_name_their_opcodes() {
    let all = [
        (OpCode::Move, "mov"),
        (OpCode::Push, "push"),
        (OpCode::Pop, "pop"),
        (OpCode::Add, "add"),
        (OpCode::Mul, "mul"),
        (OpCode::Sub, "sub"),
        (OpCode::Div, "div"),
        (OpCode::Mod, "mod"),
        (OpCode::Input, "input"),
        (OpCode::Call, "call"),
        (OpCode::Ret, "ret"),
        (OpCode::Test, "test"),
        (OpCode::Assert, "assert"),
        (OpCode::Jmp, "jmp"),
        (OpCode::Je, "je"),
        (OpCode::Jne, "jne"),
        (OpCode::Jle, "jle"),
        (OpCode::Jge, "jge"),
        (OpCode::Jl, "jl"),
        (OpCode::Jg, "jg"),
        (OpCode::Xor, "xor"),
        (OpCode::Nop, "nop"),
        (OpCode::Hlt, "hlt"),
        (OpCode::Dup, "dup"),
        (OpCode::Igl, "igl"),
        (OpCode::Alloc, "alloc"),
        (OpCode::Free, "free"),
        (OpCode::Cast, "cast"),
    ];
    for (op, name) in all {
        assert_eq!(OpCode::from(name), op);
        assert_eq!(op.as_str(), name);
    }
    assert_eq!(OpCode::from("MOV"), OpCode::Igl);
    assert_eq!(OpCode::from(""), OpCode::Igl);
    assert_eq!(OpCode::from("load"), OpCode::Igl);
}

#[test]
fn names_write_their_registers() {
    let all = [
        (Register::Ra, "ra", 0),
        (Register::Rb, "rb", 1),
        (Register::Rc, "rc", 2),
        (Register::Rd, "rd", 3),
        (Register::Re, "re", 4),
        (Register::Rf, "rf", 5),
        (Register::R0, "r0", 6),
        (Register::R1, "r1", 7),
        (Register::R2, "r2", 8),
        (Register::R3, "r3", 9),
        (Register::R4, "r4", 10),
        (Register::R5, "r5", 11),
        (Register::R6, "r6", 12),
        (Register::R7, "r7", 13),
        (Register::R8, "r8", 14),
        (Register::R9, "r9", 15),
        (Register::Unknown, "unknown", 16),
    ];
    let mut registers = Registers::new();
    for (r, name, ordinal) in all {
        assert_eq!(Register::from(name), r);
        assert_eq!(Register::match_register(name), r);
        assert_eq!(r.as_str(), name);
        assert_eq!(r.ordinal(), ordinal);
        if r != Register::Unknown {
            assert_eq!(*registers.get(r), Field::from(0));
            registers.set(r, Field::from(ordinal));
            assert_eq!(*registers.get(r), Field::from(ordinal));
        }
    }
    assert_eq!(registers.r9, Field::from(15u8));
    assert_eq!(Register::from("RA"), Register::Unknown);
    assert_eq!(Register::from("r10"), Register::Unknown);
}

#[test]
fn flags_are_set_and_cleared() {
    let mut registers = Registers::new();
    assert!(!registers.check_equals_flag());
    registers.set_equals_flag(true);
    registers.set_less_than_flag(true);
    registers.set_greater_than_flag(true);
    assert!(registers.check_equals_flag());
    assert!(registers.check_less_than_flag());
    assert!(registers.check_greater_than_flag());
    registers.set_less_than_flag(false);
    assert!(!registers.check_less_than_flag());
    assert!(registers.check_greater_than_flag());
    registers.reset_flags();
    assert!(!registers.check_equals_flag());
    assert!(!registers.check_greater_than_flag());
    registers.set_pc(Field::from(3usize));
    registers.set_stack_len(Field::from(4usize));
    registers.set_call_stack_len(Field::from(5usize));
    assert_eq!(*registers.check_pc(), Field::from(3usize));
    assert_eq!(*registers.check_stack_len(), Field::from(4usize));
    assert_eq!(*registers.check_call_stack_len(), Field::from(5usize));
}

#[test]
fn a_stack_gives_back_what_was_put_last() {
    let mut stack: Stack<u8> = Stack::new();
    assert!(stack.is_empty());
    assert_eq!(stack.pop(), None);
    stack.push(1);
    stack.push(2);
    assert_eq!(stack.len(), 2);
    assert!(!stack.is_empty());
    assert_eq!(stack.to_vec(), &vec![1, 2]);
    assert_eq!(stack.pop(), Some(2));
    assert_eq!(stack.pop(), Some(1));
    assert_eq!(stack.pop(), None);
}

#[test]
fn text_is_scanned() {
    let v = chars_of("  héllo\t ");
    assert_eq!(v.len(), 9);
    assert_eq!(trim(&v, 0, v.len()), (2, 7));
    assert_eq!(trim(&v, 7, v.len()), (9, 9));
    assert_eq!(text_of(&v, 2, 7), "héllo");
    assert_eq!(find_char(&v, 'l', 0, v.len()), 4);
    assert_eq!(find_char(&v, 'l', 6, v.len()), 9);
    assert_eq!(find_char(&v, 'z', 0, 5), 5);
    assert!(matches_at(&v, 2, 7, "héllo"));
    assert!(!matches_at(&v, 2, 7, "hello"));
    assert!(!matches_at(&v, 2, 6, "héllo"));
}
