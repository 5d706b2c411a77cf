use regvm::types::arith::{compute, ArithError, ArithOp};
use regvm::types::date::Date;
use regvm::types::duration::Duration;
use regvm::types::order::{compare, Order};
use regvm::types::{Allocation, HostObject, Object, Type};
use regvm::vm::cast::{convert, CastType};
use regvm::vm::field::{to_bytes, Field};
use regvm::vm::heap::Heap;
use regvm::vm::register::{Register, RegisterOffset, RegisterOffsetOperandType, RegisterWithOffset};

fn int_op(op: ArithOp, a: i64, b: i64) -> Type {
    compute(op, &Type::Int(a), &Type::Int(b)).unwrap()
}

fn flt(x: f64) -> Type {
    Type::Float(x.to_bits())
}

#[test]
fn integer_arithmetic_wraps() {
    assert_eq!(int_op(ArithOp::Add, i64::MAX, 1), Type::Int(i64::MIN));
    assert_eq!(int_op(ArithOp::Sub, i64::MIN, 1), Type::Int(i64::MAX));
    assert_eq!(int_op(ArithOp::Mul, i64::MAX, 2), Type::Int(-2));
    assert_eq!(int_op(ArithOp::Add, 4, 5), Type::Int(9));
    assert_eq!(int_op(ArithOp::Xor, 100, 10), Type::Int(110));
}

#[test]
fn integer_division_rounds_toward_zero() {
    assert_eq!(int_op(ArithOp::Div, 7, 2), Type::Int(3));
    assert_eq!(int_op(ArithOp::Div, -7, 2), Type::Int(-3));
    assert_eq!(int_op(ArithOp::Div, 7, -2), Type::Int(-3));
    assert_eq!(int_op(ArithOp::Div, -7, -2), Type::Int(3));
    assert_eq!(int_op(ArithOp::Rem, 7, 2), Type::Int(1));
    assert_eq!(int_op(ArithOp::Rem, -7, 2), Type::Int(-1));
    assert_eq!(int_op(ArithOp::Rem, 7, -2), Type::Int(1));
    assert_eq!(int_op(ArithOp::Rem, -7, -2), Type::Int(-1));
}

#[test]
fn division_by_zero_is_total() {
    assert_eq!(int_op(ArithOp::Div, 7, 0), Type::Int(-1));
    assert_eq!(int_op(ArithOp::Rem, 7, 0), Type::Int(7));
    assert_eq!(int_op(ArithOp::Div, i64::MIN, -1), Type::Int(i64::MIN));
    assert_eq!(int_op(ArithOp::Rem, i64::MIN, -1), Type::Int(0));
    assert_eq!(
        compute(ArithOp::Div, &Type::Byte(5), &Type::Byte(0)).unwrap(),
        Type::Byte(255)
    );
    assert_eq!(
        compute(ArithOp::Rem, &Type::Byte(5), &Type::Byte(0)).unwrap(),
        Type::Byte(5)
    );
    assert_eq!(
        compute(ArithOp::Div, &Type::Short(5), &Type::Short(0)).unwrap(),
        Type::Short(u16::MAX)
    );
    assert_eq!(
        compute(ArithOp::Div, &Type::UInt(5), &Type::UInt(0)).unwrap(),
        Type::UInt(usize::MAX)
    );
}

#[test]
fn small_kinds_wrap() {
    assert_eq!(
        compute(ArithOp::Add, &Type::Byte(200), &Type::Byte(100)).unwrap(),
        Type::Byte(44)
    );
    assert_eq!(
        compute(ArithOp::Mul, &Type::Short(300), &Type::Short(300)).unwrap(),
        Type::Short(24464)
    );
    assert_eq!(
        compute(ArithOp::Sub, &Type::UInt(0), &Type::UInt(1)).unwrap(),
        Type::UInt(usize::MAX)
    );
}

#[test]
fn kinds_are_promoted() {
    assert_eq!(
        compute(ArithOp::Add, &Type::Char('a'), &Type::Char('b')).unwrap(),
        Type::Int(195)
    );
    assert_eq!(
        compute(ArithOp::Mul, &Type::Char('a'), &Type::Char('b')).unwrap(),
        Type::Int(9506)
    );
    assert_eq!(
        compute(ArithOp::Add, &Type::UInt(5), &Type::Int(-7)).unwrap(),
        Type::Int(-2)
    );
    assert_eq!(
        compute(ArithOp::Sub, &Type::Int(5), &Type::UInt(7)).unwrap(),
        Type::Int(-2)
    );
}

#[test]
fn floating_point_is_left_to_the_host() {
    assert_eq!(
        compute(ArithOp::Add, &flt(1.0), &flt(2.0)),
        Err(ArithError::FloatingPoint)
    );
    assert_eq!(
        compute(ArithOp::Mul, &Type::Int(2), &flt(2.0)),
        Err(ArithError::FloatingPoint)
    );
    assert_eq!(
        compute(ArithOp::Xor, &flt(1.0), &flt(2.0)),
        Err(ArithError::Incompatible)
    );
    assert_eq!(
        compute(ArithOp::Add, &Type::String("a".to_string()), &Type::Int(1)),
        Err(ArithError::Incompatible)
    );
    assert_eq!(
        compute(ArithOp::Add, &Type::Bool(true), &Type::Bool(true)),
        Err(ArithError::Incompatible)
    );
}

#[test]
fn numbers_are_ordered_within_their_kind() {
    assert_eq!(compare(&Type::Int(-3), &Type::Int(2)), Some(Order::Less));
    assert_eq!(compare(&Type::Int(2), &Type::Int(2)), Some(Order::Equal));
    assert_eq!(compare(&Type::UInt(3), &Type::UInt(2)), Some(Order::Greater));
    assert_eq!(compare(&Type::Byte(3), &Type::Byte(200)), Some(Order::Less));
    assert_eq!(compare(&Type::Int(2), &Type::UInt(2)), None);
    assert_eq!(compare(&Type::Char('a'), &Type::Char('b')), Some(Order::Less));
    assert_eq!(
        compare(&Type::Bool(false), &Type::Bool(true)),
        Some(Order::Less)
    );
}

#[test]
fn floats_are_ordered_as_ieee_orders_them() {
    assert_eq!(compare(&flt(1.0), &flt(2.0)), Some(Order::Less));
    assert_eq!(compare(&flt(-1.0), &flt(1.0)), Some(Order::Less));
    assert_eq!(compare(&flt(-2.0), &flt(-1.0)), Some(Order::Less));
    assert_eq!(compare(&flt(-1.0), &flt(-2.0)), Some(Order::Greater));
    assert_eq!(compare(&flt(0.0), &flt(-0.0)), Some(Order::Equal));
    assert_eq!(compare(&flt(1.5), &flt(1.5)), Some(Order::Equal));
    assert_eq!(
        compare(&flt(f64::INFINITY), &flt(f64::MAX)),
        Some(Order::Greater)
    );
    assert_eq!(
        compare(&flt(f64::NEG_INFINITY), &flt(f64::MIN)),
        Some(Order::Less)
    );
    assert_eq!(compare(&flt(f64::NAN), &flt(1.0)), None);
    assert_eq!(compare(&flt(1.0), &flt(f64::NAN)), None);
    assert_eq!(compare(&flt(f64::NAN), &flt(f64::NAN)), None);
    assert_eq!(
        compare(&flt(f64::MIN_POSITIVE / 2.0), &flt(0.0)),
        Some(Order::Greater)
    );
}

#[test]
fn strings_are_ordered_by_their_bytes() {
    let s = |t: &str| Type::String(t.to_string());
    assert_eq!(compare(&s("abc"), &s("abd")), Some(Order::Less));
    assert_eq!(compare(&s("ab"), &s("abc")), Some(Order::Less));
    assert_eq!(compare(&s("abc"), &s("ab")), Some(Order::Greater));
    assert_eq!(compare(&s(""), &s("")), Some(Order::Equal));
    assert_eq!(compare(&s("z"), &s("é")), Some(Order::Less));
    assert_eq!(compare(&s("a"), &Type::Char('a')), None);
}

#[test]
fn pointers_are_ordered_by_their_addresses() {
    let p = |ptr: usize, size: usize| Type::Pointer(Allocation::new(ptr, size, 2));
    assert_eq!(compare(&p(4, 10), &p(4, 20)), Some(Order::Equal));
    assert_eq!(compare(&p(4, 10), &p(8, 10)), Some(Order::Less));
    assert_eq!(
        compare(&Type::Register(Register::Ra), &Type::Register(Register::R0)),
        Some(Order::Less)
    );
}

fn rwo(register: Register, terms: Vec<(Field, RegisterOffsetOperandType)>) -> Type {
    Type::RegisterWithOffsets(RegisterWithOffset::new(
        register,
        terms
            .into_iter()
            .map(|(offset, operand)| RegisterOffset { offset, operand })
            .collect(),
    ))
}

#[test]
fn references_into_registers_are_compared_term_by_term() {
    let a = rwo(
        Register::Ra,
        vec![(Field::from(1), RegisterOffsetOperandType::Add), (Field::from(2), RegisterOffsetOperandType::End)],
    );
    let b = rwo(
        Register::Ra,
        vec![(Field::from(1), RegisterOffsetOperandType::Add), (Field::from(2), RegisterOffsetOperandType::End)],
    );
    let c = rwo(
        Register::Rb,
        vec![(Field::from(1), RegisterOffsetOperandType::Add)],
    );
    let d = rwo(
        Register::Ra,
        vec![(Field::from(1), RegisterOffsetOperandType::Sub), (Field::from(2), RegisterOffsetOperandType::End)],
    );
    assert_eq!(compare(&a, &b), Some(Order::Equal));
    assert!(a == b);
    assert_eq!(compare(&a, &c), Some(Order::Less));
    assert_eq!(compare(&a, &d), None);
    assert!(a != d);
}

#[test]
fn objects_have_no_order() {
    let o = Type::Object(HostObject::Date(Date { seconds: 1, nanos: 0 }));
    let p = Type::Object(HostObject::Date(Date { seconds: 1, nanos: 0 }));
    assert_eq!(compare(&o, &p), None);
    assert!(o != p);
}

#[test]
fn conversions_between_numbers() {
    assert_eq!(convert(Type::Int(-1), CastType::CastToUsize), Some(Type::UInt(usize::MAX)));
    assert_eq!(convert(Type::UInt(usize::MAX), CastType::CastToI64), Some(Type::Int(-1)));
    assert_eq!(convert(Type::Int(5), CastType::CastToI64), Some(Type::Int(5)));
    assert_eq!(convert(Type::Byte(200), CastType::CastToI64), Some(Type::Int(200)));
    assert_eq!(convert(Type::Byte(200), CastType::CastToUsize), Some(Type::UInt(200)));
    assert_eq!(convert(Type::Char('d'), CastType::CastToI64), Some(Type::Int(100)));
    assert_eq!(convert(Type::Char('d'), CastType::CastToUsize), Some(Type::UInt(100)));
    assert_eq!(convert(Type::Bool(true), CastType::CastToI64), None);
    assert_eq!(convert(Type::Short(1), CastType::CastToI64), None);
    assert_eq!(convert(Type::Bool(true), CastType::Keep), Some(Type::Bool(true)));
}

#[test]
fn conversions_to_characters() {
    assert_eq!(convert(Type::Int(100), CastType::CastToChar), Some(Type::Char('d')));
    assert_eq!(convert(Type::Int(0x1F600), CastType::CastToChar), Some(Type::Char('\u{1F600}')));
    assert_eq!(convert(Type::Int(0xD800), CastType::CastToChar), None);
    assert_eq!(convert(Type::Int(0x110000), CastType::CastToChar), None);
    assert_eq!(convert(Type::Int(0x1_0000_0064), CastType::CastToChar), Some(Type::Char('d')));
    assert_eq!(convert(Type::Byte(121), CastType::CastToChar), Some(Type::Char('y')));
    assert_eq!(convert(Type::UInt(100), CastType::CastToChar), None);
    assert_eq!(
        convert(Type::String("é".to_string()), CastType::CastToChar),
        Some(Type::Char('é'))
    );
    assert_eq!(convert(Type::String("ab".to_string()), CastType::CastToChar), None);
    assert_eq!(convert(Type::String("".to_string()), CastType::CastToChar), None);
}

#[test]
fn conversions_to_and_from_text() {
    let s = |t: &str| Type::String(t.to_string());
    assert_eq!(convert(Type::Int(-42), CastType::CastToString), Some(s("-42")));
    assert_eq!(convert(Type::Int(0), CastType::CastToString), Some(s("0")));
    assert_eq!(
        convert(Type::Int(i64::MIN), CastType::CastToString),
        Some(s("-9223372036854775808"))
    );
    assert_eq!(
        convert(Type::UInt(18446744073709551615), CastType::CastToString),
        Some(s("18446744073709551615"))
    );
    assert_eq!(convert(Type::Byte(7), CastType::CastToString), Some(s("7")));
    assert_eq!(convert(Type::Char('x'), CastType::CastToString), Some(s("x")));
    assert_eq!(convert(s("42"), CastType::CastToI64), Some(Type::Int(42)));
    assert_eq!(convert(s("+5"), CastType::CastToI64), Some(Type::Int(5)));
    assert_eq!(convert(s("-0"), CastType::CastToI64), Some(Type::Int(0)));
    assert_eq!(convert(s("0007"), CastType::CastToI64), Some(Type::Int(7)));
    assert_eq!(
        convert(s("-9223372036854775808"), CastType::CastToI64),
        Some(Type::Int(i64::MIN))
    );
    assert_eq!(
        convert(s("9223372036854775807"), CastType::CastToI64),
        Some(Type::Int(i64::MAX))
    );
    assert_eq!(convert(s("9223372036854775808"), CastType::CastToI64), None);
    assert_eq!(convert(s("-9223372036854775809"), CastType::CastToI64), None);
    assert_eq!(convert(s("99999999999999999999999999"), CastType::CastToI64), None);
    assert_eq!(convert(s(""), CastType::CastToI64), None);
    assert_eq!(convert(s("-"), CastType::CastToI64), None);
    assert_eq!(convert(s("12a"), CastType::CastToI64), None);
    assert_eq!(convert(s(" 12"), CastType::CastToI64), None);
    assert_eq!(convert(s("１２"), CastType::CastToI64), None);
    assert_eq!(convert(s("12"), CastType::CastToUsize), Some(Type::UInt(12)));
    assert_eq!(convert(s("+12"), CastType::CastToUsize), Some(Type::UInt(12)));
    assert_eq!(convert(s("-1"), CastType::CastToUsize), None);
    assert_eq!(
        convert(s("18446744073709551615"), CastType::CastToUsize),
        Some(Type::UInt(usize::MAX))
    );
    assert_eq!(convert(s("18446744073709551616"), CastType::CastToUsize), None);
    assert_eq!(convert(s("abc"), CastType::CastToString), Some(s("abc")));
}

#[test]
fn names_of_the_kinds_to_convert_to() {
    assert_eq!(CastType::from("i64"), CastType::CastToI64);
    assert_eq!(CastType::from("usize"), CastType::CastToUsize);
    assert_eq!(CastType::from("str"), CastType::CastToString);
    assert_eq!(CastType::from("char"), CastType::CastToChar);
    assert_eq!(CastType::from("f64"), CastType::Keep);
    assert_eq!(CastType::from(""), CastType::Keep);
}

#[test]
fn values_are_displayed() {
    let heap = Heap::new(16);
    let show = |t: Type| Field(t).to_text(&heap);
    assert_eq!(show(Type::Byte(255)), "255");
    assert_eq!(show(Type::Short(65535)), "65535");
    assert_eq!(show(Type::Int(-5)), "-5");
    assert_eq!(show(Type::Int(i64::MIN)), "-9223372036854775808");
    assert_eq!(show(Type::UInt(0)), "0");
    assert_eq!(show(Type::UInt(1000)), "1000");
    assert_eq!(show(flt(1.0)), "0x3ff0000000000000");
    assert_eq!(show(flt(0.0)), "0x00");
    assert_eq!(show(Type::Char('é')), "é");
    assert_eq!(show(Type::String("text".to_string())), "text");
    assert_eq!(show(Type::Bool(true)), "true");
    assert_eq!(show(Type::Bool(false)), "false");
    assert_eq!(show(Type::Register(Register::R9)), "r9");
    assert_eq!(show(Type::Register(Register::Unknown)), "unknown");
    assert_eq!(
        show(rwo(
            Register::Ra,
            vec![
                (Field::from(Register::Ra), RegisterOffsetOperandType::Sub),
                (Field::from(2), RegisterOffsetOperandType::End)
            ]
        )),
        "ra[ra-2]"
    );
    assert_eq!(show(Type::Pointer(Allocation::new(0, 4, 2))), "");
}

#[test]
fn pointers_are_displayed_as_the_text_of_their_bytes() {
    let mut heap = Heap::new(32);
    let a = heap.allocate(6).unwrap();
    let p = Field(Type::Pointer(Allocation::new(a, 6, 2)));
    assert_eq!(p.to_text(&heap), "");
    heap.write(a, "héy".as_bytes()).unwrap();
    assert_eq!(p.to_text(&heap), "héy");
    heap.write(a, &[b'a', 0, b'b', 0, 0, 0]).unwrap();
    assert_eq!(p.to_text(&heap), "a");
    heap.write(a, &[b'a', 0xff, b'b', 0xc3, 0, 0]).unwrap();
    assert_eq!(p.to_text(&heap), "a\u{fffd}b\u{fffd}");
    let beyond = Field(Type::Pointer(Allocation::new(a, 100, 2)));
    heap.write(a, b"abcdef").unwrap();
    heap.write(a + 6, b"gh").unwrap();
    assert_eq!(beyond.to_text(&heap), "abcdef");
    let short = Field(Type::Pointer(Allocation::new(a, 2, 2)));
    assert_eq!(short.to_text(&heap), "ab");
    heap.deallocate(a, 6).unwrap();
    assert_eq!(p.to_text(&heap), "");
}

#[test]
fn values_are_written_as_bytes() {
    assert_eq!(to_bytes(&Type::Byte(7)), Some(vec![7]));
    assert_eq!(to_bytes(&Type::Short(0x1234)), Some(vec![0x34, 0x12]));
    assert_eq!(to_bytes(&Type::Int(1)), Some(vec![1, 0, 0, 0, 0, 0, 0, 0]));
    assert_eq!(to_bytes(&Type::Int(-1)), Some(vec![255; 8]));
    assert_eq!(
        to_bytes(&Type::Int(i64::MIN)),
        Some(vec![0, 0, 0, 0, 0, 0, 0, 0x80])
    );
    assert_eq!(
        to_bytes(&Type::Int(0x0102030405060708)),
        Some(vec![8, 7, 6, 5, 4, 3, 2, 1])
    );
    assert_eq!(
        to_bytes(&Type::UInt(0x0102)),
        Some(0x0102usize.to_le_bytes().to_vec())
    );
    assert_eq!(
        to_bytes(&flt(1.0)),
        Some(1.0f64.to_le_bytes().to_vec())
    );
    assert_eq!(to_bytes(&Type::Char('a')), Some(vec![97]));
    assert_eq!(to_bytes(&Type::Char('é')), Some(vec![0xc3, 0xa9]));
    assert_eq!(
        to_bytes(&Type::String("héy".to_string())),
        Some("héy".as_bytes().to_vec())
    );
    assert_eq!(to_bytes(&Type::Bool(true)), None);
    assert_eq!(to_bytes(&Type::Register(Register::Ra)), None);
    assert_eq!(to_bytes(&Type::Pointer(Allocation::new(0, 1, 2))), None);
}

#[test]
fn values_are_made_from_plain_kinds() {
    assert_eq!(Field::from(7u8), Field(Type::Byte(7)));
    assert_eq!(Field::from(7u16), Field(Type::Short(7)));
    assert_eq!(Field::from(7usize), Field(Type::UInt(7)));
    assert_eq!(Field::from(-7i64), Field(Type::Int(-7)));
    assert_eq!(Field::from(-7i32), Field(Type::Int(-7)));
    assert_eq!(Field::from('c'), Field(Type::Char('c')));
    assert_eq!(Field::from(true), Field(Type::Bool(true)));
    assert_eq!(Field::from("s"), Field(Type::String("s".to_string())));
    assert_eq!(Field::from("s".to_string()), Field(Type::String("s".to_string())));
    assert_eq!(
        Field::from(Allocation::new(2, 4, 2)),
        Field(Type::Pointer(Allocation::new(2, 4, 2)))
    );
    assert_eq!(Field::from(Register::Rf), Field(Type::Register(Register::Rf)));
    assert_eq!(Field::default(), Field(Type::Int(0)));
    assert_eq!(Field::from(3).underlying_data_clone(), Field::from(3));
}

#[test]
fn dates_are_displayed_in_rfc_3339() {
    let heap = Heap::new(0);
    let epoch = Date { seconds: 0, nanos: 0 };
    assert_eq!(epoch.to_text(), "1970-01-01T00:00:00+00:00");
    assert_eq!(Date::at(0, 0), epoch);
    assert_eq!(Date::at(-1, 7), Date { seconds: -1, nanos: 7 });
    let later = Date { seconds: 1_431_648_000, nanos: 500_000_000 };
    assert_eq!(later.to_text(), "2015-05-15T00:00:00.500+00:00");
    assert_eq!(
        Field(Type::Object(HostObject::Date(later))).to_text(&heap),
        "2015-05-15T00:00:00.500+00:00"
    );
    let never = Date { seconds: i64::MAX, nanos: 0 };
    assert_eq!(never.to_text(), "<date>");
    let now = Date::new();
    assert!(now.seconds > 1_600_000_000);
    assert!(now.to_text().ends_with("+00:00"));
}

#[test]
fn spans_of_time() {
    let a = Date { seconds: 10, nanos: 200 };
    let b = Date { seconds: 3, nanos: 500 };
    assert_eq!(a.sub(b), Some(Duration { seconds: 6, nanos: 999_999_700 }));
    assert_eq!(b.sub(a), Some(Duration { seconds: -7, nanos: 300 }));
    assert_eq!(a.sub(a), Some(Duration::new()));
    assert_eq!(
        Date { seconds: i64::MAX, nanos: 0 }.sub(Date { seconds: -1, nanos: 0 }),
        None
    );
    assert_eq!(
        Duration::from(5, 0).sub(Duration::from(7, 1)),
        Some(Duration { seconds: -3, nanos: 999_999_999 })
    );
    assert_eq!(Duration::of_nanos(-1), Some(Duration { seconds: -1, nanos: 999_999_999 }));
    assert_eq!(Duration::of_nanos(2_000_000_001), Some(Duration { seconds: 2, nanos: 1 }));
    assert_eq!(Duration::from(-7, 300).to_text(), "-7s 300ns");
    assert_eq!(
        HostObject::Duration(Duration::from(5, 0)).to_text(),
        "5s 0ns"
    );
}
