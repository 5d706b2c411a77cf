//! Arithmetic on values: wrapping on the integer kinds, total on every pair
//! of kinds that can be combined.

use crate::types::{Type, Value};
use vstd::prelude::*;
use vstd::wrapping::{i64_specs, u16_specs, u8_specs, usize_specs};

verus! {

/// An arithmetic operator.
#[derive(Copy, Clone, Debug, PartialEq, Eq, Structural)]
pub enum ArithOp {
    Add,
    Sub,
    Mul,
    Div,
    Rem,
    Xor,
}

/// Why an operator gave no value.
#[derive(Copy, Clone, Debug, PartialEq, Eq, Structural)]
pub enum ArithError {
    /// The two kinds cannot be combined by the operator.
    Incompatible,
    /// An operand is a floating-point number: the operator is defined, and
    /// its result is for the host to compute.
    FloatingPoint,
}

/// What an operator makes of two values.
pub enum Computed {
    /// The result.
    Value(Value),
    /// The result is floating-point arithmetic on the operands.
    Deferred,
    /// The two kinds cannot be combined.
    Undefined,
}

/// The quotient of `x` by `d`, rounded toward zero (`d` is not zero).
pub open spec fn trunc_div(x: int, d: int) -> int {
    if x == 0 {
        0
    } else if x > 0 && d > 0 {
        x / d
    } else if x < 0 && d < 0 {
        ((x * -1) / (d * -1))
    } else if x < 0 {
        ((x * -1) / d) * -1
    } else {
        (x / (d * -1)) * -1
    }
}

/// The remainder that goes with `trunc_div`: it has the sign of `x`.
pub open spec fn trunc_rem(x: int, d: int) -> int {
    if x == 0 {
        0
    } else if x > 0 && d > 0 {
        x % d
    } else if x < 0 && d < 0 {
        ((x * -1) % (d * -1)) * -1
    } else if x < 0 {
        ((x * -1) % d) * -1
    } else {
        x % (d * -1)
    }
}

/// Signed 64-bit arithmetic. Sums, differences and products wrap. A
/// quotient by zero is -1 (all bits set) and the remainder is then the
/// dividend; the least integer divided by -1 wraps to itself with
/// remainder zero.
pub open spec fn int_arith(op: ArithOp, a: i64, b: i64) -> i64 {
    match op {
        ArithOp::Add => i64_specs::wrapping_add(a, b),
        ArithOp::Sub => i64_specs::wrapping_sub(a, b),
        ArithOp::Mul => i64_specs::wrapping_mul(a, b),
        ArithOp::Div => if b == 0 {
            -1i64
        } else if a == i64::MIN && b == -1 {
            i64::MIN
        } else {
            trunc_div(a as int, b as int) as i64
        },
        ArithOp::Rem => if b == 0 {
            a
        } else if a == i64::MIN && b == -1 {
            0i64
        } else {
            trunc_rem(a as int, b as int) as i64
        },
        ArithOp::Xor => a ^ b,
    }
}

/// Arithmetic on unsigned words. Sums, differences and products wrap. A
/// quotient by zero is the greatest word (all bits set) and the remainder
/// is then the dividend.
pub open spec fn uint_arith(op: ArithOp, a: usize, b: usize) -> usize {
    match op {
        ArithOp::Add => usize_specs::wrapping_add(a, b),
        ArithOp::Sub => usize_specs::wrapping_sub(a, b),
        ArithOp::Mul => usize_specs::wrapping_mul(a, b),
        ArithOp::Div => if b == 0 {
            usize::MAX
        } else {
            a / b
        },
        ArithOp::Rem => if b == 0 {
            a
        } else {
            a % b
        },
        ArithOp::Xor => a ^ b,
    }
}

/// Arithmetic on 16-bit words, by the rules of `uint_arith`.
pub open spec fn short_arith(op: ArithOp, a: u16, b: u16) -> u16 {
    match op {
        ArithOp::Add => u16_specs::wrapping_add(a, b),
        ArithOp::Sub => u16_specs::wrapping_sub(a, b),
        ArithOp::Mul => u16_specs::wrapping_mul(a, b),
        ArithOp::Div => if b == 0 {
            u16::MAX
        } else {
            a / b
        },
        ArithOp::Rem => if b == 0 {
            a
        } else {
            a % b
        },
        ArithOp::Xor => a ^ b,
    }
}

/// Arithmetic on bytes, by the rules of `uint_arith`.
pub open spec fn byte_arith(op: ArithOp, a: u8, b: u8) -> u8 {
    match op {
        ArithOp::Add => u8_specs::wrapping_add(a, b),
        ArithOp::Sub => u8_specs::wrapping_sub(a, b),
        ArithOp::Mul => u8_specs::wrapping_mul(a, b),
        ArithOp::Div => if b == 0 {
            u8::MAX
        } else {
            a / b
        },
        ArithOp::Rem => if b == 0 {
            a
        } else {
            a % b
        },
        ArithOp::Xor => a ^ b,
    }
}

/// Whether the operator is defined on floating-point numbers.
pub open spec fn has_float_form(op: ArithOp) -> bool {
    op == ArithOp::Add || op == ArithOp::Sub || op == ArithOp::Mul || op == ArithOp::Div
}

/// What `op` makes of `a` and `b`. Two values of one integer kind give a
/// value of that kind. Two characters are taken as the integers of their
/// code points. An integer and an unsigned word are combined as integers,
/// the word taken as the integer with the same 64 bits. Where a
/// floating-point number meets a floating-point number, an integer or an
/// unsigned word, the four field operators are deferred. Every other pair
/// is undefined.
pub open spec fn arith(op: ArithOp, a: Value, b: Value) -> Computed {
    match (a, b) {
        (Value::Byte(x), Value::Byte(y)) => Computed::Value(Value::Byte(byte_arith(op, x, y))),
        (Value::Short(x), Value::Short(y)) => Computed::Value(
            Value::Short(short_arith(op, x, y)),
        ),
        (Value::Int(x), Value::Int(y)) => Computed::Value(Value::Int(int_arith(op, x, y))),
        (Value::UInt(x), Value::UInt(y)) => Computed::Value(Value::UInt(uint_arith(op, x, y))),
        (Value::Char(x), Value::Char(y)) => Computed::Value(
            Value::Int(int_arith(op, x as i64, y as i64)),
        ),
        (Value::UInt(x), Value::Int(y)) => Computed::Value(
            Value::Int(int_arith(op, x as i64, y)),
        ),
        (Value::Int(x), Value::UInt(y)) => Computed::Value(
            Value::Int(int_arith(op, x, y as i64)),
        ),
        (Value::Float(_), Value::Float(_))
        | (Value::Float(_), Value::Int(_))
        | (Value::Int(_), Value::Float(_))
        | (Value::Float(_), Value::UInt(_))
        | (Value::UInt(_), Value::Float(_)) => if has_float_form(op) {
            Computed::Deferred
        } else {
            Computed::Undefined
        },
        _ => Computed::Undefined,
    }
}

/// Whether a value is of one of the four integer kinds.
pub open spec fn is_integer(v: Value) -> bool {
    v is Byte || v is Short || v is Int || v is UInt
}

/// Whether two values are of the same kind.
pub open spec fn same_kind(a: Value, b: Value) -> bool {
    match (a, b) {
        (Value::Byte(_), Value::Byte(_)) => true,
        (Value::Short(_), Value::Short(_)) => true,
        (Value::Int(_), Value::Int(_)) => true,
        (Value::UInt(_), Value::UInt(_)) => true,
        (Value::Float(_), Value::Float(_)) => true,
        (Value::Char(_), Value::Char(_)) => true,
        (Value::Str(_), Value::Str(_)) => true,
        (Value::Bool(_), Value::Bool(_)) => true,
        (Value::Pointer(_), Value::Pointer(_)) => true,
        (Value::Register(_), Value::Register(_)) => true,
        (Value::Offsets(_, _), Value::Offsets(_, _)) => true,
        (Value::Object(_), Value::Object(_)) => true,
        _ => false,
    }
}

/// Every operator is total on two integers of one kind, and gives an
/// integer of that kind: nothing is left undefined, whatever the operands,
/// a zero divisor included.
pub proof fn lemma_integer_arithmetic_total(op: ArithOp, a: Value, b: Value)
    requires
        is_integer(a),
        same_kind(a, b),
    ensures
        arith(op, a, b) is Value,
        same_kind(arith(op, a, b)->Value_0, a),
{
}

/// Wrapping: the sum, the difference and the product of two integers
/// differ from the exact ones by a multiple of 2^64.
pub proof fn lemma_int_arithmetic_wraps(a: i64, b: i64)
    ensures
        (int_arith(ArithOp::Add, a, b) - (a + b)) % 0x1_0000_0000_0000_0000 == 0,
        (int_arith(ArithOp::Sub, a, b) - (a - b)) % 0x1_0000_0000_0000_0000 == 0,
        (int_arith(ArithOp::Mul, a, b) - (a * b)) % 0x1_0000_0000_0000_0000 == 0,
        i64::MIN <= a + b <= i64::MAX ==> int_arith(ArithOp::Add, a, b) == a + b,
        i64::MIN <= a - b <= i64::MAX ==> int_arith(ArithOp::Sub, a, b) == a - b,
        i64::MIN <= a * b <= i64::MAX ==> int_arith(ArithOp::Mul, a, b) == a * b,
{
    let r: int = 0x1_0000_0000_0000_0000;
    let p = a * b;
    vstd::arithmetic::div_mod::lemma_fundamental_div_mod(p, r);
    let q = p / r;
    let m = p % r;
    assert(p == r * q + m);
    vstd::arithmetic::div_mod::lemma_mod_multiples_basic(-q, r);
    vstd::arithmetic::div_mod::lemma_mod_multiples_basic(-q - 1, r);
    assert((m - p) == (-q) * r) by (nonlinear_arith)
        requires
            p == r * q + m,
    ;
    assert((m - r - p) == (-q - 1) * r) by (nonlinear_arith)
        requires
            p == r * q + m,
    ;
    if i64::MIN <= p <= i64::MAX {
        if p >= 0 {
            vstd::arithmetic::div_mod::lemma_small_mod(p as nat, r as nat);
        } else {
            vstd::arithmetic::div_mod::lemma_small_mod((p + r) as nat, r as nat);
            vstd::arithmetic::div_mod::lemma_mod_add_multiples_vanish(p, r);
        }
    }
}

/// A quotient rounded toward zero is no larger in size than the dividend,
/// and the remainder is smaller in size than the divisor.
pub proof fn lemma_trunc_bounds(x: int, d: int)
    requires
        d != 0,
    ensures
        x >= 0 ==> -x <= trunc_div(x, d) <= x,
        x < 0 ==> x <= trunc_div(x, d) <= -x,
        x >= 0 ==> 0 <= trunc_rem(x, d) <= x,
        x < 0 ==> x <= trunc_rem(x, d) <= 0,
        x < 0 && d != -1 ==> trunc_div(x, d) < -x,
{
    let ax = if x < 0 { x * -1 } else { x };
    let ad = if d < 0 { d * -1 } else { d };
    assert(0 <= ax / ad <= ax && 0 <= ax % ad <= ax && (ad >= 2 && ax > 0 ==> ax / ad < ax))
        by (nonlinear_arith)
        requires
            ax >= 0,
            ad > 0,
    ;
}

/// Signed 64-bit arithmetic.
pub fn int_op(op: ArithOp, a: i64, b: i64) -> (r: i64)
    ensures
        r == int_arith(op, a, b),
{
    proof {
        if b != 0 {
            lemma_trunc_bounds(a as int, b as int);
        }
    }
    match op {
        ArithOp::Add => a.wrapping_add(b),
        ArithOp::Sub => a.wrapping_sub(b),
        ArithOp::Mul => a.wrapping_mul(b),
        ArithOp::Div => {
            if b == 0 {
                -1
            } else {
                proof {
                    let x = a as int;
                    let d = b as int;
                    assert(d == -1 ==> (x * -1) / (d * -1) == x * -1) by (nonlinear_arith);
                }
                match a.checked_div(b) {
                    Some(q) => q,
                    None => i64::MIN,
                }
            }
        },
        ArithOp::Rem => {
            if b == 0 {
                a
            } else {
                match a.checked_rem(b) {
                    Some(q) => q,
                    None => 0,
                }
            }
        },
        ArithOp::Xor => a ^ b,
    }
}

/// Arithmetic on unsigned words.
pub fn uint_op(op: ArithOp, a: usize, b: usize) -> (r: usize)
    ensures
        r == uint_arith(op, a, b),
{
    match op {
        ArithOp::Add => a.wrapping_add(b),
        ArithOp::Sub => a.wrapping_sub(b),
        ArithOp::Mul => a.wrapping_mul(b),
        ArithOp::Div => if b == 0 {
            usize::MAX
        } else {
            a / b
        },
        ArithOp::Rem => if b == 0 {
            a
        } else {
            a % b
        },
        ArithOp::Xor => a ^ b,
    }
}

/// Arithmetic on 16-bit words.
pub fn short_op(op: ArithOp, a: u16, b: u16) -> (r: u16)
    ensures
        r == short_arith(op, a, b),
{
    match op {
        ArithOp::Add => a.wrapping_add(b),
        ArithOp::Sub => a.wrapping_sub(b),
        ArithOp::Mul => a.wrapping_mul(b),
        ArithOp::Div => if b == 0 {
            u16::MAX
        } else {
            a / b
        },
        ArithOp::Rem => if b == 0 {
            a
        } else {
            a % b
        },
        ArithOp::Xor => a ^ b,
    }
}

/// Arithmetic on bytes.
pub fn byte_op(op: ArithOp, a: u8, b: u8) -> (r: u8)
    ensures
        r == byte_arith(op, a, b),
{
    match op {
        ArithOp::Add => a.wrapping_add(b),
        ArithOp::Sub => a.wrapping_sub(b),
        ArithOp::Mul => a.wrapping_mul(b),
        ArithOp::Div => if b == 0 {
            u8::MAX
        } else {
            a / b
        },
        ArithOp::Rem => if b == 0 {
            a
        } else {
            a % b
        },
        ArithOp::Xor => a ^ b,
    }
}

/// Applies `op` to two values.
pub fn compute(op: ArithOp, lhs: &Type, rhs: &Type) -> (r: Result<Type, ArithError>)
    ensures
        match arith(op, lhs@, rhs@) {
            Computed::Value(v) => r is Ok && r->Ok_0@ == v,
            Computed::Deferred => r == Err::<Type, ArithError>(ArithError::FloatingPoint),
            Computed::Undefined => r == Err::<Type, ArithError>(ArithError::Incompatible),
        },
{
    let float_form = match op {
        ArithOp::Add | ArithOp::Sub | ArithOp::Mul | ArithOp::Div => true,
        _ => false,
    };
    match (lhs, rhs) {
        (Type::Byte(x), Type::Byte(y)) => Ok(Type::Byte(byte_op(op, *x, *y))),
        (Type::Short(x), Type::Short(y)) => Ok(Type::Short(short_op(op, *x, *y))),
        (Type::Int(x), Type::Int(y)) => Ok(Type::Int(int_op(op, *x, *y))),
        (Type::UInt(x), Type::UInt(y)) => Ok(Type::UInt(uint_op(op, *x, *y))),
        (Type::Char(x), Type::Char(y)) => Ok(Type::Int(int_op(op, *x as i64, *y as i64))),
        (Type::UInt(x), Type::Int(y)) => Ok(
            Type::Int(int_op(op, #[verifier::truncate] (*x as i64), *y)),
        ),
        (Type::Int(x), Type::UInt(y)) => Ok(
            Type::Int(int_op(op, *x, #[verifier::truncate] (*y as i64))),
        ),
        (Type::Float(_), Type::Float(_))
        | (Type::Float(_), Type::Int(_))
        | (Type::Int(_), Type::Float(_))
        | (Type::Float(_), Type::UInt(_))
        | (Type::UInt(_), Type::Float(_)) => if float_form {
            Err(ArithError::FloatingPoint)
        } else {
            Err(ArithError::Incompatible)
        },
        _ => Err(ArithError::Incompatible),
    }
}

} // verus!
