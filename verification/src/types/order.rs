//! The order of values: defined within a kind, undefined across kinds.

use crate::types::{lemma_terms_of, terms_of, Term, Type, Value};
use vstd::prelude::*;
use vstd::string::*;
use vstd::utf8::encode_utf8;

verus! {

/// How one value stands to another.
#[derive(Copy, Clone, Debug, PartialEq, Eq, Structural)]
pub enum Order {
    Less,
    Equal,
    Greater,
}

/// The order of two integers.
pub open spec fn int_order(a: int, b: int) -> Order {
    if a < b {
        Order::Less
    } else if a > b {
        Order::Greater
    } else {
        Order::Equal
    }
}

/// The bits of a floating-point number without its sign bit.
pub open spec fn float_magnitude(bits: u64) -> int {
    bits as int % 0x8000_0000_0000_0000
}

/// Whether the bits are those of a NaN: the exponent is all ones and the
/// fraction is not zero.
pub open spec fn float_is_nan(bits: u64) -> bool {
    float_magnitude(bits) > 0x7ff0_0000_0000_0000
}

/// An integer that orders the floating-point numbers other than NaN as
/// IEEE-754 orders them: the magnitude, negated where the sign bit is set.
/// Both zeros get zero.
pub open spec fn float_key(bits: u64) -> int {
    if bits >= 0x8000_0000_0000_0000 {
        -float_magnitude(bits)
    } else {
        float_magnitude(bits)
    }
}

/// The order of two byte strings from index `i` on, given that they agree
/// before it: by the first byte in which they differ, and a proper prefix
/// before what it is a prefix of.
pub open spec fn bytes_order(a: Seq<u8>, b: Seq<u8>, i: int) -> Order
    decreases a.len() - i,
{
    if i < 0 || i >= a.len() {
        if i >= b.len() {
            Order::Equal
        } else {
            Order::Less
        }
    } else if i >= b.len() {
        Order::Greater
    } else if a[i] < b[i] {
        Order::Less
    } else if a[i] > b[i] {
        Order::Greater
    } else {
        bytes_order(a, b, i + 1)
    }
}

/// The order of two values, where they have one. Integers, words, bytes,
/// characters and truth values are ordered as numbers; floating-point
/// numbers as IEEE-754 orders them, a NaN having no order to anything;
/// strings by their UTF-8 bytes; pointers by their addresses; registers by
/// their position. Two references into registers have an order only if
/// their offset expressions agree term by term as far as both go, and then
/// that of their registers. Objects, and values of two kinds, have none.
pub open spec fn order(a: Value, b: Value) -> Option<Order>
    decreases a, 0nat,
{
    match (a, b) {
        (Value::Byte(x), Value::Byte(y)) => Some(int_order(x as int, y as int)),
        (Value::Short(x), Value::Short(y)) => Some(int_order(x as int, y as int)),
        (Value::Int(x), Value::Int(y)) => Some(int_order(x as int, y as int)),
        (Value::UInt(x), Value::UInt(y)) => Some(int_order(x as int, y as int)),
        (Value::Float(x), Value::Float(y)) => if float_is_nan(x) || float_is_nan(y) {
            None
        } else {
            Some(int_order(float_key(x), float_key(y)))
        },
        (Value::Char(x), Value::Char(y)) => Some(int_order(x as int, y as int)),
        (Value::Str(x), Value::Str(y)) => Some(bytes_order(encode_utf8(x), encode_utf8(y), 0)),
        (Value::Bool(x), Value::Bool(y)) => Some(
            int_order(if x { 1 } else { 0 }, if y { 1 } else { 0 }),
        ),
        (Value::Pointer(x), Value::Pointer(y)) => Some(int_order(x.ptr as int, y.ptr as int)),
        (Value::Register(x), Value::Register(y)) => Some(int_order(x.index(), y.index())),
        (Value::Offsets(x, l), Value::Offsets(y, r)) => if terms_agree(
            l,
            r,
            if l.len() <= r.len() { l.len() } else { r.len() },
        ) {
            Some(int_order(x.index(), y.index()))
        } else {
            None
        },
        _ => None,
    }
}

/// Whether two terms are equal: equal values and the same operator.
pub open spec fn term_equal(l: Term, r: Term) -> bool
    decreases l, 1nat,
{
    order(l.value, r.value) == Some(Order::Equal) && l.operator == r.operator
}

/// Whether the first `n` terms of two offset expressions are equal, each
/// to the one at its place.
pub open spec fn terms_agree(l: Seq<Term>, r: Seq<Term>, n: nat) -> bool
    decreases l, n,
{
    if n == 0 || n > l.len() || n > r.len() {
        true
    } else {
        terms_agree(l, r, (n - 1) as nat) && term_equal(l[n - 1], r[n - 1])
    }
}

/// Whether two values are equal: they have an order, and it is `Equal`.
pub open spec fn equal(a: Value, b: Value) -> bool {
    order(a, b) == Some(Order::Equal)
}

/// Whether `a` is less than `b`.
pub open spec fn less(a: Value, b: Value) -> bool {
    order(a, b) == Some(Order::Less)
}

/// Whether `a` is greater than `b`.
pub open spec fn greater(a: Value, b: Value) -> bool {
    order(a, b) == Some(Order::Greater)
}

/// Whether a value is a number that has an order to every number of its
/// kind: an integer of one of the four kinds, or a floating-point number
/// that is not a NaN.
pub open spec fn is_ordered_number(v: Value) -> bool {
    match v {
        Value::Byte(_) | Value::Short(_) | Value::Int(_) | Value::UInt(_) => true,
        Value::Float(bits) => !float_is_nan(bits),
        _ => false,
    }
}

/// Of two values, at most one of equal, less and greater holds. Of two
/// ordered numbers of one kind exactly one holds, and of two values without
/// an order none does.
pub proof fn lemma_trichotomy(a: Value, b: Value)
    ensures
        !(equal(a, b) && less(a, b)),
        !(equal(a, b) && greater(a, b)),
        !(less(a, b) && greater(a, b)),
        is_ordered_number(a) && is_ordered_number(b) && crate::types::arith::same_kind(a, b) ==> (
        equal(a, b) || less(a, b) || greater(a, b)),
        order(a, b) is None ==> !equal(a, b) && !less(a, b) && !greater(a, b),
{
}

/// The order of two integers.
pub fn order_of(a: i128, b: i128) -> (r: Order)
    ensures
        r == int_order(a as int, b as int),
{
    if a < b {
        Order::Less
    } else if a > b {
        Order::Greater
    } else {
        Order::Equal
    }
}

/// The order of two floating-point numbers given by their bits.
pub fn float_order(x: u64, y: u64) -> (r: Option<Order>)
    ensures
        r == order(Value::Float(x), Value::Float(y)),
{
    let mx: u64 = x % 0x8000_0000_0000_0000;
    let my: u64 = y % 0x8000_0000_0000_0000;
    if mx > 0x7ff0_0000_0000_0000 || my > 0x7ff0_0000_0000_0000 {
        return None;
    }
    let kx: i128 = if x >= 0x8000_0000_0000_0000 {
        -(mx as i128)
    } else {
        mx as i128
    };
    let ky: i128 = if y >= 0x8000_0000_0000_0000 {
        -(my as i128)
    } else {
        my as i128
    };
    Some(order_of(kx, ky))
}

/// The order of two byte strings.
pub fn slice_order(a: &[u8], b: &[u8]) -> (r: Order)
    ensures
        r == bytes_order(a@, b@, 0),
{
    let mut i: usize = 0;
    while i < a.len() && i < b.len()
        invariant
            i <= a.len(),
            i <= b.len(),
            bytes_order(a@, b@, 0) == bytes_order(a@, b@, i as int),
        decreases a.len() - i,
    {
        if a[i] < b[i] {
            return Order::Less;
        } else if a[i] > b[i] {
            return Order::Greater;
        }
        i += 1;
    }
    if i < b.len() {
        Order::Less
    } else if i < a.len() {
        Order::Greater
    } else {
        Order::Equal
    }
}

/// The order of two values, where they have one.
pub fn compare(a: &Type, b: &Type) -> (r: Option<Order>)
    ensures
        r == order(a@, b@),
    decreases a,
{
    match (a, b) {
        (Type::Byte(x), Type::Byte(y)) => Some(order_of(*x as i128, *y as i128)),
        (Type::Short(x), Type::Short(y)) => Some(order_of(*x as i128, *y as i128)),
        (Type::Int(x), Type::Int(y)) => Some(order_of(*x as i128, *y as i128)),
        (Type::UInt(x), Type::UInt(y)) => Some(order_of(*x as i128, *y as i128)),
        (Type::Float(x), Type::Float(y)) => float_order(*x, *y),
        (Type::Char(x), Type::Char(y)) => Some(order_of(*x as u32 as i128, *y as u32 as i128)),
        (Type::String(x), Type::String(y)) => Some(
            slice_order(x.as_str().as_bytes(), y.as_str().as_bytes()),
        ),
        (Type::Bool(x), Type::Bool(y)) => Some(
            order_of(if *x { 1 } else { 0 }, if *y { 1 } else { 0 }),
        ),
        (Type::Pointer(x), Type::Pointer(y)) => Some(order_of(x.ptr as i128, y.ptr as i128)),
        (Type::Register(x), Type::Register(y)) => Some(
            order_of(x.ordinal() as i128, y.ordinal() as i128),
        ),
        (Type::RegisterWithOffsets(x), Type::RegisterWithOffsets(y)) => {
            let n = if x.offsets.len() <= y.offsets.len() {
                x.offsets.len()
            } else {
                y.offsets.len()
            };
            proof {
                lemma_terms_of(x.offsets, x.offsets.len() as nat);
                lemma_terms_of(y.offsets, y.offsets.len() as nat);
            }
            let ghost l = terms_of(x.offsets, x.offsets.len() as nat);
            let ghost r = terms_of(y.offsets, y.offsets.len() as nat);
            let mut i: usize = 0;
            while i < n
                invariant
                    i <= n,
                    n <= x.offsets.len(),
                    n <= y.offsets.len(),
                    *a == Type::RegisterWithOffsets(*x),
                    l.len() == x.offsets.len(),
                    r.len() == y.offsets.len(),
                    forall|j: int| 0 <= j < l.len() ==> l[j] == x.offsets[j]@,
                    forall|j: int| 0 <= j < r.len() ==> r[j] == y.offsets[j]@,
                    terms_agree(l, r, i as nat),
                    a@ == Value::Offsets(x.register, l),
                    b@ == Value::Offsets(y.register, r),
                    n == if l.len() <= r.len() { l.len() } else { r.len() },
                decreases n - i,
            {
                proof {
                    vstd::std_specs::vec::axiom_vec_index_decreases(x.offsets, i as int);
                }
                let same = match compare(&x.offsets[i].offset.0, &y.offsets[i].offset.0) {
                    Some(Order::Equal) => x.offsets[i].operand == y.offsets[i].operand,
                    _ => false,
                };
                assert(same == term_equal(l[i as int], r[i as int]));
                if !same {
                    proof {
                        lemma_terms_disagree(l, r, i as nat, n as nat);
                    }
                    return None;
                }
                i += 1;
            }
            Some(order_of(x.register.ordinal() as i128, y.register.ordinal() as i128))
        },
        _ => None,
    }
}

/// Terms that differ at one place do not agree on any stretch that holds
/// the place.
pub proof fn lemma_terms_disagree(l: Seq<Term>, r: Seq<Term>, i: nat, n: nat)
    requires
        i < n,
        n <= l.len(),
        n <= r.len(),
        !term_equal(l[i as int], r[i as int]),
    ensures
        !terms_agree(l, r, n),
    decreases n,
{
    if n > i + 1 {
        lemma_terms_disagree(l, r, i, (n - 1) as nat);
    }
}

} // verus!
