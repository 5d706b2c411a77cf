//! How operands are written: registers, numbers, characters, strings,
//! symbols, and references into registers.

use crate::lexer::scan::{find, find_char, text_of, trim, trimmed};
use crate::text::{parse_i64, read_i64, scalar};
use crate::types::{Term, Type, Value};
use crate::vm::field::{lemma_offsets_view, Field};
use crate::vm::register::{Register, RegisterOffset, RegisterOffsetOperandType, RegisterWithOffset};
use vstd::prelude::*;
use vstd::string::*;

verus! {

/// The value of a hexadecimal digit, or 16 for any other character.
pub open spec fn hex_digit(c: char) -> int {
    if '0' <= c && c <= '9' {
        c as int - 48
    } else if 'a' <= c && c <= 'f' {
        c as int - 87
    } else if 'A' <= c && c <= 'F' {
        c as int - 55
    } else {
        16
    }
}

/// The number that a string of hexadecimal digits writes.
pub open spec fn hex_number(s: Seq<char>) -> int
    decreases s.len(),
{
    if s.len() == 0 {
        0
    } else {
        hex_number(s.drop_last()) * 16 + hex_digit(s.last())
    }
}

/// Whether every character is a hexadecimal digit.
pub open spec fn all_hex(s: Seq<char>) -> bool {
    forall|i: int| 0 <= i < s.len() ==> hex_digit(#[trigger] s[i]) < 16
}

/// The integer that a text writes in hexadecimal: `0x` and digits, at
/// least one, that write no more than the greatest integer.
pub open spec fn parse_hex(t: Seq<char>) -> Option<i64> {
    if t.len() >= 3 && t[0] == '0' && t[1] == 'x' && all_hex(t.subrange(2, t.len() as int))
        && hex_number(t.subrange(2, t.len() as int)) <= i64::MAX {
        Some(hex_number(t.subrange(2, t.len() as int)) as i64)
    } else {
        None
    }
}

/// The value that a text without quotes and brackets writes: a register
/// for its name, an integer for a number in decimal or in hexadecimal, and
/// a symbol, as a string, for any other text.
pub open spec fn plain_value(t: Seq<char>) -> Value {
    if Register::of_name(t) != Register::Unknown {
        Value::Register(Register::of_name(t))
    } else {
        match parse_i64(t) {
            Some(i) => Value::Int(i),
            None => match parse_hex(t) {
                Some(i) => Value::Int(i),
                None => Value::Str(t),
            },
        }
    }
}

/// Whether a character writes an operator of an offset expression.
pub open spec fn is_operator(c: char) -> bool {
    c == '+' || c == '-' || c == '*' || c == '/' || c == '%'
}

/// The first index at or after `i`, and before `end`, at which an operator
/// stands, or `end` if there is none.
pub open spec fn operator_at(s: Seq<char>, i: int, end: int) -> int
    decreases end - i,
{
    if i >= end {
        end
    } else if is_operator(s[i]) {
        i
    } else {
        operator_at(s, i + 1, end)
    }
}

/// The terms that the text between `i` and `end` writes: each is the text
/// up to the next operator, without the white space at its ends, with that
/// operator; the last has none.
pub open spec fn terms_from(s: Seq<char>, i: int, end: int) -> Seq<Term>
    decreases end - i,
{
    let e = operator_at(s, i, end);
    if e < i || e >= end {
        seq![
            Term {
                value: plain_value(trimmed(s, i, end)),
                operator: RegisterOffsetOperandType::End,
            },
        ]
    } else {
        seq![
            Term {
                value: plain_value(trimmed(s, i, e)),
                operator: RegisterOffsetOperandType::of_char(s[e]),
            },
        ] + terms_from(s, e + 1, end)
    }
}

/// Whether a text stands between two quotes `q`.
pub open spec fn is_quoted(t: Seq<char>, q: char) -> bool {
    t.len() >= 2 && t[0] == q && t.last() == q
}

/// The value that an operand writes. Between single quotes stands a
/// character, or a string if it is not one character; between double
/// quotes a string. A text with brackets behind it is a reference into the
/// register that the text names, with the terms between the brackets. Any
/// other text is a plain value.
pub open spec fn operand_value(t: Seq<char>) -> Value {
    if is_quoted(t, '\'') {
        if t.len() == 3 {
            Value::Char(t[1])
        } else {
            Value::Str(t.subrange(1, t.len() - 1))
        }
    } else if is_quoted(t, '"') {
        Value::Str(t.subrange(1, t.len() - 1))
    } else if find(t, '[', 0, t.len() as int) < t.len() && t.last() == ']' {
        Value::Offsets(
            Register::of_name(t.subrange(0, find(t, '[', 0, t.len() as int))),
            terms_from(t, find(t, '[', 0, t.len() as int) + 1, t.len() - 1),
        )
    } else {
        plain_value(t)
    }
}

/// The value of a hexadecimal digit, or 16 for any other character.
pub fn hex_value(c: char) -> (d: u8)
    ensures
        d == hex_digit(c),
{
    if '0' <= c && c <= '9' {
        (c as u32 - 48) as u8
    } else if 'a' <= c && c <= 'f' {
        (c as u32 - 87) as u8
    } else if 'A' <= c && c <= 'F' {
        (c as u32 - 55) as u8
    } else {
        16
    }
}

/// Reads an integer in hexadecimal.
pub fn read_hex(t: &Vec<char>) -> (r: Option<i64>)
    ensures
        r == parse_hex(t@),
{
    let n = t.len();
    if n < 3 || t[0] != '0' || t[1] != 'x' {
        return None;
    }
    let ghost body = t@.subrange(2, n as int);
    let mut acc: u64 = 0;
    let mut over = false;
    let mut i: usize = 2;
    while i < n
        invariant
            2 <= i <= n,
            n == t.len(),
            body == t@.subrange(2, n as int),
            forall|j: int| 0 <= j < i - 2 ==> hex_digit(#[trigger] body[j]) < 16,
            0 <= hex_number(body.subrange(0, i - 2)),
            !over ==> acc == hex_number(body.subrange(0, i - 2)) && acc <= i64::MAX,
            over ==> hex_number(body.subrange(0, i - 2)) > i64::MAX,
        decreases n - i,
    {
        let d = hex_value(t[i]);
        assert(body[i - 2] == t@[i as int]);
        if d >= 16 {
            return None;
        }
        proof {
            assert(body.subrange(0, i - 2 + 1).drop_last() =~= body.subrange(0, i - 2));
        }
        if !over {
            if acc > (i64::MAX as u64 - d as u64) / 16 {
                over = true;
            } else {
                acc = acc * 16 + d as u64;
            }
        }
        i += 1;
    }
    assert(body.subrange(0, n - 2) =~= body);
    if over {
        None
    } else {
        Some(acc as i64)
    }
}

/// Reads a text without quotes and brackets.
pub fn plain_field(t: &Vec<char>) -> (f: Field)
    ensures
        f@ == plain_value(t@),
{
    let text = text_of(t, 0, t.len());
    assert(text@ =~= t@);
    let r = Register::match_register(text.as_str());
    if r.ordinal() != 16 {
        return Field(Type::Register(r));
    }
    match read_i64(text.as_str()) {
        Some(i) => Field(Type::Int(i)),
        None => match read_hex(t) {
            Some(i) => Field(Type::Int(i)),
            None => Field(Type::String(text)),
        },
    }
}

/// A copy of the characters from index `from` up to index `to`.
pub fn slice_of(v: &Vec<char>, from: usize, to: usize) -> (r: Vec<char>)
    requires
        from <= to <= v.len(),
    ensures
        r@ == v@.subrange(from as int, to as int),
{
    let mut out: Vec<char> = Vec::new();
    let mut i: usize = from;
    while i < to
        invariant
            from <= i <= to,
            to <= v.len(),
            out@ == v@.subrange(from as int, i as int),
        decreases to - i,
    {
        out.push(v[i]);
        i += 1;
    }
    out
}

/// Whether a character writes an operator of an offset expression.
pub fn operator(c: char) -> (b: bool)
    ensures
        b == is_operator(c),
{
    c == '+' || c == '-' || c == '*' || c == '/' || c == '%'
}

/// Reads the terms between `from` and `end`.
pub fn read_terms(t: &Vec<char>, from: usize, end: usize) -> (r: Vec<RegisterOffset>)
    requires
        from <= end <= t.len(),
    ensures
        r@.map_values(|o: RegisterOffset| o@) == terms_from(t@, from as int, end as int),
{
    let mut out: Vec<RegisterOffset> = Vec::new();
    let mut i: usize = from;
    loop
        invariant
            from <= i <= end,
            end <= t.len(),
            out@.map_values(|o: RegisterOffset| o@) + terms_from(t@, i as int, end as int)
                == terms_from(t@, from as int, end as int),
        decreases end - i,
    {
        let mut e: usize = i;
        while e < end && !operator(t[e])
            invariant
                i <= e <= end,
                end <= t.len(),
                operator_at(t@, i as int, end as int) == operator_at(t@, e as int, end as int),
            decreases end - e,
        {
            e += 1;
        }
        if e >= end {
            let (b, c) = trim(t, i, end);
            let piece = slice_of(t, b, c);
            out.push(
                RegisterOffset { offset: plain_field(&piece), operand: RegisterOffsetOperandType::End },
            );
            return out;
        }
        let (b, c) = trim(t, i, e);
        let piece = slice_of(t, b, c);
        out.push(
            RegisterOffset {
                offset: plain_field(&piece),
                operand: RegisterOffsetOperandType::from(t[e]),
            },
        );
        i = e + 1;
    }
}

/// Reads an operand.
pub fn operand_field(t: &Vec<char>) -> (f: Field)
    ensures
        f@ == operand_value(t@),
{
    let n = t.len();
    if n >= 2 && t[0] == '\'' && t[n - 1] == '\'' {
        if n == 3 {
            return Field(Type::Char(scalar(t[1])));
        }
        return Field(Type::String(text_of(t, 1, n - 1)));
    }
    if n >= 2 && t[0] == '"' && t[n - 1] == '"' {
        return Field(Type::String(text_of(t, 1, n - 1)));
    }
    let p = find_char(t, '[', 0, n);
    if p < n && t[n - 1] == ']' {
        let name = text_of(t, 0, p);
        let register = Register::match_register(name.as_str());
        let offsets = read_terms(t, p + 1, n - 1);
        let r = RegisterWithOffset::new(register, offsets);
        proof {
            lemma_offsets_view(r);
        }
        return Field(Type::RegisterWithOffsets(r));
    }
    plain_field(t)
}

} // verus!
