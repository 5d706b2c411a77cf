//! Conversions between the kinds of values.

use crate::text::{
    char_of, char_to_string, decimal, is_char_code, parse_char, parse_i64, parse_usize,
    push_decimal, push_signed, read_char, read_i64, read_usize, scalar, signed_decimal, str_eq,
};
use crate::types::{Type, Value};
use vstd::prelude::*;
use vstd::string::*;

verus! {

/// The kind that a value is converted to.
#[derive(Copy, Clone, Debug, PartialEq, Eq, Structural)]
pub enum CastType {
    /// No conversion: the value stays as it is.
    Keep,
    CastToI64,
    CastToUsize,
    CastToString,
    CastToChar,
}

impl CastType {
    /// The kind that a name asks for; any other name asks for none.
    pub open spec fn of_name(s: Seq<char>) -> CastType {
        if s == "i64"@ {
            CastType::CastToI64
        } else if s == "usize"@ {
            CastType::CastToUsize
        } else if s == "str"@ {
            CastType::CastToString
        } else if s == "char"@ {
            CastType::CastToChar
        } else {
            CastType::Keep
        }
    }

    /// Reads the name of a kind.
    pub fn from(s: &str) -> (t: CastType)
        ensures
            t == CastType::of_name(s@),
    {
        if str_eq(s, "i64") {
            CastType::CastToI64
        } else if str_eq(s, "usize") {
            CastType::CastToUsize
        } else if str_eq(s, "str") {
            CastType::CastToString
        } else if str_eq(s, "char") {
            CastType::CastToChar
        } else {
            CastType::Keep
        }
    }
}

/// The character with the code point that the low 32 bits of `i` give, if
/// there is one.
pub open spec fn char_of_bits(i: i64) -> Option<Value> {
    if is_char_code(i as u32) {
        Some(Value::Char((i as u32) as char))
    } else {
        None
    }
}

/// What a value becomes when it is converted. An integer becomes a word
/// with the same bits, its decimal text, or the character of its code
/// point; a word an integer with the same bits or its decimal text; a byte
/// an integer, a word, its decimal text or a character; a character its
/// code point or the text of it; a text the number or the one character
/// that it writes. Every conversion to the kind that the value has keeps
/// it, and so does the conversion to no kind. There is no other.
pub open spec fn cast_value(v: Value, t: CastType) -> Option<Value> {
    match t {
        CastType::Keep => Some(v),
        CastType::CastToI64 => match v {
            Value::Int(i) => Some(v),
            Value::UInt(u) => Some(Value::Int(u as i64)),
            Value::Byte(b) => Some(Value::Int(b as i64)),
            Value::Char(c) => Some(Value::Int(c as i64)),
            Value::Str(s) => match parse_i64(s) {
                Some(i) => Some(Value::Int(i)),
                None => None,
            },
            _ => None,
        },
        CastType::CastToUsize => match v {
            Value::Int(i) => Some(Value::UInt(i as usize)),
            Value::UInt(u) => Some(v),
            Value::Byte(b) => Some(Value::UInt(b as usize)),
            Value::Char(c) => Some(Value::UInt(c as usize)),
            Value::Str(s) => match parse_usize(s) {
                Some(u) => Some(Value::UInt(u)),
                None => None,
            },
            _ => None,
        },
        CastType::CastToString => match v {
            Value::Int(i) => Some(Value::Str(signed_decimal(i as int))),
            Value::UInt(u) => Some(Value::Str(decimal(u as nat))),
            Value::Byte(b) => Some(Value::Str(decimal(b as nat))),
            Value::Char(c) => Some(Value::Str(seq![c])),
            Value::Str(s) => Some(v),
            _ => None,
        },
        CastType::CastToChar => match v {
            Value::Int(i) => char_of_bits(i),
            Value::Byte(b) => Some(Value::Char(b as char)),
            Value::Char(c) => Some(v),
            Value::Str(s) => match parse_char(s) {
                Some(c) => Some(Value::Char(c)),
                None => None,
            },
            _ => None,
        },
    }
}

/// A number that is converted to a text and back is the number again.
pub proof fn lemma_number_text_number(v: Value)
    requires
        v is Int || v is UInt,
    ensures
        cast_value(v, CastType::CastToString) is Some,
        v is Int ==> cast_value(
            cast_value(v, CastType::CastToString)->Some_0,
            CastType::CastToI64,
        ) == Some(v),
        v is UInt ==> cast_value(
            cast_value(v, CastType::CastToString)->Some_0,
            CastType::CastToUsize,
        ) == Some(v),
{
    match v {
        Value::Int(i) => {
            crate::text::lemma_signed_decimal_is_read_back(i);
        },
        Value::UInt(u) => {
            crate::text::lemma_decimal_word_is_read_back(u);
        },
        _ => {},
    }
}

/// A character that is converted to an integer and back is the character
/// again.
pub proof fn lemma_char_number_char(c: char)
    ensures
        cast_value(Value::Char(c), CastType::CastToI64) == Some(Value::Int(c as i64)),
        cast_value(Value::Int(c as i64), CastType::CastToChar) == Some(Value::Char(c)),
{
    assert(is_char_code((c as i64) as u32));
    assert(((c as i64) as u32) as char == c);
}

/// Converts a value to an integer.
fn to_i64(v: &Type) -> (r: Option<Type>)
    ensures
        match cast_value(v@, CastType::CastToI64) {
            Some(w) => r is Some && r->Some_0@ == w,
            None => r is None,
        },
{
    match v {
        Type::Int(i) => Some(Type::Int(*i)),
        Type::UInt(u) => Some(Type::Int(#[verifier::truncate] (*u as i64))),
        Type::Byte(b) => Some(Type::Int(*b as i64)),
        Type::Char(c) => Some(Type::Int(*c as u32 as i64)),
        Type::String(s) => match read_i64(s.as_str()) {
            Some(i) => Some(Type::Int(i)),
            None => None,
        },
        _ => None,
    }
}

/// Converts a value to an unsigned word.
fn to_usize(v: &Type) -> (r: Option<Type>)
    ensures
        match cast_value(v@, CastType::CastToUsize) {
            Some(w) => r is Some && r->Some_0@ == w,
            None => r is None,
        },
{
    match v {
        Type::Int(i) => Some(Type::UInt(#[verifier::truncate] (*i as usize))),
        Type::UInt(u) => Some(Type::UInt(*u)),
        Type::Byte(b) => Some(Type::UInt(*b as usize)),
        Type::Char(c) => Some(Type::UInt(*c as u32 as usize)),
        Type::String(s) => match read_usize(s.as_str()) {
            Some(u) => Some(Type::UInt(u)),
            None => None,
        },
        _ => None,
    }
}

/// Converts a value to a text.
fn to_text(v: &Type) -> (r: Option<Type>)
    ensures
        match cast_value(v@, CastType::CastToString) {
            Some(w) => r is Some && r->Some_0@ == w,
            None => r is None,
        },
{
    let mut s = String::new();
    match v {
        Type::Int(i) => {
            push_signed(&mut s, *i);
        },
        Type::UInt(u) => {
            push_decimal(&mut s, *u as u64);
        },
        Type::Byte(b) => {
            push_decimal(&mut s, *b as u64);
        },
        Type::Char(c) => {
            s = char_to_string(*c);
        },
        Type::String(t) => {
            s = t.clone();
        },
        _ => {
            return None;
        },
    }
    Some(Type::String(s))
}

/// Converts a value to a character.
fn to_char(v: &Type) -> (r: Option<Type>)
    ensures
        match cast_value(v@, CastType::CastToChar) {
            Some(w) => r is Some && r->Some_0@ == w,
            None => r is None,
        },
{
    match v {
        Type::Int(i) => match char_of(#[verifier::truncate] (*i as u32)) {
            Some(c) => Some(Type::Char(c)),
            None => None,
        },
        Type::Byte(b) => Some(Type::Char(*b as char)),
        Type::Char(c) => Some(Type::Char(*c)),
        Type::String(s) => match read_char(s.as_str()) {
            Some(c) => Some(Type::Char(scalar(c))),
            None => None,
        },
        _ => None,
    }
}

/// Converts a value.
pub fn convert(v: Type, t: CastType) -> (r: Option<Type>)
    ensures
        match cast_value(v@, t) {
            Some(w) => r is Some && r->Some_0@ == w,
            None => r is None,
        },
{
    match t {
        CastType::Keep => Some(v),
        CastType::CastToI64 => to_i64(&v),
        CastType::CastToUsize => to_usize(&v),
        CastType::CastToString => to_text(&v),
        CastType::CastToChar => to_char(&v),
    }
}

} // verus!
