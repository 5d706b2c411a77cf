//! A slot that holds one value: what registers, the stack and operands hold.

use crate::text::{
    char_to_string, decimal, hexadecimal, lossy_text, push_char, push_decimal, push_hex,
    push_signed, push_str, signed_decimal, text_of_bytes,
};
use crate::types::{lemma_terms_of, terms_of, Allocation, Object, Term, Type, Value};
use crate::vm::error::{Error, ErrorKind};
use crate::vm::fault::{not_a_number, not_a_pointer, not_a_string, not_an_offset, one, quoted_text};
use crate::vm::heap::{Heap, HeapView};
use crate::vm::register::{Register, RegisterOffset, RegisterWithOffset};
use crate::vm::semantics::{as_index, as_register, le_bytes, serialized};
use crate::vm::vm::{reports, Vm};
use vstd::prelude::*;
use vstd::string::*;

verus! {

/// One value of the machine.
#[derive(Debug)]
pub struct Field(pub Type);

impl View for Field {
    type V = Value;

    open spec fn view(&self) -> Value {
        self.0@
    }
}

/// The model of a value that refers to a place inside a register is the
/// register with the models of its terms.
pub proof fn lemma_offsets_view(r: RegisterWithOffset)
    ensures
        Type::RegisterWithOffsets(r)@ == r@,
{
    lemma_terms_of(r.offsets, r.offsets.len() as nat);
    assert(terms_of(r.offsets, r.offsets.len() as nat) =~= r.terms());
}

/// The index of the first zero byte at or after index `i`, or the length
/// if there is none.
pub open spec fn zero_index(b: Seq<u8>, i: int) -> int
    decreases b.len() - i,
{
    if i < 0 || i >= b.len() {
        b.len() as int
    } else if b[i] == 0 {
        i
    } else {
        zero_index(b, i + 1)
    }
}

/// The bytes before the first zero byte.
pub open spec fn until_zero(b: Seq<u8>) -> Seq<u8> {
    b.subrange(0, zero_index(b, 0))
}

/// The number of bytes that a pointer can reach: the size it carries, and
/// no more than the size recorded for the allocation.
pub open spec fn extent(p: Allocation, heap: HeapView) -> int {
    if p.size as int <= heap.size_at(p.ptr as int) {
        p.size as int
    } else {
        heap.size_at(p.ptr as int)
    }
}

/// The bytes that a live pointer reaches.
pub open spec fn pointee(p: Allocation, heap: HeapView) -> Seq<u8> {
    heap.bytes.subrange(p.ptr as int, p.ptr + extent(p, heap))
}

/// How a value is displayed. Numbers are written in decimal, except that a
/// floating-point number is written as its bit pattern in hexadecimal. A
/// pointer to a live allocation is the text of its bytes before the first
/// zero byte, and a pointer to none is the empty text. A reference into a
/// register is the register with the terms in brackets. An object of the
/// host is displayed as it says.
pub open spec fn display(v: Value, heap: HeapView) -> Seq<char>
    decreases v, 0nat,
{
    match v {
        Value::Byte(b) => decimal(b as nat),
        Value::Short(s) => decimal(s as nat),
        Value::Int(i) => signed_decimal(i as int),
        Value::UInt(u) => decimal(u as nat),
        Value::Float(bits) => hexadecimal(bits as nat),
        Value::Char(c) => seq![c],
        Value::Str(s) => s,
        Value::Bool(b) => if b {
            "true"@
        } else {
            "false"@
        },
        Value::Pointer(p) => if heap.is_live(p.ptr as int) {
            lossy_text(until_zero(pointee(p, heap)))
        } else {
            Seq::empty()
        },
        Value::Register(r) => r.name(),
        Value::Offsets(r, terms) => r.name() + "["@ + display_terms(
            terms,
            terms.len(),
            heap,
        ) + "]"@,
        Value::Object(o) => o.text(),
    }
}

/// The first `n` terms of an offset expression as they are displayed: each
/// value followed by its operator.
pub open spec fn display_terms(terms: Seq<Term>, n: nat, heap: HeapView) -> Seq<char>
    decreases terms, n,
{
    if n == 0 || n > terms.len() {
        Seq::empty()
    } else {
        display_terms(terms, (n - 1) as nat, heap) + display(terms[n - 1].value, heap)
            + terms[n - 1].operator.symbol()
    }
}

/// The bytes of `bytes` before the first zero byte.
pub fn bytes_until_zero(bytes: &Vec<u8>) -> (r: Vec<u8>)
    ensures
        r@ == until_zero(bytes@),
{
    let mut out: Vec<u8> = Vec::new();
    let mut i: usize = 0;
    while i < bytes.len() && bytes[i] != 0
        invariant
            i <= bytes.len(),
            out@ == bytes@.subrange(0, i as int),
            zero_index(bytes@, 0) == zero_index(bytes@, i as int),
        decreases bytes.len() - i,
    {
        out.push(bytes[i]);
        i += 1;
    }
    out
}

/// The `n` low bytes of `x`, lowest first.
pub fn low_bytes(x: u64, n: usize) -> (r: Vec<u8>)
    ensures
        r@ == le_bytes(x as nat, n as nat),
    decreases n,
{
    if n == 0 {
        Vec::new()
    } else {
        let mut out: Vec<u8> = Vec::new();
        out.push((x % 256) as u8);
        let mut rest = low_bytes(x / 256, n - 1);
        out.append(&mut rest);
        out
    }
}

/// The bytes that a value is written as into the heap, if it has any.
pub fn to_bytes(v: &Type) -> (r: Option<Vec<u8>>)
    ensures
        match serialized(v@) {
            Some(b) => r is Some && r->Some_0@ == b,
            None => r is None,
        },
{
    match v {
        Type::Byte(b) => {
            let mut out: Vec<u8> = Vec::new();
            out.push(*b);
            Some(out)
        },
        Type::Short(s) => Some(low_bytes(*s as u64, 2)),
        Type::Int(i) => {
            let bits: u64 = if *i >= 0 {
                *i as u64
            } else {
                ((*i + 1 + i64::MAX) as u64) + 0x8000_0000_0000_0000
            };
            Some(low_bytes(bits, 8))
        },
        Type::UInt(u) => Some(low_bytes(*u as u64, (usize::BITS / 8) as usize)),
        Type::Float(f) => Some(low_bytes(*f, 8)),
        Type::Char(c) => {
            let s = char_to_string(*c);
            Some(s.as_str().as_bytes_vec())
        },
        Type::String(s) => Some(s.as_str().as_bytes_vec()),
        _ => None,
    }
}

impl Field {
    /// The register that the value names.
    pub fn to_r(&self, vm: &Vm) -> (r: Result<Register, Error>)
        ensures
            match as_register(self@) {
                Ok(x) => r == Ok::<Register, Error>(x),
                Err(f) => r is Err && reports(vm.code(), vm.state(), r->Err_0, f),
            },
    {
        match self.0 {
            Type::Register(r) => Ok(r),
            _ => vm.fail(
                ErrorKind::TypeError,
                String::from_str("Value is not a register!"),
                one(self.underlying_data_clone()),
            ),
        }
    }

    /// The reference into a register that the value is.
    pub fn to_rwo(&self, vm: &Vm) -> (r: Result<RegisterWithOffset, Error>)
        ensures
            self@ is Offsets ==> r is Ok && r->Ok_0@ == self@,
            !(self@ is Offsets) ==> r is Err && reports(
                vm.code(),
                vm.state(),
                r->Err_0,
                not_an_offset(self@),
            ),
    {
        let copy = self.underlying_data_clone();
        match copy.0 {
            Type::RegisterWithOffsets(r) => {
                proof {
                    lemma_offsets_view(r);
                }
                Ok(r)
            },
            other => vm.fail(
                ErrorKind::TypeError,
                String::from_str("Value is not a register with offset!"),
                one(Field(other)),
            ),
        }
    }

    /// The index that the number stands for.
    pub fn to_u(&self, vm: &Vm) -> (r: Result<usize, Error>)
        ensures
            match as_index(self@) {
                Some(x) => r == Ok::<usize, Error>(x),
                None => r is Err && reports(
                    vm.code(),
                    vm.state(),
                    r->Err_0,
                    not_a_number(self@, vm.heap@),
                ),
            },
    {
        match self.0 {
            Type::UInt(u) => Ok(u),
            Type::Int(i) => Ok(#[verifier::truncate] (i as usize)),
            _ => {
                let text = self.to_text(&vm.heap);
                vm.fail(
                    ErrorKind::TypeError,
                    quoted_text("Value '", text.as_str(), "' is not a number!"),
                    one(self.underlying_data_clone()),
                )
            },
        }
    }

    /// The string that the value is.
    pub fn to_s(&self, vm: &Vm) -> (r: Result<String, Error>)
        ensures
            self@ is Str ==> r is Ok && r->Ok_0@ == self@->Str_0,
            !(self@ is Str) ==> r is Err && reports(
                vm.code(),
                vm.state(),
                r->Err_0,
                not_a_string(self@),
            ),
    {
        match &self.0 {
            Type::String(s) => Ok(s.clone()),
            _ => vm.fail(
                ErrorKind::TypeError,
                String::from_str("Value is not a string!"),
                one(self.underlying_data_clone()),
            ),
        }
    }

    /// The string that the value is.
    pub fn to_str(&self, vm: &Vm) -> (r: Result<&str, Error>)
        ensures
            self@ is Str ==> r is Ok && r->Ok_0@ == self@->Str_0,
            !(self@ is Str) ==> r is Err && reports(
                vm.code(),
                vm.state(),
                r->Err_0,
                not_a_string(self@),
            ),
    {
        match &self.0 {
            Type::String(s) => Ok(s.as_str()),
            _ => vm.fail(
                ErrorKind::TypeError,
                String::from_str("Value is not a string!"),
                one(self.underlying_data_clone()),
            ),
        }
    }

    /// The index that the value stands for, a character standing for its
    /// code point.
    pub fn to_i_or_u(&self, vm: &Vm) -> (r: Result<usize, Error>)
        ensures
            match self@ {
                Value::UInt(u) => r == Ok::<usize, Error>(u),
                Value::Int(i) => r == Ok::<usize, Error>(i as usize),
                Value::Char(c) => r == Ok::<usize, Error>(c as usize),
                _ => r is Err && reports(
                    vm.code(),
                    vm.state(),
                    r->Err_0,
                    not_a_number(self@, vm.heap@),
                ),
            },
    {
        match self.0 {
            Type::Char(c) => Ok(c as u32 as usize),
            _ => self.to_u(vm),
        }
    }

    /// The pointer that the value is.
    pub fn to_p(&self, vm: &Vm) -> (r: Result<Allocation, Error>)
        ensures
            self@ is Pointer ==> r == Ok::<Allocation, Error>(self@->Pointer_0),
            !(self@ is Pointer) ==> r is Err && reports(
                vm.code(),
                vm.state(),
                r->Err_0,
                not_a_pointer(self@),
            ),
    {
        match self.0 {
            Type::Pointer(p) => Ok(p),
            _ => vm.fail(
                ErrorKind::TypeError,
                String::from_str("Value is not a pointer!"),
                one(self.underlying_data_clone()),
            ),
        }
    }

    /// The bytes that the value is written as into the heap.
    pub fn to_b(&self, vm: &Vm) -> (r: Result<Vec<u8>, Error>)
        ensures
            match serialized(self@) {
                Some(b) => r is Ok && r->Ok_0@ == b,
                None => r is Err && reports(vm.code(), vm.state(), r->Err_0, not_a_pointer(self@)),
            },
    {
        match to_bytes(&self.0) {
            Some(b) => Ok(b),
            None => vm.fail(
                ErrorKind::TypeError,
                String::from_str("Value is not a pointer!"),
                one(self.underlying_data_clone()),
            ),
        }
    }

    /// The value as it is displayed; a pointer is read from `heap`.
    pub fn to_text(&self, heap: &Heap) -> (s: String)
        ensures
            s@ == display(self@, heap@),
        decreases self,
    {
        let mut s = String::new();
        match &self.0 {
            Type::Byte(b) => {
                push_decimal(&mut s, *b as u64);
            },
            Type::Short(v) => {
                push_decimal(&mut s, *v as u64);
            },
            Type::Int(i) => {
                push_signed(&mut s, *i);
            },
            Type::UInt(u) => {
                push_decimal(&mut s, *u as u64);
            },
            Type::Float(bits) => {
                push_hex(&mut s, *bits);
            },
            Type::Char(c) => {
                push_char(&mut s, *c);
            },
            Type::String(v) => {
                push_str(&mut s, v.as_str());
            },
            Type::Bool(b) => {
                if *b {
                    push_str(&mut s, "true");
                } else {
                    push_str(&mut s, "false");
                }
            },
            Type::Pointer(p) => {
                match heap.size_of(p.ptr) {
                    Some(recorded) => {
                        let n = if p.size <= recorded {
                            p.size
                        } else {
                            recorded
                        };
                        match heap.read_range(p.ptr, n) {
                            Some(bytes) => {
                                let trimmed = bytes_until_zero(&bytes);
                                let text = text_of_bytes(trimmed.as_slice());
                                push_str(&mut s, text.as_str());
                            },
                            None => {},
                        }
                    },
                    None => {},
                }
            },
            Type::Register(r) => {
                push_str(&mut s, r.as_str());
            },
            Type::RegisterWithOffsets(r) => {
                push_str(&mut s, r.register.as_str());
                push_str(&mut s, "[");
                let ghost terms = terms_of(r.offsets, r.offsets.len() as nat);
                proof {
                    lemma_terms_of(r.offsets, r.offsets.len() as nat);
                }
                let ghost head = s@;
                let mut i: usize = 0;
                while i < r.offsets.len()
                    invariant
                        i <= r.offsets.len(),
                        self.0 == Type::RegisterWithOffsets(*r),
                        terms.len() == r.offsets.len(),
                        forall|j: int| 0 <= j < terms.len() ==> terms[j] == r.offsets[j]@,
                        s@ == head + display_terms(terms, i as nat, heap@),
                    decreases r.offsets.len() - i,
                {
                    proof {
                        vstd::std_specs::vec::axiom_vec_index_decreases(r.offsets, i as int);
                        assert(decreases_to!(self.0 => self.0->RegisterWithOffsets_0));
                    }
                    let piece = r.offsets[i].offset.to_text(heap);
                    push_str(&mut s, piece.as_str());
                    push_str(&mut s, r.offsets[i].operand.as_str());
                    i += 1;
                }
                push_str(&mut s, "]");
            },
            Type::Object(o) => {
                let text = o.to_text();
                push_str(&mut s, text.as_str());
            },
        }
        s
    }

    /// A copy of the value.
    pub fn underlying_data_clone(&self) -> (r: Field)
        ensures
            r@ == self@,
        decreases self,
    {
        match &self.0 {
            Type::Byte(b) => Field(Type::Byte(*b)),
            Type::Short(s) => Field(Type::Short(*s)),
            Type::Int(i) => Field(Type::Int(*i)),
            Type::UInt(u) => Field(Type::UInt(*u)),
            Type::Float(f) => Field(Type::Float(*f)),
            Type::Char(c) => Field(Type::Char(*c)),
            Type::String(s) => Field(Type::String(s.clone())),
            Type::Bool(b) => Field(Type::Bool(*b)),
            Type::Pointer(p) => Field(Type::Pointer(*p)),
            Type::Register(r) => Field(Type::Register(*r)),
            Type::RegisterWithOffsets(r) => {
                let mut offsets: Vec<RegisterOffset> = Vec::new();
                let mut i: usize = 0;
                while i < r.offsets.len()
                    invariant
                        i <= r.offsets.len(),
                        offsets.len() == i,
                        self.0 == Type::RegisterWithOffsets(*r),
                        forall|j: int| 0 <= j < i ==> offsets[j]@ == r.offsets[j]@,
                    decreases r.offsets.len() - i,
                {
                    proof {
                        vstd::std_specs::vec::axiom_vec_index_decreases(r.offsets, i as int);
                        assert(decreases_to!(self.0 => self.0->RegisterWithOffsets_0));
                    }
                    let offset = r.offsets[i].offset.underlying_data_clone();
                    offsets.push(RegisterOffset { offset, operand: r.offsets[i].operand });
                    i += 1;
                }
                let copy = RegisterWithOffset { register: r.register, offsets };
                proof {
                    lemma_offsets_view(*r);
                    lemma_offsets_view(copy);
                    assert(copy.terms() =~= r.terms());
                }
                Field(Type::RegisterWithOffsets(copy))
            },
            Type::Object(o) => Field(Type::Object(*o)),
        }
    }
}

} // verus!
