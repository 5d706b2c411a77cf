//! Text helpers shared by the machine: comparing strings and building them.

use vstd::prelude::*;
use vstd::string::*;
use vstd::utf8::*;

verus! {

/// Two texts with the same UTF-8 bytes are the same text.
pub proof fn lemma_bytes_determine_text(a: Seq<char>, b: Seq<char>)
    requires
        encode_utf8(a) == encode_utf8(b),
    ensures
        a == b,
{
    encode_utf8_decode_utf8(a);
    encode_utf8_decode_utf8(b);
}

/// Whether two byte slices hold the same bytes.
pub fn bytes_eq(a: &[u8], b: &[u8]) -> (r: bool)
    ensures
        r == (a@ == b@),
{
    if a.len() != b.len() {
        return false;
    }
    let mut i: usize = 0;
    while i < a.len()
        invariant
            a.len() == b.len(),
            i <= a.len(),
            forall|j: int| 0 <= j < i ==> a@[j] == b@[j],
        decreases a.len() - i,
    {
        if a[i] != b[i] {
            return false;
        }
        i += 1;
    }
    assert(a@ =~= b@);
    true
}

/// Whether two strings hold the same characters.
pub fn str_eq(a: &str, b: &str) -> (r: bool)
    ensures
        r == (a@ == b@),
{
    let r = bytes_eq(a.as_bytes(), b.as_bytes());
    proof {
        if r {
            lemma_bytes_determine_text(a@, b@);
        }
    }
    r
}

/// What `String::from_utf8_lossy` makes of a byte string: its text, with
/// the replacement character in place of each ill-formed stretch.
pub uninterp spec fn lossy_text(bytes: Seq<u8>) -> Seq<char>;

/// `String::from_utf8_lossy`, made into an owned string: the lossy text of
/// the bytes.
#[verifier::external_body]
pub(crate) fn text_of_bytes(bytes: &[u8]) -> (s: String)
    ensures
        s@ == lossy_text(bytes@),
{
    String::from_utf8_lossy(bytes).into_owned()
}

/// `String::push`: appends one character.
#[verifier::external_body]
pub(crate) fn push_char(s: &mut String, c: char)
    ensures
        final(s)@ == old(s)@.push(c),
{
    s.push(c)
}

/// Whether a number is the code point of a character: a Unicode scalar
/// value, which is a code point below 0x110000 that is no surrogate.
pub open spec fn is_char_code(v: u32) -> bool {
    v <= 0xD7FF || (0xE000 <= v && v <= 0x10FFFF)
}

/// `char::from_u32`: the character with code point `v`, if `v` is the code
/// point of one.
#[verifier::external_body]
pub(crate) fn char_of(v: u32) -> (r: Option<char>)
    ensures
        is_char_code(v) ==> r == Some(v as char),
        !is_char_code(v) ==> r is None,
{
    char::from_u32(v)
}

/// The character itself. A character that was taken out of another value
/// is known to be a Unicode scalar value once it has passed through here.
pub fn scalar(c: char) -> (r: char)
    ensures
        r == c,
{
    c
}

/// The string of one character.
pub fn char_to_string(c: char) -> (s: String)
    ensures
        s@ == seq![c],
{
    let mut s = String::new();
    push_char(&mut s, c);
    s
}

/// The character that writes the digit `d`.
pub open spec fn digit_char(d: int) -> char {
    if d == 0 {
        '0'
    } else if d == 1 {
        '1'
    } else if d == 2 {
        '2'
    } else if d == 3 {
        '3'
    } else if d == 4 {
        '4'
    } else if d == 5 {
        '5'
    } else if d == 6 {
        '6'
    } else if d == 7 {
        '7'
    } else if d == 8 {
        '8'
    } else if d == 9 {
        '9'
    } else if d == 10 {
        'a'
    } else if d == 11 {
        'b'
    } else if d == 12 {
        'c'
    } else if d == 13 {
        'd'
    } else if d == 14 {
        'e'
    } else {
        'f'
    }
}

/// A natural number in decimal, without leading zeros; zero is `0`.
pub open spec fn decimal(n: nat) -> Seq<char>
    decreases n,
{
    if n < 10 {
        seq![digit_char(n as int)]
    } else {
        decimal(n / 10).push(digit_char((n % 10) as int))
    }
}

/// A natural number in hexadecimal with the digits `0` to `9` and `a` to
/// `f`, without leading zeros; zero is `0`.
pub open spec fn hex_digits(n: nat) -> Seq<char>
    decreases n,
{
    if n < 16 {
        seq![digit_char(n as int)]
    } else {
        hex_digits(n / 16).push(digit_char((n % 16) as int))
    }
}

/// An integer in decimal, with a minus sign if it is negative.
pub open spec fn signed_decimal(i: int) -> Seq<char> {
    if i < 0 {
        seq!['-'] + decimal((-i) as nat)
    } else {
        decimal(i as nat)
    }
}

/// A natural number in hexadecimal behind the prefix `0x`, with at least
/// two digits.
pub open spec fn hexadecimal(n: nat) -> Seq<char> {
    if n < 16 {
        seq!['0', 'x', '0', digit_char(n as int)]
    } else {
        seq!['0', 'x'] + hex_digits(n)
    }
}

/// The character that writes a digit.
pub fn digit(d: u8) -> (c: char)
    requires
        d < 16,
    ensures
        c == digit_char(d as int),
{
    match d {
        0 => '0',
        1 => '1',
        2 => '2',
        3 => '3',
        4 => '4',
        5 => '5',
        6 => '6',
        7 => '7',
        8 => '8',
        9 => '9',
        10 => 'a',
        11 => 'b',
        12 => 'c',
        13 => 'd',
        14 => 'e',
        _ => 'f',
    }
}

/// Appends `n` in decimal.
pub fn push_decimal(s: &mut String, n: u64)
    ensures
        final(s)@ == old(s)@ + decimal(n as nat),
    decreases n,
{
    if n >= 10 {
        push_decimal(s, n / 10);
    }
    push_char(s, digit((n % 10) as u8));
}

/// Appends the hexadecimal digits of `n`.
pub fn push_hex_digits(s: &mut String, n: u64)
    ensures
        final(s)@ == old(s)@ + hex_digits(n as nat),
    decreases n,
{
    if n >= 16 {
        push_hex_digits(s, n / 16);
    }
    push_char(s, digit((n % 16) as u8));
}

/// Appends `i` in decimal, with its sign.
pub fn push_signed(s: &mut String, i: i64)
    ensures
        final(s)@ == old(s)@ + signed_decimal(i as int),
{
    if i < 0 {
        push_char(s, '-');
        let magnitude: u64 = if i == i64::MIN {
            0x8000_0000_0000_0000
        } else {
            (-i) as u64
        };
        push_decimal(s, magnitude);
    } else {
        push_decimal(s, i as u64);
    }
}

/// Appends `n` in hexadecimal, prefixed, with at least two digits.
pub fn push_hex(s: &mut String, n: u64)
    ensures
        final(s)@ == old(s)@ + hexadecimal(n as nat),
{
    push_char(s, '0');
    push_char(s, 'x');
    if n < 16 {
        push_char(s, '0');
        push_char(s, digit(n as u8));
    } else {
        push_hex_digits(s, n);
    }
}

/// Appends a piece of text.
pub fn push_str(s: &mut String, piece: &str)
    ensures
        final(s)@ == old(s)@ + piece@,
{
    s.append(piece);
}

/// Whether a character is a decimal digit.
pub open spec fn is_digit(c: char) -> bool {
    '0' <= c && c <= '9'
}

/// The number that a string of decimal digits writes.
pub open spec fn number_of(s: Seq<char>) -> int
    decreases s.len(),
{
    if s.len() == 0 {
        0
    } else {
        number_of(s.drop_last()) * 10 + (s.last() as int - 48)
    }
}

/// Whether every character is a decimal digit.
pub open spec fn all_digits(s: Seq<char>) -> bool {
    forall|i: int| 0 <= i < s.len() ==> is_digit(#[trigger] s[i])
}

/// Whether a number text starts with a sign: a plus sign, or a minus sign
/// where one is read.
pub open spec fn has_sign(s: Seq<char>, signed: bool) -> bool {
    s.len() > 0 && (s[0] == '+' || (signed && s[0] == '-'))
}

/// Whether a number text starts with a minus sign that is read.
pub open spec fn is_negative(s: Seq<char>, signed: bool) -> bool {
    signed && s.len() > 0 && s[0] == '-'
}

/// A number text without its sign.
pub open spec fn digits_of(s: Seq<char>, signed: bool) -> Seq<char> {
    if has_sign(s, signed) {
        s.subrange(1, s.len() as int)
    } else {
        s
    }
}

/// Whether a text writes an integer in decimal: digits, at least one,
/// behind at most one sign. A minus sign is read only if `signed`.
pub open spec fn is_integer_text(s: Seq<char>, signed: bool) -> bool {
    digits_of(s, signed).len() > 0 && all_digits(digits_of(s, signed))
}

/// The integer that a text writes in decimal, if it writes one.
pub open spec fn parse_integer(s: Seq<char>, signed: bool) -> Option<int> {
    if !is_integer_text(s, signed) {
        None
    } else if is_negative(s, signed) {
        Some(-number_of(digits_of(s, signed)))
    } else {
        Some(number_of(digits_of(s, signed)))
    }
}

/// The signed 64-bit integer that a text writes, if it writes one.
pub open spec fn parse_i64(s: Seq<char>) -> Option<i64> {
    match parse_integer(s, true) {
        Some(v) => if i64::MIN <= v <= i64::MAX {
            Some(v as i64)
        } else {
            None
        },
        None => None,
    }
}

/// The unsigned word that a text writes, if it writes one.
pub open spec fn parse_usize(s: Seq<char>) -> Option<usize> {
    match parse_integer(s, false) {
        Some(v) => if v <= usize::MAX {
            Some(v as usize)
        } else {
            None
        },
        None => None,
    }
}

/// The character that a text of exactly one character writes.
pub open spec fn parse_char(s: Seq<char>) -> Option<char> {
    if s.len() == 1 {
        Some(s[0])
    } else {
        None
    }
}

/// The number written by a string of digits with one more digit is ten
/// times the number written without it, plus the digit.
pub proof fn lemma_number_of_step(s: Seq<char>, i: int)
    requires
        0 <= i < s.len(),
    ensures
        number_of(s.subrange(0, i + 1)) == number_of(s.subrange(0, i)) * 10 + (s[i] as int - 48),
{
    assert(s.subrange(0, i + 1).drop_last() =~= s.subrange(0, i));
}

/// A number written in decimal is a string of digits that writes it.
pub proof fn lemma_decimal_is_read_back(n: nat)
    ensures
        decimal(n).len() > 0,
        all_digits(decimal(n)),
        number_of(decimal(n)) == n,
        decimal(n)[0] != '-' && decimal(n)[0] != '+',
    decreases n,
{
    let d = digit_char((n % 10) as int);
    assert(d as int - 48 == n % 10);
    if n >= 10 {
        lemma_decimal_is_read_back(n / 10);
        let head = decimal(n / 10);
        assert(decimal(n) == head.push(d));
        assert(decimal(n).drop_last() =~= head);
        assert(decimal(n).last() == d);
        assert forall|i: int| 0 <= i < decimal(n).len() implies is_digit(
            #[trigger] decimal(n)[i],
        ) by {
            if i < head.len() {
                assert(decimal(n)[i] == head[i]);
            }
        }
    } else {
        assert(decimal(n) == seq![d]);
        assert(decimal(n).drop_last() =~= Seq::<char>::empty());
        assert(decimal(n).last() == d);
        assert(number_of(Seq::<char>::empty()) == 0);
    }
    assert(number_of(decimal(n)) == number_of(decimal(n).drop_last()) * 10 + (
    decimal(n).last() as int - 48));
}

/// An integer written in decimal is read back as itself.
pub proof fn lemma_signed_decimal_is_read_back(i: i64)
    ensures
        parse_i64(signed_decimal(i as int)) == Some(i),
{
    if i < 0 {
        let n = (-i) as nat;
        lemma_decimal_is_read_back(n);
        let s = signed_decimal(i as int);
        assert(s[0] == '-');
        assert(s.subrange(1, s.len() as int) =~= decimal(n));
    } else {
        lemma_decimal_is_read_back(i as nat);
    }
}

/// An unsigned word written in decimal is read back as itself.
pub proof fn lemma_decimal_word_is_read_back(u: usize)
    ensures
        parse_usize(decimal(u as nat)) == Some(u),
{
    lemma_decimal_is_read_back(u as nat);
}

/// A text with a character outside ASCII writes no integer.
pub proof fn lemma_integer_text_is_ascii(s: Seq<char>, signed: bool)
    requires
        is_integer_text(s, signed),
    ensures
        is_ascii_chars(s),
{
    let body = digits_of(s, signed);
    assert forall|i: int| 0 <= i < s.len() implies '\0' <= #[trigger] s[i] <= '\u{7f}' by {
        if has_sign(s, signed) {
            if i > 0 {
                assert(body[i - 1] == s[i]);
            }
        }
    }
}

/// The cap on the size that `read_integer` gives: sizes above 2^64 are
/// given as this.
pub const SIZE_CAP: u128 = 0x1_0000_0000_0000_0001;

/// Whether the text writes an integer, and then whether it is written with
/// a minus sign, and its size, capped.
pub fn read_integer(s: &str, signed: bool) -> (r: Option<(bool, u128)>)
    ensures
        r is Some == is_integer_text(s@, signed),
        r is Some ==> r->Some_0.0 == is_negative(s@, signed),
        r is Some ==> r->Some_0.1 == if number_of(digits_of(s@, signed)) < SIZE_CAP {
            number_of(digits_of(s@, signed))
        } else {
            SIZE_CAP as int
        },
{
    broadcast use is_ascii_spec_bytes;

    if !s.is_ascii() {
        proof {
            if is_integer_text(s@, signed) {
                lemma_integer_text_is_ascii(s@, signed);
            }
        }
        return None;
    }
    let n = s.as_bytes().len();
    proof {
        is_ascii_chars_encode_utf8(s@);
    }
    if n == 0 {
        return None;
    }
    let first = s.get_ascii(0);
    let negative = signed && first == 45;
    let start: usize = if first == 43 || negative {
        1
    } else {
        0
    };
    if start == n {
        return None;
    }
    let ghost body = s@.subrange(start as int, n as int);
    let mut acc: u128 = 0;
    let mut i: usize = start;
    while i < n
        invariant
            start <= i <= n,
            n == s@.len(),
            s.is_ascii(),
            body == s@.subrange(start as int, n as int),
            body == digits_of(s@, signed),
            forall|j: int| 0 <= j < i - start ==> is_digit(#[trigger] body[j]),
            acc <= SIZE_CAP,
            0 <= number_of(body.subrange(0, i - start)),
            acc < SIZE_CAP ==> acc == number_of(body.subrange(0, i - start)),
            acc == SIZE_CAP ==> number_of(body.subrange(0, i - start)) >= SIZE_CAP,
        decreases n - i,
    {
        let c = s.get_ascii(i);
        assert(body[i - start] == s@[i as int]);
        if c < 48 || c > 57 {
            return None;
        }
        proof {
            lemma_number_of_step(body, i - start);
        }
        if acc < SIZE_CAP {
            acc = acc * 10 + (c - 48) as u128;
            if acc > SIZE_CAP {
                acc = SIZE_CAP;
            }
        }
        i += 1;
    }
    assert(body.subrange(0, n - start) =~= body);
    Some((negative, acc))
}

/// Reads a signed 64-bit integer in decimal.
pub fn read_i64(s: &str) -> (r: Option<i64>)
    ensures
        r == parse_i64(s@),
{
    match read_integer(s, true) {
        None => None,
        Some((negative, size)) => {
            if negative {
                if size > 0x8000_0000_0000_0000 {
                    None
                } else if size == 0x8000_0000_0000_0000 {
                    Some(i64::MIN)
                } else {
                    Some(-(size as i64))
                }
            } else {
                if size > 0x7fff_ffff_ffff_ffff {
                    None
                } else {
                    Some(size as i64)
                }
            }
        },
    }
}

/// Reads an unsigned word in decimal.
pub fn read_usize(s: &str) -> (r: Option<usize>)
    ensures
        r == parse_usize(s@),
{
    match read_integer(s, false) {
        None => None,
        Some((_, size)) => {
            if size > usize::MAX as u128 {
                None
            } else {
                Some(size as usize)
            }
        },
    }
}

/// Reads a text of exactly one character.
pub fn read_char(s: &str) -> (r: Option<char>)
    ensures
        r == parse_char(s@),
{
    if s.unicode_len() == 1 {
        Some(s.get_char(0))
    } else {
        None
    }
}

/// The text `text` with `new` written over it from byte offset `k` on. If
/// `new` reaches beyond the end, the text ends with it. There is none
/// unless the offset, and the end of what is replaced, stand between two
/// characters.
pub open spec fn spliced(text: Seq<char>, k: int, new: Seq<char>) -> Option<Seq<char>> {
    let b = encode_utf8(text);
    let n = encode_utf8(new).len();
    if k > b.len() || !is_char_boundary(b, k) {
        None
    } else if k + n > b.len() {
        Some(decode_utf8(b.subrange(0, k)) + new)
    } else if !is_char_boundary(b, k + n) {
        None
    } else {
        Some(decode_utf8(b.subrange(0, k)) + new + decode_utf8(b.subrange(k + n, b.len() as int)))
    }
}

/// Writes `new` over `text` from byte offset `k` on.
pub fn splice(text: &str, k: usize, new: &str) -> (r: Option<String>)
    ensures
        match spliced(text@, k as int, new@) {
            Some(t) => r is Some && r->Some_0@ == t,
            None => r is None,
        },
{
    let len = text.as_bytes().len();
    let n = new.as_bytes().len();
    if k > len || !text.is_char_boundary(k) {
        return None;
    }
    let (left, _) = text.split_at(k);
    proof {
        encode_utf8_decode_utf8(left@);
    }
    let mut out = String::from_str(left);
    out.append(new);
    if n > len - k {
        return Some(out);
    }
    if !text.is_char_boundary(k + n) {
        return None;
    }
    let (_, right) = text.split_at(k + n);
    proof {
        encode_utf8_decode_utf8(right@);
    }
    out.append(right);
    Some(out)
}

} // verus!
