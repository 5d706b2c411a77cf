//! Scanning text: the characters of a string, and places in them.

use crate::text::push_char;
use vstd::prelude::*;
use vstd::string::*;

verus! {

/// The characters of a string.
pub fn chars_of(s: &str) -> (v: Vec<char>)
    ensures
        v@ == s@,
{
    let mut v: Vec<char> = Vec::new();
    for c in it: s.chars()
        invariant
            v@ == it.seq().take(it.index() as int),
    {
        v.push(c);
    }
    v
}

/// The string of the characters from index `from` up to index `to`.
pub fn text_of(v: &Vec<char>, from: usize, to: usize) -> (s: String)
    requires
        from <= to <= v.len(),
    ensures
        s@ == v@.subrange(from as int, to as int),
{
    let mut s = String::new();
    let mut i: usize = from;
    while i < to
        invariant
            from <= i <= to,
            to <= v.len(),
            s@ == v@.subrange(from as int, i as int),
        decreases to - i,
    {
        push_char(&mut s, v[i]);
        i += 1;
    }
    s
}

/// Whether a character is white space inside a line.
pub open spec fn is_space(c: char) -> bool {
    c == ' ' || c == '\t' || c == '\r'
}

/// Whether a character is white space inside a line.
pub fn space(c: char) -> (b: bool)
    ensures
        b == is_space(c),
{
    c == ' ' || c == '\t' || c == '\r'
}

/// The first index at or after `i`, and before `end`, at which `c` stands,
/// or `end` if there is none.
pub open spec fn find(s: Seq<char>, c: char, i: int, end: int) -> int
    decreases end - i,
{
    if i >= end {
        end
    } else if s[i] == c {
        i
    } else {
        find(s, c, i + 1, end)
    }
}

/// The first index at or after `i`, and before `end`, at which no white
/// space stands, or `end` if there is none.
pub open spec fn skip_spaces(s: Seq<char>, i: int, end: int) -> int
    decreases end - i,
{
    if i >= end {
        end
    } else if !is_space(s[i]) {
        i
    } else {
        skip_spaces(s, i + 1, end)
    }
}

/// The least index from `from` up to `end` behind which only white space
/// stands before `end`.
pub open spec fn trim_end(s: Seq<char>, from: int, end: int) -> int
    decreases end - from,
{
    if end <= from {
        from
    } else if is_space(s[end - 1]) {
        trim_end(s, from, end - 1)
    } else {
        end
    }
}

/// Where the text between `from` and `end` starts without the white space
/// at its start.
pub open spec fn trim_from(s: Seq<char>, from: int, end: int) -> int {
    skip_spaces(s, from, end)
}

/// Where the text between `from` and `end` ends without the white space
/// at its end.
pub open spec fn trim_to(s: Seq<char>, from: int, end: int) -> int {
    trim_end(s, skip_spaces(s, from, end), end)
}

/// The text between `from` and `end` without the white space at its ends.
pub open spec fn trimmed(s: Seq<char>, from: int, end: int) -> Seq<char> {
    s.subrange(trim_from(s, from, end), trim_to(s, from, end))
}

/// The first index at or after `i`, and before `end`, at which `c` stands.
pub fn find_char(v: &Vec<char>, c: char, i: usize, end: usize) -> (r: usize)
    requires
        i <= end <= v.len(),
    ensures
        r == find(v@, c, i as int, end as int),
        i <= r <= end,
        r < end ==> v@[r as int] == c,
{
    let mut k = i;
    while k < end && v[k] != c
        invariant
            i <= k <= end,
            end <= v.len(),
            find(v@, c, i as int, end as int) == find(v@, c, k as int, end as int),
        decreases end - k,
    {
        k += 1;
    }
    k
}

/// The bounds of the text between `from` and `end` without the white
/// space at its ends.
pub fn trim(v: &Vec<char>, from: usize, end: usize) -> (r: (usize, usize))
    requires
        from <= end <= v.len(),
    ensures
        r.0 == trim_from(v@, from as int, end as int),
        r.1 == trim_to(v@, from as int, end as int),
        from <= r.0 <= r.1 <= end,
{
    let mut b = from;
    while b < end && space(v[b])
        invariant
            from <= b <= end,
            end <= v.len(),
            skip_spaces(v@, from as int, end as int) == skip_spaces(v@, b as int, end as int),
        decreases end - b,
    {
        b += 1;
    }
    let mut e = end;
    while e > b && space(v[e - 1])
        invariant
            b <= e <= end,
            end <= v.len(),
            trim_end(v@, b as int, end as int) == trim_end(v@, b as int, e as int),
        decreases e - b,
    {
        e -= 1;
    }
    (b, e)
}

/// Whether the text between `from` and `end` is `word`.
pub fn matches_at(v: &Vec<char>, from: usize, end: usize, word: &str) -> (b: bool)
    requires
        from <= end <= v.len(),
    ensures
        b == (v@.subrange(from as int, end as int) == word@),
{
    let w = chars_of(word);
    if w.len() != end - from {
        return false;
    }
    let mut i: usize = 0;
    while i < w.len()
        invariant
            i <= w.len(),
            w@ == word@,
            w.len() == end - from,
            end <= v.len(),
            forall|j: int| 0 <= j < i ==> v@[from + j] == w@[j],
        decreases w.len() - i,
    {
        if v[from + i] != w[i] {
            return false;
        }
        i += 1;
    }
    assert(v@.subrange(from as int, end as int) =~= w@);
    true
}

} // verus!
