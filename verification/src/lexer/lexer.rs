//! The front end: it reads the text of a program into tokens, line by
//! line, and builds the program from the tokens.

use crate::lexer::operand::{operand_field, operand_value, slice_of};
use crate::lexer::scan::{
    chars_of, find, find_char, is_space, matches_at, space, text_of, trim, trim_from, trim_to,
    trimmed,
};
use crate::lexer::token::{Token, TokenType, TokenView};
use crate::text::str_eq;
use crate::types::Value;
use crate::vm::field::Field;
use crate::vm::instruction::{Instruction, InstructionView};
use crate::vm::opcode::OpCode;
use crate::vm::program::{data_views, instruction_views, Program};
use vstd::prelude::*;
use vstd::string::*;

verus! {

/// Whether a character is a quote.
pub open spec fn is_quote(c: char) -> bool {
    c == '"' || c == '\''
}

/// Where the comment of the line between `i` and `end` starts: at the
/// first semicolon that does not stand between quotes, or at `end` if
/// there is none. `quote` is the quote that is open at `i`.
pub open spec fn comment_start(s: Seq<char>, i: int, end: int, quote: Option<char>) -> int
    decreases end - i,
{
    if i >= end {
        end
    } else {
        match quote {
            Some(q) => comment_start(
                s,
                i + 1,
                end,
                if s[i] == q {
                    None
                } else {
                    quote
                },
            ),
            None => if s[i] == ';' {
                i
            } else {
                comment_start(
                    s,
                    i + 1,
                    end,
                    if is_quote(s[i]) {
                        Some(s[i])
                    } else {
                        None
                    },
                )
            },
        }
    }
}

/// Whether a character ends the first word of a line.
pub open spec fn ends_word(c: char) -> bool {
    is_space(c) || c == ':' || c == ',' || is_quote(c) || c == '['
}

/// Where the word that starts at `i` ends: at the first character that
/// ends a word, or at `end`.
pub open spec fn word_end(s: Seq<char>, i: int, end: int) -> int
    decreases end - i,
{
    if i >= end {
        end
    } else if ends_word(s[i]) {
        i
    } else {
        word_end(s, i + 1, end)
    }
}

/// The text with which a section starts.
pub open spec fn section_mark() -> Seq<char> {
    "section ."@
}

/// The token that the line between `from` and `end` is read as. What
/// stands from the first semicolon outside quotes on is a comment; the rest
/// without the white space at its ends is the statement. A line without a
/// statement is empty, or a comment. A statement that starts with
/// `section .` is a directive, and its content is the name of the section.
/// A statement whose first word ends at a colon is a label, and any other
/// an instruction; the content of both is the statement.
pub open spec fn token_of(s: Seq<char>, from: int, end: int) -> TokenView {
    let cs = comment_start(s, from, end, None);
    let b = trim_from(s, from, cs);
    let e = trim_to(s, from, cs);
    if b >= e {
        if cs < end {
            TokenView { content: trimmed(s, cs + 1, end), token_type: TokenType::Comment }
        } else {
            TokenView { content: Seq::empty(), token_type: TokenType::Empty }
        }
    } else if e - b >= 9 && s.subrange(b, b + 9) == section_mark() {
        TokenView { content: trimmed(s, b + 9, e), token_type: TokenType::Directive }
    } else if b < word_end(s, b, e) < e && s[word_end(s, b, e)] == ':' {
        TokenView { content: s.subrange(b, e), token_type: TokenType::Label }
    } else {
        TokenView { content: s.subrange(b, e), token_type: TokenType::Instruction }
    }
}

/// The tokens of the lines of a text from index `i` on, one for each line.
pub open spec fn tokens_from(s: Seq<char>, i: int) -> Seq<TokenView>
    decreases s.len() - i,
{
    let p = find(s, '\n', i, s.len() as int);
    if p < i || p >= s.len() {
        seq![token_of(s, i, s.len() as int)]
    } else {
        seq![token_of(s, i, p)] + tokens_from(s, p + 1)
    }
}

/// Whether a character stands between two operands.
pub open spec fn is_separator(c: char) -> bool {
    is_space(c) || c == ','
}

/// The first index at or after `i`, and before `end`, at which no
/// separator stands.
pub open spec fn skip_separators(s: Seq<char>, i: int, end: int) -> int
    decreases end - i,
{
    if i >= end {
        end
    } else if !is_separator(s[i]) {
        i
    } else {
        skip_separators(s, i + 1, end)
    }
}

/// Where an operand without quotes ends that is read from `i` on: at the
/// first separator that does not stand between brackets, or at `end`.
pub open spec fn plain_end(s: Seq<char>, i: int, end: int, inside: bool) -> int
    decreases end - i,
{
    if i >= end {
        end
    } else if inside {
        plain_end(s, i + 1, end, s[i] != ']')
    } else if is_separator(s[i]) {
        i
    } else {
        plain_end(s, i + 1, end, s[i] == '[')
    }
}

/// Where the operand ends that starts at `b`: one that starts with a quote
/// behind the next quote of its kind, or at `end` if there is none.
pub open spec fn operand_end(s: Seq<char>, b: int, end: int) -> int {
    if is_quote(s[b]) {
        if find(s, s[b], b + 1, end) < end {
            find(s, s[b], b + 1, end) + 1
        } else {
            end
        }
    } else {
        plain_end(s, b, end, false)
    }
}

/// The operands that the text between `i` and `end` writes, separated by
/// commas and white space.
pub open spec fn operands_from(s: Seq<char>, i: int, end: int) -> Seq<Value>
    decreases end - i,
{
    let b = skip_separators(s, i, end);
    if b < i || b >= end {
        Seq::empty()
    } else {
        let e = operand_end(s, b, end);
        if e <= b || e > end {
            Seq::empty()
        } else {
            seq![operand_value(s.subrange(b, e))] + operands_from(s, e, end)
        }
    }
}

/// The instruction that a statement writes: the first word is the
/// mnemonic, and the operands follow it.
pub open spec fn instruction_of(c: Seq<char>) -> InstructionView {
    let m = word_end(c, 0, c.len() as int);
    InstructionView {
        opcode: OpCode::of_mnemonic(c.subrange(0, m)),
        operands: operands_from(c, m, c.len() as int),
    }
}

/// What has been built of a program, and the section that is being read.
pub struct Built {
    pub section: Seq<char>,
    pub instructions: Seq<InstructionView>,
    pub labels: Map<Seq<char>, usize>,
    pub data: Map<Seq<char>, Value>,
}

/// The name of the section of data constants.
pub open spec fn data_section() -> Seq<char> {
    "data"@
}

/// What has been built after a token has been taken in. A directive
/// starts its section. A label with a value in the data section is a data
/// constant. Any other label names the instruction that comes next, and
/// what follows it on its line is an instruction. An instruction is added
/// to the program.
pub open spec fn taken(b: Built, t: TokenView) -> Built {
    match t.token_type {
        TokenType::Directive => Built { section: t.content, ..b },
        TokenType::Label => {
            let c = t.content;
            let w = find(c, ':', 0, c.len() as int);
            let name = c.subrange(0, w);
            let from = if w < c.len() {
                w + 1
            } else {
                c.len() as int
            };
            let rest = trimmed(c, from, c.len() as int);
            if rest.len() == 0 {
                Built { labels: b.labels.insert(name, b.instructions.len() as usize), ..b }
            } else if b.section == data_section() {
                Built { data: b.data.insert(name, operand_value(rest)), ..b }
            } else {
                Built {
                    labels: b.labels.insert(name, b.instructions.len() as usize),
                    instructions: b.instructions.push(instruction_of(rest)),
                    ..b
                }
            }
        },
        TokenType::Instruction => Built {
            instructions: b.instructions.push(instruction_of(t.content)),
            ..b
        },
        TokenType::Empty | TokenType::Comment => b,
    }
}

/// What has been built after the first `n` tokens have been taken in.
pub open spec fn built(tokens: Seq<TokenView>, n: nat) -> Built
    decreases n,
{
    if n == 0 || n > tokens.len() {
        Built {
            section: Seq::empty(),
            instructions: Seq::empty(),
            labels: Map::empty(),
            data: Map::empty(),
        }
    } else {
        taken(built(tokens, (n - 1) as nat), tokens[n - 1])
    }
}

/// The program that a text writes.
pub open spec fn parsed(text: Seq<char>) -> Built {
    built(tokens_from(text, 0), tokens_from(text, 0).len())
}

/// Whether a program is what has been built.
pub open spec fn is_built(p: Program, b: Built) -> bool {
    &&& instruction_views(p.instructions@) == b.instructions
    &&& p.labels@ == b.labels
    &&& data_views(p.data@) == b.data
}

/// The models of tokens.
pub open spec fn token_views(tokens: Seq<Token>) -> Seq<TokenView> {
    tokens.map_values(|t: Token| t@)
}

/// The front end.
pub struct Lexer;

/// Whether a character is a quote.
fn quote(c: char) -> (b: bool)
    ensures
        b == is_quote(c),
{
    c == '"' || c == '\''
}

/// Whether a character stands between two operands.
fn separator(c: char) -> (b: bool)
    ensures
        b == is_separator(c),
{
    space(c) || c == ','
}

/// Where the comment of the line between `from` and `end` starts.
fn find_comment(v: &Vec<char>, from: usize, end: usize) -> (r: usize)
    requires
        from <= end <= v.len(),
    ensures
        r == comment_start(v@, from as int, end as int, None),
        from <= r <= end,
{
    let mut i = from;
    let mut open: Option<char> = None;
    while i < end
        invariant
            from <= i <= end,
            end <= v.len(),
            comment_start(v@, from as int, end as int, None) == comment_start(
                v@,
                i as int,
                end as int,
                open,
            ),
        decreases end - i,
    {
        let c = v[i];
        match open {
            Some(q) => {
                if c == q {
                    open = None;
                }
            },
            None => {
                if c == ';' {
                    return i;
                }
                if quote(c) {
                    open = Some(c);
                }
            },
        }
        i += 1;
    }
    end
}

/// Where the word that starts at `from` ends.
fn find_word_end(v: &Vec<char>, from: usize, end: usize) -> (r: usize)
    requires
        from <= end <= v.len(),
    ensures
        r == word_end(v@, from as int, end as int),
        from <= r <= end,
{
    let mut i = from;
    while i < end && !(space(v[i]) || v[i] == ':' || v[i] == ',' || quote(v[i]) || v[i] == '[')
        invariant
            from <= i <= end,
            end <= v.len(),
            word_end(v@, from as int, end as int) == word_end(v@, i as int, end as int),
        decreases end - i,
    {
        i += 1;
    }
    i
}

/// Reads the line between `from` and `end`.
fn read_token(v: &Vec<char>, from: usize, end: usize) -> (t: Token)
    requires
        from <= end <= v.len(),
    ensures
        t@ == token_of(v@, from as int, end as int),
{
    let cs = find_comment(v, from, end);
    let (b, e) = trim(v, from, cs);
    if b >= e {
        if cs < end {
            let (cb, ce) = trim(v, cs + 1, end);
            return Token { content: Some(text_of(v, cb, ce)), token_type: TokenType::Comment };
        }
        return Token { content: Some(String::new()), token_type: TokenType::Empty };
    }
    if e - b >= 9 && matches_at(v, b, b + 9, "section .") {
        let (nb, ne) = trim(v, b + 9, e);
        return Token { content: Some(text_of(v, nb, ne)), token_type: TokenType::Directive };
    }
    let w = find_word_end(v, b, e);
    if b < w && w < e && v[w] == ':' {
        Token { content: Some(text_of(v, b, e)), token_type: TokenType::Label }
    } else {
        Token { content: Some(text_of(v, b, e)), token_type: TokenType::Instruction }
    }
}

/// Reads the operands between `from` and `end`.
fn read_operands(v: &Vec<char>, from: usize, end: usize) -> (r: Vec<Field>)
    requires
        from <= end <= v.len(),
    ensures
        r@.map_values(|f: Field| f@) == operands_from(v@, from as int, end as int),
{
    let mut out: Vec<Field> = Vec::new();
    let mut i = from;
    loop
        invariant
            from <= i <= end,
            end <= v.len(),
            out@.map_values(|f: Field| f@) + operands_from(v@, i as int, end as int)
                == operands_from(v@, from as int, end as int),
        decreases end - i,
    {
        let mut b = i;
        while b < end && separator(v[b])
            invariant
                i <= b <= end,
                end <= v.len(),
                skip_separators(v@, i as int, end as int) == skip_separators(
                    v@,
                    b as int,
                    end as int,
                ),
            decreases end - b,
        {
            b += 1;
        }
        if b >= end {
            return out;
        }
        let e: usize = if quote(v[b]) {
            let close = find_char(v, v[b], b + 1, end);
            if close < end {
                close + 1
            } else {
                end
            }
        } else {
            let mut k = b;
            let mut inside = false;
            while k < end && (inside || !separator(v[k]))
                invariant
                    b <= k <= end,
                    end <= v.len(),
                    !is_separator(v@[b as int]),
                    k == b ==> !inside,
                    plain_end(v@, b as int, end as int, false) == plain_end(
                        v@,
                        k as int,
                        end as int,
                        inside,
                    ),
                decreases end - k,
            {
                if inside {
                    inside = v[k] != ']';
                } else {
                    inside = v[k] == '[';
                }
                k += 1;
            }
            k
        };
        let piece = slice_of(v, b, e);
        out.push(operand_field(&piece));
        i = e;
    }
}

/// Reads a statement as an instruction.
fn read_instruction(c: &Vec<char>) -> (r: Instruction)
    ensures
        r@ == instruction_of(c@),
{
    let m = find_word_end(c, 0, c.len());
    let word = text_of(c, 0, m);
    let opcode = OpCode::from(word.as_str());
    let operands = read_operands(c, m, c.len());
    Instruction::new(opcode, operands)
}

impl Lexer {
    /// A front end.
    pub fn new() -> Lexer {
        Lexer {}
    }

    /// Reads a text into tokens, one for each line.
    pub fn tokenize(&self, input: &str) -> (tokens: Vec<Token>)
        ensures
            token_views(tokens@) == tokens_from(input@, 0),
    {
        let v = chars_of(input);
        let n = v.len();
        let mut tokens: Vec<Token> = Vec::new();
        let mut i: usize = 0;
        loop
            invariant
                i <= n,
                n == v.len(),
                v@ == input@,
                token_views(tokens@) + tokens_from(v@, i as int) == tokens_from(v@, 0),
            decreases n - i,
        {
            let p = find_char(&v, '\n', i, n);
            if p >= n {
                tokens.push(read_token(&v, i, n));
                return tokens;
            }
            tokens.push(read_token(&v, i, p));
            i = p + 1;
        }
    }

    /// Builds the program that the tokens write.
    pub fn build(&self, tokens: Vec<Token>) -> (program: Program)
        ensures
            is_built(program, built(token_views(tokens@), tokens@.len())),
    {
        let ghost views = token_views(tokens@);
        let mut program = Program::new();
        let mut section = String::new();
        let mut i: usize = 0;
        assert(instruction_views(program.instructions@) =~= Seq::empty());
        assert(data_views(program.data@) =~= Map::empty());
        while i < tokens.len()
            invariant
                i <= tokens.len(),
                views == token_views(tokens@),
                is_built(program, built(views, i as nat)),
                section@ == built(views, i as nat).section,
            decreases tokens.len() - i,
        {
            let token = &tokens[i];
            let content: Vec<char> = match &token.content {
                Some(s) => chars_of(s.as_str()),
                None => Vec::new(),
            };
            match token.token_type {
                TokenType::Directive => {
                    section = text_of(&content, 0, content.len());
                },
                TokenType::Label => {
                    let n = content.len();
                    let w = find_char(&content, ':', 0, n);
                    let name = text_of(&content, 0, w);
                    let from = if w < n {
                        w + 1
                    } else {
                        n
                    };
                    let (b, e) = trim(&content, from, n);
                    let rest = slice_of(&content, b, e);
                    if rest.len() == 0 {
                        let pc = program.instructions.len();
                        program.labels.insert(name, pc);
                    } else if str_eq(section.as_str(), "data") {
                        let value = operand_field(&rest);
                        let ghost data_before = data_views(program.data@);
                        program.data.insert(name, value);
                        assert(data_views(program.data@) =~= data_before.insert(name@, value@));
                    } else {
                        let pc = program.instructions.len();
                        program.labels.insert(name, pc);
                        let ghost before = instruction_views(program.instructions@);
                        let instruction = read_instruction(&rest);
                        program.instructions.push(instruction);
                        assert(instruction_views(program.instructions@) =~= before.push(
                            instruction@,
                        ));
                    }
                },
                TokenType::Instruction => {
                    let ghost before = instruction_views(program.instructions@);
                    let instruction = read_instruction(&content);
                    program.instructions.push(instruction);
                    assert(instruction_views(program.instructions@) =~= before.push(instruction@));
                },
                TokenType::Empty => {},
                TokenType::Comment => {},
            }
            i += 1;
        }
        program
    }

    /// Reads the text of a program.
    pub fn process(&self, input: String) -> (r: Option<Program>)
        ensures
            r is Some,
            is_built(r->Some_0, parsed(input@)),
    {
        let tokens = self.tokenize(input.as_str());
        Some(self.build(tokens))
    }
}

} // verus!
