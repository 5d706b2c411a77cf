//! The tokens that the lines of a program are read as.

use vstd::prelude::*;

verus! {

/// What a line of a program is.
#[derive(Copy, Clone, Debug, PartialEq, Eq, Structural)]
pub enum TokenType {
    /// The start of a section.
    Directive,
    /// A label, or a data constant with its name.
    Label,
    /// An instruction.
    Instruction,
    /// A line without anything.
    Empty,
    /// A line with a comment only.
    Comment,
}

/// A line of a program: what it is, and its text without the comment and
/// without the white space at its ends.
#[derive(Debug)]
pub struct Token {
    pub content: Option<String>,
    pub token_type: TokenType,
}

/// The model of a token.
pub struct TokenView {
    pub content: Seq<char>,
    pub token_type: TokenType,
}

impl View for Token {
    type V = TokenView;

    open spec fn view(&self) -> TokenView {
        TokenView {
            content: match self.content {
                Some(s) => s@,
                None => Seq::empty(),
            },
            token_type: self.token_type,
        }
    }
}

} // verus!
