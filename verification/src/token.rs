//! Tokens: what the tokenizer hands out.

use vstd::prelude::*;

verus! {

/// The kinds of literal.
#[derive(Debug, Clone, Copy, PartialEq, Eq, Structural)]
pub enum LiteralKind {
    /// A string in double quotes. `terminated` is false where the input ended
    /// before the closing quote.
    Str { terminated: bool },
}

/// The kinds of token.
#[derive(Debug, Clone, Copy, PartialEq, Eq, Structural)]
pub enum TokenKind {
    /// A maximal run of whitespace.
    Whitespace,
    /// An identifier; keywords are not told apart here.
    Identifier,
    /// A literal.
    Literal { kind: LiteralKind },
    /// `;`
    Semi,
    /// `(`
    OpenParen,
    /// `)`
    CloseParen,
    /// `{`
    OpenBrace,
    /// `}`
    CloseBrace,
    /// `!`
    Exclam,
    /// Any codepoint that starts nothing else.
    Unknown,
}

/// A token: its kind and the number of codepoints it spans.
#[derive(Debug, Clone, Copy, PartialEq, Eq, Structural)]
pub struct Token {
    pub kind: TokenKind,
    pub len: usize,
}

/// A token as a mathematical value: the kind, and the length as a natural
/// number.
pub struct Lexeme {
    pub kind: TokenKind,
    pub len: nat,
}

impl View for Token {
    type V = Lexeme;

    open spec fn view(&self) -> Lexeme {
        Lexeme { kind: self.kind, len: self.len as nat }
    }
}

impl Token {
    pub fn new(kind: TokenKind, len: usize) -> (token: Token)
        ensures
            token == (Token { kind, len }),
    {
        return Token { kind, len };
    }
}

} // verus!
