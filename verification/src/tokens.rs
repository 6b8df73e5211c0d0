//! Token kinds and tokens.

use vstd::prelude::*;

verus! {

/// The closed set of token kinds.
#[derive(Debug, Clone, Copy, PartialEq, Eq, Structural)]
pub enum TokenType {
    // Brackets
    CurlyBraceOpen,
    CurlyBraceClose,
    SquareBraceOpen,
    SquareBraceClose,
    RoundBraceOpen,
    RoundBraceClose,
    // Operators
    Plus,
    Minus,
    SlashForward,
    Asterisk,
    Equal,
    EqualEqual,
    Bang,
    BangEqual,
    GreaterThan,
    GreaterEqual,
    LessThan,
    LessEqual,
    Ampersand,
    AmpersandDouble,
    Pipe,
    PipeDouble,
    // Keywords
    Struct,
    Impl,
    For,
    While,
    Break,
    Continue,
    If,
    Else,
    Define,
    DashArrow,
    Let,
    True,
    False,
    NoneLiteral,
    Return,
    Echo,
    // Characters
    SlashBack,
    Semicolon,
    Comma,
    DoubleColon,
    Dot,
    QuestionMark,
    Colon,
    // Literals
    Number,
    String,
    StringLatex,
    Identifier,
    // End of input
    EndOfFile,
}

/// One lexical unit: its kind, the slice of the block text it spans, and the
/// line on which it starts.
#[derive(Debug, Clone, Copy)]
pub struct Token<'a> {
    pub type_: TokenType,
    pub lexeme: &'a str,
    pub line: usize,
}

impl<'a> Token<'a> {
    pub fn new(ty: TokenType, lex: &'a str, line: usize) -> (token: Self)
        ensures
            token.type_ == ty,
            token.lexeme == lex,
            token.line == line,
    {
        Self { type_: ty, lexeme: lex, line: line }
    }
}

} // verus!
