//! Tokens: the classified lexical units that the parser consumes.
//!
//! An external scanner classifies raw source text into a finite sequence of
//! these tokens; the parser never re-invokes it. A token carries its lexical
//! kind (with the literal payload for number, text and identifier tokens),
//! the lexeme it was read from, a source offset and a line number.

use vstd::prelude::*;

verus! {

/// The lexical kind of a token. Number, text and identifier tokens carry
/// their literal payload.
#[derive(Debug, Clone, PartialEq)]
pub enum TokenType {
    LeftParen,
    RightParen,
    LeftBrace,
    RightBrace,
    Comma,
    Dot,
    Minus,
    Plus,
    SemiColon,
    Slash,
    Star,
    Bang,
    BangEqual,
    Equal,
    EqualEqual,
    Greater,
    GreaterEqual,
    Less,
    LessEqual,
    Identifier(String),
    String(String),
    Number(i64),
    And,
    Class,
    Else,
    False,
    Fun,
    For,
    If,
    Nil,
    Or,
    Print,
    Return,
    Super,
    This,
    True,
    Var,
    While,
    Eof,
}

/// One classified lexical unit: kind, optional lexeme, source offset, line.
#[derive(Debug, Clone, PartialEq)]
pub struct Token {
    pub token: TokenType,
    pub lexeme: Option<String>,
    pub num: usize,
    pub line: usize,
}

impl Token {
    pub fn new(token: TokenType, lexeme: Option<String>, num: usize, line: usize) -> (t: Self)
        ensures
            t == (Token { token, lexeme, num, line }),
    {
        Token { token, lexeme, num, line }
    }

    pub fn token_type(&self) -> (t: &TokenType)
        ensures
            *t == self.token,
    {
        &self.token
    }
}

} // verus!
