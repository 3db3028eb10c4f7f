//! The lexical units that the scanner produces and the parser reads.

use vstd::prelude::*;
use vstd::string::*;
use vstd::utf8::encode_utf8;
use crate::error::Position;

verus! {

/// The closed set of token categories.
#[derive(Debug, Clone, Copy, PartialEq, Eq, Structural)]
pub enum TokenKind {
    LeftParen,
    RightParen,
    LeftBrace,
    RightBrace,
    Comma,
    Dot,
    Minus,
    Plus,
    Semicolon,
    Slash,
    Star,
    Colon,
    Question,
    Bang,
    BangEqual,
    Equal,
    EqualEqual,
    Greater,
    GreaterEqual,
    Less,
    LessEqual,
    Identifier,
    String,
    Number,
    And,
    Class,
    Else,
    False,
    Fun,
    For,
    If,
    Print,
    Return,
    Or,
    Nil,
    Super,
    This,
    True,
    Var,
    While,
    Eof,
}

/// One token: its text, its category and where it starts.
#[derive(Debug)]
pub struct Token {
    pub lexeme: String,
    pub kind: TokenKind,
    pub line: usize,
    pub column: usize,
    pub length: usize,
    pub offset: usize,
}

/// The mathematical content of a [`Token`].
pub struct TokenView {
    pub lexeme: Seq<char>,
    pub kind: TokenKind,
    pub line: usize,
    pub column: usize,
    pub length: usize,
    pub offset: usize,
}

/// The token with the given text and category at `position`; its length is
/// the number of bytes that the text takes in UTF-8.
pub open spec fn token_at(lexeme: Seq<char>, kind: TokenKind, position: Position) -> TokenView {
    TokenView {
        lexeme,
        kind,
        line: position.line,
        column: position.column,
        length: encode_utf8(lexeme).len() as usize,
        offset: position.offset,
    }
}

/// The views of a run of tokens, in order.
pub open spec fn token_views(tokens: Seq<Token>) -> Seq<TokenView> {
    Seq::new(tokens.len(), |i: int| tokens[i]@)
}

impl TokenView {
    /// Where the token starts.
    pub open spec fn position(self) -> Position {
        Position { line: self.line, column: self.column, offset: self.offset }
    }
}

impl View for Token {
    type V = TokenView;

    open spec fn view(&self) -> TokenView {
        TokenView {
            lexeme: self.lexeme@,
            kind: self.kind,
            line: self.line,
            column: self.column,
            length: self.length,
            offset: self.offset,
        }
    }
}

impl Clone for Token {
    fn clone(&self) -> (t: Self)
        ensures
            t@ == self@,
    {
        Token {
            lexeme: self.lexeme.clone(),
            kind: self.kind,
            line: self.line,
            column: self.column,
            length: self.length,
            offset: self.offset,
        }
    }
}

impl Token {
    pub fn new(lexeme: String, kind: TokenKind, line: usize, column: usize, offset: usize) -> (t:
        Self)
        ensures
            t@ == token_at(lexeme@, kind, Position { line, column, offset }),
    {
        let length = lexeme.as_str().len();
        Token { lexeme, kind, line, column, length, offset }
    }

    /// Where the token starts.
    pub fn position(&self) -> (p: Position)
        ensures
            p == self@.position(),
    {
        Position::new(self.line, self.column, self.offset)
    }
}

} // verus!
