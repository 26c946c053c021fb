//! Tokens produced by the scanner and consumed by the parser.
use vstd::prelude::*;

verus! {

/// The closed set of token kinds of the language.
#[derive(Debug, Copy, Clone, PartialEq, Eq, Structural)]
pub enum TokenType {
    // Single-character tokens.
    LeftParen,
    RightParen,
    LeftBrace,
    RightBrace,
    Comma,
    Dot,
    Minus,
    Plus,
    Semicolon,
    Slash,
    Star,
    // One or two character tokens.
    Bang,
    BangEqual,
    Equal,
    EqualEqual,
    Greater,
    GreaterEqual,
    Less,
    LessEqual,
    // Literals.
    Identifier,
    String,
    Number,
    // Keywords.
    And,
    Class,
    Else,
    False,
    Fun,
    For,
    If,
    Nil,
    Or,
    Print,
    Return,
    Super,
    This,
    True,
    Var,
    While,
    Eof,
}

/// A token: the source substring it stands for and its kind.
#[derive(Debug, PartialEq)]
pub struct Token {
    pub lexeme: String,
    pub token_type: TokenType,
}

/// The mathematical value of a token: its lexeme as a sequence of
/// characters, and its kind.
pub struct SpecToken {
    pub lexeme: Seq<char>,
    pub token_type: TokenType,
}

impl View for Token {
    type V = SpecToken;

    open spec fn view(&self) -> SpecToken {
        SpecToken { lexeme: self.lexeme@, token_type: self.token_type }
    }
}

pub open spec fn tokens_view(ts: Seq<Token>) -> Seq<SpecToken> {
    ts.map_values(|t: Token| t@)
}

impl Clone for Token {
    fn clone(&self) -> (r: Self)
        ensures
            r@ == self@,
    {
        Token { lexeme: self.lexeme.clone(), token_type: self.token_type }
    }
}

impl Token {
    pub fn new(lexeme: String, token_type: TokenType) -> (r: Token)
        ensures
            r@ == (SpecToken { lexeme: lexeme@, token_type }),
    {
        Token { lexeme, token_type }
    }

    pub fn token_type(&self) -> (r: TokenType)
        ensures
            r == self@.token_type,
    {
        self.token_type
    }

    pub fn lexeme(&self) -> (r: String)
        ensures
            r@ == self@.lexeme,
    {
        self.lexeme.clone()
    }
}

} // verus!
