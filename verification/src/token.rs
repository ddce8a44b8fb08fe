//! Tokens: the smallest lexical units of the language.

use vstd::prelude::*;

verus! {

/// The shape of a token, without its payload.
///
/// Two tokens are of the same kind exactly when the parser treats them alike:
/// any number literal satisfies an expectation of "a number", whatever its
/// digits.
#[derive(Debug, Clone, Copy, PartialEq, Eq, Structural)]
pub enum TokenKind {
    Identifier,
    Fn,
    Let,
    If,
    Else,
    While,
    True,
    False,
    String,
    Number,
    LeftParen,
    RightParen,
    LeftBrace,
    RightBrace,
    Plus,
    Minus,
    Asterisk,
    Slash,
    Assign,
    Comma,
    Bang,
    Eof,
}

/// A token as the lexer produces it and the parser consumes it.
///
/// `Identifier`, `String` and `Number` carry their literal text. A number's text
/// is the literal as written, without grouping underscores: digits, optionally
/// followed by a point and more digits.
#[derive(Debug, PartialEq, Eq)]
pub enum Token {
    Identifier(String),
    Fn,
    Let,
    If,
    Else,
    While,
    True,
    False,
    String(String),
    Number(String),
    LeftParen,
    RightParen,
    LeftBrace,
    RightBrace,
    Plus,
    Minus,
    Asterisk,
    Slash,
    Assign,
    Comma,
    Bang,
    Eof,
}

/// The mathematical model of a token: its kind and the characters it carries
/// (none for a token without payload).
pub struct Lexeme {
    pub kind: TokenKind,
    pub text: Seq<char>,
}

impl Lexeme {
    /// The model of a token that carries no text.
    pub open spec fn bare(kind: TokenKind) -> Lexeme {
        Lexeme { kind, text: Seq::empty() }
    }

    /// The model of the end-of-input token.
    pub open spec fn eof() -> Lexeme {
        Lexeme::bare(TokenKind::Eof)
    }

    /// Whether a token of this kind carries text.
    pub open spec fn carries_text(kind: TokenKind) -> bool {
        kind == TokenKind::Identifier || kind == TokenKind::String || kind == TokenKind::Number
    }

    /// A lexeme is well formed when only the kinds with a payload carry text.
    pub open spec fn well_formed(self) -> bool {
        !Lexeme::carries_text(self.kind) ==> self.text == Seq::<char>::empty()
    }
}

impl View for Token {
    type V = Lexeme;

    open spec fn view(&self) -> Lexeme {
        match self {
            Token::Identifier(s) => Lexeme { kind: TokenKind::Identifier, text: s@ },
            Token::String(s) => Lexeme { kind: TokenKind::String, text: s@ },
            Token::Number(s) => Lexeme { kind: TokenKind::Number, text: s@ },
            Token::Fn => Lexeme::bare(TokenKind::Fn),
            Token::Let => Lexeme::bare(TokenKind::Let),
            Token::If => Lexeme::bare(TokenKind::If),
            Token::Else => Lexeme::bare(TokenKind::Else),
            Token::While => Lexeme::bare(TokenKind::While),
            Token::True => Lexeme::bare(TokenKind::True),
            Token::False => Lexeme::bare(TokenKind::False),
            Token::LeftParen => Lexeme::bare(TokenKind::LeftParen),
            Token::RightParen => Lexeme::bare(TokenKind::RightParen),
            Token::LeftBrace => Lexeme::bare(TokenKind::LeftBrace),
            Token::RightBrace => Lexeme::bare(TokenKind::RightBrace),
            Token::Plus => Lexeme::bare(TokenKind::Plus),
            Token::Minus => Lexeme::bare(TokenKind::Minus),
            Token::Asterisk => Lexeme::bare(TokenKind::Asterisk),
            Token::Slash => Lexeme::bare(TokenKind::Slash),
            Token::Assign => Lexeme::bare(TokenKind::Assign),
            Token::Comma => Lexeme::bare(TokenKind::Comma),
            Token::Bang => Lexeme::bare(TokenKind::Bang),
            Token::Eof => Lexeme::eof(),
        }
    }
}

/// The models of a sequence of tokens, in the same order.
pub open spec fn lexemes(tokens: Seq<Token>) -> Seq<Lexeme> {
    tokens.map_values(|token: Token| token@)
}

impl Clone for Token {
    fn clone(&self) -> (copy: Self)
        ensures
            copy == *self,
    {
        match self {
            Token::Identifier(s) => Token::Identifier(s.clone()),
            Token::String(s) => Token::String(s.clone()),
            Token::Number(s) => Token::Number(s.clone()),
            Token::Fn => Token::Fn,
            Token::Let => Token::Let,
            Token::If => Token::If,
            Token::Else => Token::Else,
            Token::While => Token::While,
            Token::True => Token::True,
            Token::False => Token::False,
            Token::LeftParen => Token::LeftParen,
            Token::RightParen => Token::RightParen,
            Token::LeftBrace => Token::LeftBrace,
            Token::RightBrace => Token::RightBrace,
            Token::Plus => Token::Plus,
            Token::Minus => Token::Minus,
            Token::Asterisk => Token::Asterisk,
            Token::Slash => Token::Slash,
            Token::Assign => Token::Assign,
            Token::Comma => Token::Comma,
            Token::Bang => Token::Bang,
            Token::Eof => Token::Eof,
        }
    }
}

impl Token {
    /// The token of the given kind. It carries `literal` if tokens of that
    /// kind carry text, and nothing otherwise.
    pub fn new(kind: TokenKind, literal: String) -> (token: Token)
        ensures
            token@ == (Lexeme {
                kind,
                text: if Lexeme::carries_text(kind) {
                    literal@
                } else {
                    Seq::empty()
                },
            }),
    {
        match kind {
            TokenKind::Identifier => Token::Identifier(literal),
            TokenKind::String => Token::String(literal),
            TokenKind::Number => Token::Number(literal),
            TokenKind::Fn => Token::Fn,
            TokenKind::Let => Token::Let,
            TokenKind::If => Token::If,
            TokenKind::Else => Token::Else,
            TokenKind::While => Token::While,
            TokenKind::True => Token::True,
            TokenKind::False => Token::False,
            TokenKind::LeftParen => Token::LeftParen,
            TokenKind::RightParen => Token::RightParen,
            TokenKind::LeftBrace => Token::LeftBrace,
            TokenKind::RightBrace => Token::RightBrace,
            TokenKind::Plus => Token::Plus,
            TokenKind::Minus => Token::Minus,
            TokenKind::Asterisk => Token::Asterisk,
            TokenKind::Slash => Token::Slash,
            TokenKind::Assign => Token::Assign,
            TokenKind::Comma => Token::Comma,
            TokenKind::Bang => Token::Bang,
            TokenKind::Eof => Token::Eof,
        }
    }

    /// The kind of this token, ignoring any payload.
    pub fn kind(&self) -> (kind: TokenKind)
        ensures
            kind == self@.kind,
    {
        match self {
            Token::Identifier(_) => TokenKind::Identifier,
            Token::String(_) => TokenKind::String,
            Token::Number(_) => TokenKind::Number,
            Token::Fn => TokenKind::Fn,
            Token::Let => TokenKind::Let,
            Token::If => TokenKind::If,
            Token::Else => TokenKind::Else,
            Token::While => TokenKind::While,
            Token::True => TokenKind::True,
            Token::False => TokenKind::False,
            Token::LeftParen => TokenKind::LeftParen,
            Token::RightParen => TokenKind::RightParen,
            Token::LeftBrace => TokenKind::LeftBrace,
            Token::RightBrace => TokenKind::RightBrace,
            Token::Plus => TokenKind::Plus,
            Token::Minus => TokenKind::Minus,
            Token::Asterisk => TokenKind::Asterisk,
            Token::Slash => TokenKind::Slash,
            Token::Assign => TokenKind::Assign,
            Token::Comma => TokenKind::Comma,
            Token::Bang => TokenKind::Bang,
            Token::Eof => TokenKind::Eof,
        }
    }

    /// The text that this token carries; empty for a token without payload.
    pub fn into_text(self) -> (text: String)
        ensures
            text@ == self@.text,
    {
        match self {
            Token::Identifier(text) => text,
            Token::String(text) => text,
            Token::Number(text) => text,
            _ => String::new(),
        }
    }

    /// Every token's model is well formed.
    pub proof fn view_is_well_formed(self)
        ensures
            self@.well_formed(),
    {
    }
}

} // verus!
