//! Lexical tokens produced by the scanner.

use crate::source::Span;
use crate::source::Spanned;
use vstd::prelude::*;

verus! {

/// The kind of a scanned token.
#[derive(Copy, Clone, PartialEq, Eq, Structural, Debug)]
pub enum TokenKind {
    Plus,
    Minus,
    Star,
    Slash,
    LParen,
    RParen,
    Int,
    Error,
    Eof,
}

/// The display text of a token kind, as used in diagnostics.
pub open spec fn kind_text(kind: TokenKind) -> Seq<char> {
    match kind {
        TokenKind::Plus => "`+`"@,
        TokenKind::Minus => "`-`"@,
        TokenKind::Star => "`*`"@,
        TokenKind::Slash => "`/`"@,
        TokenKind::LParen => "`(`"@,
        TokenKind::RParen => "`)`"@,
        TokenKind::Int => "integer literal"@,
        TokenKind::Error => "error"@,
        TokenKind::Eof => "end of input"@,
    }
}

impl TokenKind {
    /// How the kind is named in diagnostics.
    pub fn as_str(&self) -> (r: &'static str)
        ensures
            r@ == kind_text(*self),
    {
        match self {
            TokenKind::Plus => "`+`",
            TokenKind::Minus => "`-`",
            TokenKind::Star => "`*`",
            TokenKind::Slash => "`/`",
            TokenKind::LParen => "`(`",
            TokenKind::RParen => "`)`",
            TokenKind::Int => "integer literal",
            TokenKind::Error => "error",
            TokenKind::Eof => "end of input",
        }
    }
}

/// The value carried by a token; only integer literals carry one.
#[derive(Copy, Clone, PartialEq, Eq, Structural, Debug)]
pub enum TokenValue {
    Absent,
    Int(i32),
}

/// A scanned lexical unit: a kind, an optional integer value, and the span
/// of input text it was scanned from.
#[derive(Copy, Clone, PartialEq, Eq, Structural, Debug)]
pub struct Token {
    pub span: Span,
    pub kind: TokenKind,
    pub value: TokenValue,
}

impl Token {
    pub fn plus(span: Span) -> (t: Token)
        ensures
            t == (Token { span, kind: TokenKind::Plus, value: TokenValue::Absent }),
    {
        Token::simple(span, TokenKind::Plus)
    }

    pub fn minus(span: Span) -> (t: Token)
        ensures
            t == (Token { span, kind: TokenKind::Minus, value: TokenValue::Absent }),
    {
        Token::simple(span, TokenKind::Minus)
    }

    pub fn star(span: Span) -> (t: Token)
        ensures
            t == (Token { span, kind: TokenKind::Star, value: TokenValue::Absent }),
    {
        Token::simple(span, TokenKind::Star)
    }

    pub fn slash(span: Span) -> (t: Token)
        ensures
            t == (Token { span, kind: TokenKind::Slash, value: TokenValue::Absent }),
    {
        Token::simple(span, TokenKind::Slash)
    }

    pub fn l_paren(span: Span) -> (t: Token)
        ensures
            t == (Token { span, kind: TokenKind::LParen, value: TokenValue::Absent }),
    {
        Token::simple(span, TokenKind::LParen)
    }

    pub fn r_paren(span: Span) -> (t: Token)
        ensures
            t == (Token { span, kind: TokenKind::RParen, value: TokenValue::Absent }),
    {
        Token::simple(span, TokenKind::RParen)
    }

    pub fn int_lit(span: Span, value: i32) -> (t: Token)
        ensures
            t == (Token { span, kind: TokenKind::Int, value: TokenValue::Int(value) }),
    {
        Token { span, kind: TokenKind::Int, value: TokenValue::Int(value) }
    }

    pub fn error(span: Span) -> (t: Token)
        ensures
            t == (Token { span, kind: TokenKind::Error, value: TokenValue::Absent }),
    {
        Token::simple(span, TokenKind::Error)
    }

    pub fn eof(span: Span) -> (t: Token)
        ensures
            t == (Token { span, kind: TokenKind::Eof, value: TokenValue::Absent }),
    {
        Token::simple(span, TokenKind::Eof)
    }

    fn simple(span: Span, kind: TokenKind) -> (t: Token)
        ensures
            t == (Token { span, kind, value: TokenValue::Absent }),
    {
        Token { span, kind, value: TokenValue::Absent }
    }

    pub fn kind(&self) -> (k: TokenKind)
        ensures
            k == self.kind,
    {
        self.kind
    }

    /// The integer value of an integer literal token.
    pub fn int_value(&self) -> (v: i32)
        requires
            self.value is Int,
        ensures
            self.value == TokenValue::Int(v),
    {
        match self.value {
            TokenValue::Int(value) => value,
            TokenValue::Absent => vstd::pervasive::unreached(),
        }
    }
}

impl Spanned for Token {
    open spec fn spec_span(&self) -> Span {
        self.span
    }

    fn span(&self) -> (s: Span) {
        self.span
    }
}

} // verus!
