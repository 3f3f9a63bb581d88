use vstd::prelude::*;
use crate::text::same_text;

verus! {

/// The reserved words.
#[derive(Debug, PartialEq, Eq, Clone, Copy, Structural)]
pub enum Keyword {
    If,
    Let,
    Fn,
    Elseif,
    Else,
    While,
}

/// The signs that are operators.
#[derive(Debug, PartialEq, Eq, Clone, Copy, Structural)]
pub enum Operator {
    Plus,
    Minus,
    Equal,
    Multiply,
    Divide,
    Modulo,
}

/// What a token is. A decimal literal keeps its digits as text: this library
/// never computes with floating-point numbers itself.
#[derive(Debug, PartialEq, Clone)]
pub enum TokenKind {
    Word(String),
    Sentence(String),
    String(String),
    Int(i64),
    Float(String),
    Bool(bool),
    Semicolon,
    Keyword(Keyword),
    OpenBracket,
    ClosedBracket,
    OpenCurlyBracket,
    ClosedCurlyBracket,
    Period,
    Operator(Operator),
}

/// The mathematical value of a `TokenKind`: texts are sequences of characters.
pub enum TokenKindView {
    Word(Seq<char>),
    Sentence(Seq<char>),
    String(Seq<char>),
    Int(i64),
    Float(Seq<char>),
    Bool(bool),
    Semicolon,
    Keyword(Keyword),
    OpenBracket,
    ClosedBracket,
    OpenCurlyBracket,
    ClosedCurlyBracket,
    Period,
    Operator(Operator),
}

impl View for TokenKind {
    type V = TokenKindView;

    open spec fn view(&self) -> TokenKindView {
        match self {
            TokenKind::Word(s) => TokenKindView::Word(s@),
            TokenKind::Sentence(s) => TokenKindView::Sentence(s@),
            TokenKind::String(s) => TokenKindView::String(s@),
            TokenKind::Int(i) => TokenKindView::Int(*i),
            TokenKind::Float(s) => TokenKindView::Float(s@),
            TokenKind::Bool(b) => TokenKindView::Bool(*b),
            TokenKind::Semicolon => TokenKindView::Semicolon,
            TokenKind::Keyword(k) => TokenKindView::Keyword(*k),
            TokenKind::OpenBracket => TokenKindView::OpenBracket,
            TokenKind::ClosedBracket => TokenKindView::ClosedBracket,
            TokenKind::OpenCurlyBracket => TokenKindView::OpenCurlyBracket,
            TokenKind::ClosedCurlyBracket => TokenKindView::ClosedCurlyBracket,
            TokenKind::Period => TokenKindView::Period,
            TokenKind::Operator(o) => TokenKindView::Operator(*o),
        }
    }
}

impl TokenKind {
    /// Whether two kinds are the same token: same variant, same payload.
    pub fn same(&self, other: &TokenKind) -> (r: bool)
        ensures
            r == (self@ == other@),
    {
        match self {
            TokenKind::Word(a) => match other {
                TokenKind::Word(b) => same_text(a, b),
                _ => false,
            },
            TokenKind::Sentence(a) => match other {
                TokenKind::Sentence(b) => same_text(a, b),
                _ => false,
            },
            TokenKind::String(a) => match other {
                TokenKind::String(b) => same_text(a, b),
                _ => false,
            },
            TokenKind::Int(a) => match other {
                TokenKind::Int(b) => *a == *b,
                _ => false,
            },
            TokenKind::Float(a) => match other {
                TokenKind::Float(b) => same_text(a, b),
                _ => false,
            },
            TokenKind::Bool(a) => match other {
                TokenKind::Bool(b) => *a == *b,
                _ => false,
            },
            TokenKind::Semicolon => matches!(other, TokenKind::Semicolon),
            TokenKind::Keyword(a) => match other {
                TokenKind::Keyword(b) => *a == *b,
                _ => false,
            },
            TokenKind::OpenBracket => matches!(other, TokenKind::OpenBracket),
            TokenKind::ClosedBracket => matches!(other, TokenKind::ClosedBracket),
            TokenKind::OpenCurlyBracket => matches!(other, TokenKind::OpenCurlyBracket),
            TokenKind::ClosedCurlyBracket => matches!(other, TokenKind::ClosedCurlyBracket),
            TokenKind::Period => matches!(other, TokenKind::Period),
            TokenKind::Operator(a) => match other {
                TokenKind::Operator(b) => *a == *b,
                _ => false,
            },
        }
    }

    /// A copy of this kind.
    pub fn duplicate(&self) -> (r: TokenKind)
        ensures
            r@ == self@,
    {
        match self {
            TokenKind::Word(s) => TokenKind::Word(s.clone()),
            TokenKind::Sentence(s) => TokenKind::Sentence(s.clone()),
            TokenKind::String(s) => TokenKind::String(s.clone()),
            TokenKind::Int(i) => TokenKind::Int(*i),
            TokenKind::Float(s) => TokenKind::Float(s.clone()),
            TokenKind::Bool(b) => TokenKind::Bool(*b),
            TokenKind::Semicolon => TokenKind::Semicolon,
            TokenKind::Keyword(k) => TokenKind::Keyword(*k),
            TokenKind::OpenBracket => TokenKind::OpenBracket,
            TokenKind::ClosedBracket => TokenKind::ClosedBracket,
            TokenKind::OpenCurlyBracket => TokenKind::OpenCurlyBracket,
            TokenKind::ClosedCurlyBracket => TokenKind::ClosedCurlyBracket,
            TokenKind::Period => TokenKind::Period,
            TokenKind::Operator(o) => TokenKind::Operator(*o),
        }
    }
}

/// A token and the offset, in characters, at which it starts in its source text.
#[derive(Debug, Clone, PartialEq)]
pub struct Token {
    pub kind: TokenKind,
    pub pos: usize,
}

/// The mathematical value of a token.
pub struct TokenView {
    pub kind: TokenKindView,
    pub pos: nat,
}

impl View for Token {
    type V = TokenView;

    open spec fn view(&self) -> TokenView {
        TokenView { kind: self.kind@, pos: self.pos as nat }
    }
}

impl Token {
    /// A copy of this token.
    pub fn duplicate(&self) -> (r: Token)
        ensures
            r@ == self@,
    {
        Token { kind: self.kind.duplicate(), pos: self.pos }
    }
}

} // verus!
