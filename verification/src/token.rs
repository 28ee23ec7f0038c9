//! Lexical CSS tokens, as handed over by the tokenizer collaborator.

use vstd::prelude::*;

verus! {

/// Whether a hash token is a valid id selector or a plain hash.
#[derive(Clone, Copy, Debug, PartialEq, Eq, Structural)]
pub enum HashType {
    Id,
    Unrestricted,
}

/// One lexical CSS token.
///
/// The token source is an in-memory sequence of these, terminated by an
/// explicit `EOF` token, so looking ahead past the end is always defined.
#[derive(Debug, PartialEq)]
pub enum Token {
    Ident(String),
    Function(String),
    AtKeyword(String),
    Hash(String, HashType),
    Delim(char),
    Number(i64),
    Whitespace,
    Colon,
    Semicolon,
    Comma,
    BraceOpen,
    BraceClose,
    BracketOpen,
    BracketClose,
    ParentheseOpen,
    ParentheseClose,
    CDO,
    CDC,
    EOF,
}

/// Mathematical model of a token: string payloads become character sequences.
pub enum TokenView {
    Ident(Seq<char>),
    Function(Seq<char>),
    AtKeyword(Seq<char>),
    Hash(Seq<char>, HashType),
    Delim(char),
    Number(int),
    Whitespace,
    Colon,
    Semicolon,
    Comma,
    BraceOpen,
    BraceClose,
    BracketOpen,
    BracketClose,
    ParentheseOpen,
    ParentheseClose,
    CDO,
    CDC,
    EOF,
}

impl Clone for Token {
    fn clone(&self) -> (r: Self)
        ensures
            r == *self,
    {
        match self {
            Token::Ident(s) => Token::Ident(s.clone()),
            Token::Function(s) => Token::Function(s.clone()),
            Token::AtKeyword(s) => Token::AtKeyword(s.clone()),
            Token::Hash(s, h) => Token::Hash(s.clone(), *h),
            Token::Delim(c) => Token::Delim(*c),
            Token::Number(n) => Token::Number(*n),
            Token::Whitespace => Token::Whitespace,
            Token::Colon => Token::Colon,
            Token::Semicolon => Token::Semicolon,
            Token::Comma => Token::Comma,
            Token::BraceOpen => Token::BraceOpen,
            Token::BraceClose => Token::BraceClose,
            Token::BracketOpen => Token::BracketOpen,
            Token::BracketClose => Token::BracketClose,
            Token::ParentheseOpen => Token::ParentheseOpen,
            Token::ParentheseClose => Token::ParentheseClose,
            Token::CDO => Token::CDO,
            Token::CDC => Token::CDC,
            Token::EOF => Token::EOF,
        }
    }
}

/// Structural equality of two tokens, decided at the model level.
pub fn token_eq(a: &Token, b: &Token) -> (r: bool)
    ensures
        r == (a@ == b@),
{
    match (a, b) {
        (Token::Ident(x), Token::Ident(y)) => *x == *y,
        (Token::Function(x), Token::Function(y)) => *x == *y,
        (Token::AtKeyword(x), Token::AtKeyword(y)) => *x == *y,
        (Token::Hash(x, hx), Token::Hash(y, hy)) => *x == *y && *hx == *hy,
        (Token::Delim(x), Token::Delim(y)) => *x == *y,
        (Token::Number(x), Token::Number(y)) => *x == *y,
        (Token::Whitespace, Token::Whitespace) => true,
        (Token::Colon, Token::Colon) => true,
        (Token::Semicolon, Token::Semicolon) => true,
        (Token::Comma, Token::Comma) => true,
        (Token::BraceOpen, Token::BraceOpen) => true,
        (Token::BraceClose, Token::BraceClose) => true,
        (Token::BracketOpen, Token::BracketOpen) => true,
        (Token::BracketClose, Token::BracketClose) => true,
        (Token::ParentheseOpen, Token::ParentheseOpen) => true,
        (Token::ParentheseClose, Token::ParentheseClose) => true,
        (Token::CDO, Token::CDO) => true,
        (Token::CDC, Token::CDC) => true,
        (Token::EOF, Token::EOF) => true,
        _ => false,
    }
}

impl DeepView for Token {
    type V = TokenView;

    open spec fn deep_view(&self) -> TokenView {
        self.view()
    }
}

impl View for Token {
    type V = TokenView;

    open spec fn view(&self) -> TokenView {
        match self {
            Token::Ident(s) => TokenView::Ident(s@),
            Token::Function(s) => TokenView::Function(s@),
            Token::AtKeyword(s) => TokenView::AtKeyword(s@),
            Token::Hash(s, h) => TokenView::Hash(s@, *h),
            Token::Delim(c) => TokenView::Delim(*c),
            Token::Number(n) => TokenView::Number(*n as int),
            Token::Whitespace => TokenView::Whitespace,
            Token::Colon => TokenView::Colon,
            Token::Semicolon => TokenView::Semicolon,
            Token::Comma => TokenView::Comma,
            Token::BraceOpen => TokenView::BraceOpen,
            Token::BraceClose => TokenView::BraceClose,
            Token::BracketOpen => TokenView::BracketOpen,
            Token::BracketClose => TokenView::BracketClose,
            Token::ParentheseOpen => TokenView::ParentheseOpen,
            Token::ParentheseClose => TokenView::ParentheseClose,
            Token::CDO => TokenView::CDO,
            Token::CDC => TokenView::CDC,
            Token::EOF => TokenView::EOF,
        }
    }
}

} // verus!
