use vstd::prelude::*;
use crate::text::same_text;

verus! {

/// A lexical token.
#[derive(Debug, PartialEq, Eq)]
pub enum Token {
    LeftParen,
    RightParen,
    LeftBracket,
    RightBracket,
    LeftBrace,
    RightBrace,
    Quote,
    /// A comment, from its `;` up to the end of the line.
    Comment(String),
    /// The contents of a string literal, without the quotes.
    String(String),
    Symbol(String),
    /// The text of a number, without `_` separators.
    Number(String),
    /// The body of an annotation, without the leading `#`.
    Annotation(String),
}

/// The mathematical value of a [`Token`].
pub ghost enum TokenView {
    LeftParen,
    RightParen,
    LeftBracket,
    RightBracket,
    LeftBrace,
    RightBrace,
    Quote,
    Comment(Seq<char>),
    String(Seq<char>),
    Symbol(Seq<char>),
    Number(Seq<char>),
    Annotation(Seq<char>),
}

impl View for Token {
    type V = TokenView;

    open spec fn view(&self) -> TokenView {
        match self {
            Token::LeftParen => TokenView::LeftParen,
            Token::RightParen => TokenView::RightParen,
            Token::LeftBracket => TokenView::LeftBracket,
            Token::RightBracket => TokenView::RightBracket,
            Token::LeftBrace => TokenView::LeftBrace,
            Token::RightBrace => TokenView::RightBrace,
            Token::Quote => TokenView::Quote,
            Token::Comment(s) => TokenView::Comment(s@),
            Token::String(s) => TokenView::String(s@),
            Token::Symbol(s) => TokenView::Symbol(s@),
            Token::Number(s) => TokenView::Number(s@),
            Token::Annotation(s) => TokenView::Annotation(s@),
        }
    }
}

impl Clone for Token {
    fn clone(&self) -> (r: Token)
        ensures
            r@ == self@,
    {
        match self {
            Token::LeftParen => Token::LeftParen,
            Token::RightParen => Token::RightParen,
            Token::LeftBracket => Token::LeftBracket,
            Token::RightBracket => Token::RightBracket,
            Token::LeftBrace => Token::LeftBrace,
            Token::RightBrace => Token::RightBrace,
            Token::Quote => Token::Quote,
            Token::Comment(s) => Token::Comment(s.clone()),
            Token::String(s) => Token::String(s.clone()),
            Token::Symbol(s) => Token::Symbol(s.clone()),
            Token::Number(s) => Token::Number(s.clone()),
            Token::Annotation(s) => Token::Annotation(s.clone()),
        }
    }
}

impl Token {
    /// Whether `self` and `other` are the same token: of the same kind and,
    /// where the kind carries text, with the same text.
    pub fn same(&self, other: &Token) -> (r: bool)
        ensures
            r == (self@ == other@),
    {
        match (self, other) {
            (Token::LeftParen, Token::LeftParen) => true,
            (Token::RightParen, Token::RightParen) => true,
            (Token::LeftBracket, Token::LeftBracket) => true,
            (Token::RightBracket, Token::RightBracket) => true,
            (Token::LeftBrace, Token::LeftBrace) => true,
            (Token::RightBrace, Token::RightBrace) => true,
            (Token::Quote, Token::Quote) => true,
            (Token::Comment(a), Token::Comment(b)) => same_text(a.as_str(), b.as_str()),
            (Token::String(a), Token::String(b)) => same_text(a.as_str(), b.as_str()),
            (Token::Symbol(a), Token::Symbol(b)) => same_text(a.as_str(), b.as_str()),
            (Token::Number(a), Token::Number(b)) => same_text(a.as_str(), b.as_str()),
            (Token::Annotation(a), Token::Annotation(b)) => same_text(a.as_str(), b.as_str()),
            _ => false,
        }
    }
}

} // verus!
