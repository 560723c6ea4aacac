use vstd::prelude::*;
use crate::lexer::token::{Token, TokenView};

verus! {

/// Everything that lexing, parsing, resolving and evaluating can report.
#[derive(Debug, PartialEq, Eq)]
pub enum Error {
    /// A string literal is still open at the end of the input.
    UnterminatedString,
    /// An annotation's parentheses are not balanced.
    UnterminatedAnnotation,
    /// The input ends where more text is needed.
    UnexpectedEol,
    /// A closing delimiter stands where an expression should begin.
    UnexpectedToken(Token),
    /// A list, array or dict is still open at the end of the input.
    UnterminatedList,
    /// A quote is not followed by an expression.
    InvalidQuote,
    MalformedInt,
    MalformedFloat,
    /// An annotation, given by its text, is not of a known form.
    MalformedAnnotation(String),
    UndefinedSymbol(String),
    /// No function is bound to the symbol, nor to the given method name.
    UndefinedFunction(String, String),
    InvalidArguments(String),
    NotInvocable(String),
    FailedUse,
    Io(String),
}

/// The mathematical value of an [`Error`].
pub ghost enum ErrorView {
    UnterminatedString,
    UnterminatedAnnotation,
    UnexpectedEol,
    UnexpectedToken(TokenView),
    UnterminatedList,
    InvalidQuote,
    MalformedInt,
    MalformedFloat,
    MalformedAnnotation(Seq<char>),
    UndefinedSymbol(Seq<char>),
    UndefinedFunction(Seq<char>, Seq<char>),
    InvalidArguments(Seq<char>),
    NotInvocable(Seq<char>),
    FailedUse,
    Io(Seq<char>),
}

impl View for Error {
    type V = ErrorView;

    open spec fn view(&self) -> ErrorView {
        match self {
            Error::UnterminatedString => ErrorView::UnterminatedString,
            Error::UnterminatedAnnotation => ErrorView::UnterminatedAnnotation,
            Error::UnexpectedEol => ErrorView::UnexpectedEol,
            Error::UnexpectedToken(t) => ErrorView::UnexpectedToken(t@),
            Error::UnterminatedList => ErrorView::UnterminatedList,
            Error::InvalidQuote => ErrorView::InvalidQuote,
            Error::MalformedInt => ErrorView::MalformedInt,
            Error::MalformedFloat => ErrorView::MalformedFloat,
            Error::MalformedAnnotation(s) => ErrorView::MalformedAnnotation(s@),
            Error::UndefinedSymbol(s) => ErrorView::UndefinedSymbol(s@),
            Error::UndefinedFunction(s, m) => ErrorView::UndefinedFunction(s@, m@),
            Error::InvalidArguments(s) => ErrorView::InvalidArguments(s@),
            Error::NotInvocable(s) => ErrorView::NotInvocable(s@),
            Error::FailedUse => ErrorView::FailedUse,
            Error::Io(s) => ErrorView::Io(s@),
        }
    }
}

impl Clone for Error {
    fn clone(&self) -> (r: Error)
        ensures
            r@ == self@,
    {
        match self {
            Error::UnterminatedString => Error::UnterminatedString,
            Error::UnterminatedAnnotation => Error::UnterminatedAnnotation,
            Error::UnexpectedEol => Error::UnexpectedEol,
            Error::UnexpectedToken(t) => Error::UnexpectedToken(t.clone()),
            Error::UnterminatedList => Error::UnterminatedList,
            Error::InvalidQuote => Error::InvalidQuote,
            Error::MalformedInt => Error::MalformedInt,
            Error::MalformedFloat => Error::MalformedFloat,
            Error::MalformedAnnotation(s) => Error::MalformedAnnotation(s.clone()),
            Error::UndefinedSymbol(s) => Error::UndefinedSymbol(s.clone()),
            Error::UndefinedFunction(s, m) => Error::UndefinedFunction(s.clone(), m.clone()),
            Error::InvalidArguments(s) => Error::InvalidArguments(s.clone()),
            Error::NotInvocable(s) => Error::NotInvocable(s.clone()),
            Error::FailedUse => Error::FailedUse,
            Error::Io(s) => Error::Io(s.clone()),
        }
    }
}

impl Error {
    /// An `InvalidArguments` error with the given message.
    pub fn invalid_arguments(text: &str) -> (e: Error)
        ensures
            e@ == ErrorView::InvalidArguments(text@),
    {
        Error::InvalidArguments(String::from_str(text))
    }
}

} // verus!
