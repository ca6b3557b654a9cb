//! What the lexer and the parser report.

use vstd::prelude::*;
use vstd::string::StringExecFns;
use crate::logic_parser::lexing::token::Span;
use crate::text::push_char;

verus! {

/// Why a token sequence is no formula.
#[derive(Debug)]
pub enum ParserError {
    UnexpectedToken(String, Span),
    UnexpectedEOF(String, Span),
}

/// Why a source text is no token sequence.
#[derive(Debug)]
pub enum LexerError {
    SyntaxError(String, Span),
    UnknownToken(char, Span),
}

/// A parser error as a value of plain sequences.
pub enum ParserFault {
    UnexpectedToken(Seq<char>, Span),
    UnexpectedEOF(Seq<char>, Span),
}

/// A lexer error as a value of plain sequences.
pub enum LexerFault {
    SyntaxError(Seq<char>, Span),
    UnknownToken(char, Span),
}

impl View for ParserError {
    type V = ParserFault;

    open spec fn view(&self) -> ParserFault {
        match self {
            ParserError::UnexpectedToken(what, span) => ParserFault::UnexpectedToken(what@, *span),
            ParserError::UnexpectedEOF(what, span) => ParserFault::UnexpectedEOF(what@, *span),
        }
    }
}

impl View for LexerError {
    type V = LexerFault;

    open spec fn view(&self) -> LexerFault {
        match self {
            LexerError::SyntaxError(what, span) => LexerFault::SyntaxError(what@, *span),
            LexerError::UnknownToken(c, span) => LexerFault::UnknownToken(*c, *span),
        }
    }
}

impl ParserFault {
    /// The message of the error.
    pub open spec fn text(self) -> Seq<char> {
        match self {
            ParserFault::UnexpectedToken(what, _) => "Unexpected token: "@ + what,
            ParserFault::UnexpectedEOF(what, _) => "Unexpected EOF: "@ + what,
        }
    }

    /// Where in the source the error lies.
    pub open spec fn span(self) -> Span {
        match self {
            ParserFault::UnexpectedToken(_, span) => span,
            ParserFault::UnexpectedEOF(_, span) => span,
        }
    }
}

impl LexerFault {
    /// The message of the error.
    pub open spec fn text(self) -> Seq<char> {
        match self {
            LexerFault::SyntaxError(what, _) => "Syntax error: "@ + what,
            LexerFault::UnknownToken(c, _) => "Unknown Token: "@.push(c),
        }
    }

    /// Where in the source the error lies.
    pub open spec fn span(self) -> Span {
        match self {
            LexerFault::SyntaxError(_, span) => span,
            LexerFault::UnknownToken(_, span) => span,
        }
    }
}

impl ParserError {
    /// The message of the error.
    pub fn to_string(&self) -> (text: String)
        ensures
            text@ == self@.text(),
    {
        match self {
            ParserError::UnexpectedToken(what, _) => {
                let mut text = String::from_str("Unexpected token: ");
                text.append(what.as_str());
                text
            },
            ParserError::UnexpectedEOF(what, _) => {
                let mut text = String::from_str("Unexpected EOF: ");
                text.append(what.as_str());
                text
            },
        }
    }

    /// Where in the source the error lies.
    pub fn span(&self) -> (span: Span)
        ensures
            span == self@.span(),
    {
        match self {
            ParserError::UnexpectedToken(_, span) => *span,
            ParserError::UnexpectedEOF(_, span) => *span,
        }
    }
}

impl LexerError {
    /// The message of the error.
    pub fn to_string(&self) -> (text: String)
        ensures
            text@ == self@.text(),
    {
        match self {
            LexerError::SyntaxError(what, _) => {
                let mut text = String::from_str("Syntax error: ");
                text.append(what.as_str());
                text
            },
            LexerError::UnknownToken(c, _) => {
                let mut text = String::from_str("Unknown Token: ");
                push_char(&mut text, *c);
                text
            },
        }
    }

    /// Where in the source the error lies.
    pub fn span(&self) -> (span: Span)
        ensures
            span == self@.span(),
    {
        match self {
            LexerError::SyntaxError(_, span) => *span,
            LexerError::UnknownToken(_, span) => *span,
        }
    }
}

} // verus!
