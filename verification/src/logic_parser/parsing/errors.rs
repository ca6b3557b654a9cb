//! Errors that carry a message and no place.

use vstd::prelude::*;
use vstd::string::StringExecFns;

verus! {

/// Why a source text is no token sequence.
#[derive(Debug)]
pub enum LexerError {
    SyntaxError(String),
    UnknownToken(String),
}

/// Why a token sequence is no formula.
#[derive(Debug)]
pub enum ParserError {
    UnexpectedToken(String),
    UnexpectedEOF(String),
}

/// A lexer error as a value of plain sequences.
pub enum LexerFault {
    SyntaxError(Seq<char>),
    UnknownToken(Seq<char>),
}

/// A parser error as a value of plain sequences.
pub enum ParserFault {
    UnexpectedToken(Seq<char>),
    UnexpectedEOF(Seq<char>),
}

impl View for LexerError {
    type V = LexerFault;

    open spec fn view(&self) -> LexerFault {
        match self {
            LexerError::SyntaxError(what) => LexerFault::SyntaxError(what@),
            LexerError::UnknownToken(what) => LexerFault::UnknownToken(what@),
        }
    }
}

impl View for ParserError {
    type V = ParserFault;

    open spec fn view(&self) -> ParserFault {
        match self {
            ParserError::UnexpectedToken(what) => ParserFault::UnexpectedToken(what@),
            ParserError::UnexpectedEOF(what) => ParserFault::UnexpectedEOF(what@),
        }
    }
}

impl LexerFault {
    /// The message of the error.
    pub open spec fn text(self) -> Seq<char> {
        match self {
            LexerFault::SyntaxError(what) => "Syntax error: "@ + what,
            LexerFault::UnknownToken(what) => "Unknown Token: "@ + what,
        }
    }
}

impl ParserFault {
    /// The message of the error.
    pub open spec fn text(self) -> Seq<char> {
        match self {
            ParserFault::UnexpectedToken(what) => "Unexpected token: "@ + what,
            ParserFault::UnexpectedEOF(_) => "Unexpected EOF"@,
        }
    }
}

impl LexerError {
    /// The message of the error.
    pub fn to_string(&self) -> (text: String)
        ensures
            text@ == self@.text(),
    {
        match self {
            LexerError::SyntaxError(what) => {
                let mut text = String::from_str("Syntax error: ");
                text.append(what.as_str());
                text
            },
            LexerError::UnknownToken(what) => {
                let mut text = String::from_str("Unknown Token: ");
                text.append(what.as_str());
                text
            },
        }
    }
}

impl ParserError {
    /// The message of the error.
    pub fn to_string(&self) -> (text: String)
        ensures
            text@ == self@.text(),
    {
        match self {
            ParserError::UnexpectedToken(what) => {
                let mut text = String::from_str("Unexpected token: ");
                text.append(what.as_str());
                text
            },
            ParserError::UnexpectedEOF(_) => String::from_str("Unexpected EOF"),
        }
    }
}

} // verus!
