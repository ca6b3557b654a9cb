//! Tokens and their place in the source.

use vstd::prelude::*;
use vstd::std_specs::convert::{FromSpec, IntoSpec};
use vstd::string::StringExecFns;

verus! {

/// All the tokens the lexer can produce.
#[derive(Debug, Clone)]
pub enum TokenKind {
    Identifier(String),
    Literal(bool),
    Not,
    And,
    Or,
    Implies,
    IfAndOnlyIf,
    OpenParen,
    CloseParen,
}

/// A token kind as a value of plain sequences.
pub enum Kind {
    Identifier(Seq<char>),
    Literal(bool),
    Not,
    And,
    Or,
    Implies,
    IfAndOnlyIf,
    OpenParen,
    CloseParen,
}

impl View for TokenKind {
    type V = Kind;

    open spec fn view(&self) -> Kind {
        match self {
            TokenKind::Identifier(name) => Kind::Identifier(name@),
            TokenKind::Literal(value) => Kind::Literal(*value),
            TokenKind::Not => Kind::Not,
            TokenKind::And => Kind::And,
            TokenKind::Or => Kind::Or,
            TokenKind::Implies => Kind::Implies,
            TokenKind::IfAndOnlyIf => Kind::IfAndOnlyIf,
            TokenKind::OpenParen => Kind::OpenParen,
            TokenKind::CloseParen => Kind::CloseParen,
        }
    }
}

impl Kind {
    /// How a token kind is written out: its name, and its value in brackets.
    pub open spec fn text(self) -> Seq<char> {
        match self {
            Kind::Identifier(name) => "Identifier("@ + name + ")"@,
            Kind::Literal(value) => if value {
                "Literal(true)"@
            } else {
                "Literal(false)"@
            },
            Kind::Not => "Not()"@,
            Kind::And => "And()"@,
            Kind::Or => "Or()"@,
            Kind::Implies => "Implies()"@,
            Kind::IfAndOnlyIf => "IfAndOnlyIf()"@,
            Kind::OpenParen => "OpenParen()"@,
            Kind::CloseParen => "CloseParen()"@,
        }
    }
}

impl PartialEq for TokenKind {
    fn eq(&self, other: &TokenKind) -> (same: bool) {
        match (self, other) {
            (TokenKind::Identifier(a), TokenKind::Identifier(b)) => *a == *b,
            (TokenKind::Literal(a), TokenKind::Literal(b)) => *a == *b,
            (TokenKind::Not, TokenKind::Not) => true,
            (TokenKind::And, TokenKind::And) => true,
            (TokenKind::Or, TokenKind::Or) => true,
            (TokenKind::Implies, TokenKind::Implies) => true,
            (TokenKind::IfAndOnlyIf, TokenKind::IfAndOnlyIf) => true,
            (TokenKind::OpenParen, TokenKind::OpenParen) => true,
            (TokenKind::CloseParen, TokenKind::CloseParen) => true,
            _ => false,
        }
    }
}

impl vstd::std_specs::cmp::PartialEqSpecImpl for TokenKind {
    open spec fn obeys_eq_spec() -> bool {
        true
    }

    open spec fn eq_spec(&self, other: &TokenKind) -> bool {
        self@ == other@
    }
}

impl TokenKind {
    /// The token kind written out, as in `Identifier(p)` or `And()`.
    pub fn to_string(&self) -> (text: String)
        ensures
            text@ == self@.text(),
    {
        match self {
            TokenKind::Identifier(name) => {
                let mut text = String::from_str("Identifier(");
                text.append(name.as_str());
                text.append(")");
                text
            },
            TokenKind::Literal(value) => {
                if *value {
                    String::from_str("Literal(true)")
                } else {
                    String::from_str("Literal(false)")
                }
            },
            TokenKind::Not => String::from_str("Not()"),
            TokenKind::And => String::from_str("And()"),
            TokenKind::Or => String::from_str("Or()"),
            TokenKind::Implies => String::from_str("Implies()"),
            TokenKind::IfAndOnlyIf => String::from_str("IfAndOnlyIf()"),
            TokenKind::OpenParen => String::from_str("OpenParen()"),
            TokenKind::CloseParen => String::from_str("CloseParen()"),
        }
    }
}

/// A range of the source, in bytes: from `start` up to, not including, `end`.
#[derive(Debug, Clone, Copy, PartialEq, Eq, Structural)]
pub struct Span {
    pub start: usize,
    pub end: usize,
}

impl From<(usize, usize)> for Span {
    fn from(value: (usize, usize)) -> (span: Span) {
        Span { start: value.0, end: value.1 }
    }
}

impl vstd::std_specs::convert::FromSpecImpl<(usize, usize)> for Span {
    open spec fn obeys_from_spec() -> bool {
        true
    }

    open spec fn from_spec(value: (usize, usize)) -> Span {
        Span { start: value.0, end: value.1 }
    }
}

/// What the lexer produces and the parser consumes.
#[derive(Debug, Clone)]
pub struct Token {
    pub kind: TokenKind,
    pub span: Span,
}

/// A token as a value of plain sequences.
pub struct TokenView {
    pub kind: Kind,
    pub span: Span,
}

impl View for Token {
    type V = TokenView;

    open spec fn view(&self) -> TokenView {
        TokenView { kind: self.kind@, span: self.span }
    }
}

impl Token {
    /// A token of `kind` at `span`.
    pub fn new<T>(kind: TokenKind, span: T) -> (token: Token) where T: Into<Span>
        ensures
            token.kind == kind,
            T::obeys_into_spec() ==> token.span == span.into_spec(),
    {
        Token { kind, span: span.into() }
    }
}

} // verus!
