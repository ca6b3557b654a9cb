//! A lexer that is built on a source and used up by reading it: negation is
//! `!`, words are propositions of letters and digits.

use vstd::prelude::*;
use crate::logic_parser::lexing::token::Kind;
use crate::logic_parser::parsing::errors::{LexerError, LexerFault};
use crate::logic_parser::parsing::lexer::{
    cuts_cleanly,
    lexed_from,
    scan,
    token_views as plain_views,
    Dialect,
    Lexer,
    Scan,
    Token as PlainToken,
    TokenKind as PlainKind,
    TokenView,
};

verus! {

/// All the tokens the lexer can produce.
#[derive(Debug)]
pub enum TokenKind {
    Proposition(String),
    Literal(bool),
    Not,
    And,
    Or,
    Implies,
    OpenParen,
    CloseParen,
}

impl View for TokenKind {
    type V = Kind;

    /// A proposition is seen as the identifier that names it.
    open spec fn view(&self) -> Kind {
        match self {
            TokenKind::Proposition(name) => Kind::Identifier(name@),
            TokenKind::Literal(value) => Kind::Literal(*value),
            TokenKind::Not => Kind::Not,
            TokenKind::And => Kind::And,
            TokenKind::Or => Kind::Or,
            TokenKind::Implies => Kind::Implies,
            TokenKind::OpenParen => Kind::OpenParen,
            TokenKind::CloseParen => Kind::CloseParen,
        }
    }
}

/// A token: its kind, where it starts and how long it is, in bytes.
#[derive(Debug)]
pub struct Token {
    pub kind: TokenKind,
    pub start: usize,
    pub len: usize,
}

impl View for Token {
    type V = TokenView;

    open spec fn view(&self) -> TokenView {
        TokenView { kind: self.kind@, start: self.start, len: self.len }
    }
}

/// The tokens of a vector as plain values.
pub open spec fn token_views(tokens: Seq<Token>) -> Seq<TokenView> {
    tokens.map_values(|token: Token| token@)
}

/// Negation is `!`; tab and space are blanks; words are made of letters and
/// digits and start with a letter.
pub open spec fn bang() -> Dialect {
    Dialect { negation: '!', carriage_return: false, underscore: false }
}

/// The same token, with a word as a proposition.
fn relabel(token: &PlainToken) -> (out: Token)
    ensures
        out@ == token@,
{
    let kind = match &token.kind {
        PlainKind::Identifier(name) => TokenKind::Proposition(name.clone()),
        PlainKind::Literal(value) => TokenKind::Literal(*value),
        PlainKind::Not => TokenKind::Not,
        PlainKind::And => TokenKind::And,
        PlainKind::Or => TokenKind::Or,
        PlainKind::Implies => TokenKind::Implies,
        PlainKind::OpenParen => TokenKind::OpenParen,
        PlainKind::CloseParen => TokenKind::CloseParen,
    };
    Token { kind, start: token.start, len: token.len }
}

/// A lexer on its source.
pub struct LexerBuilder {
    lexer: Lexer,
}

impl LexerBuilder {
    /// The source text.
    pub closed spec fn source(&self) -> Seq<char> {
        self.lexer.source()
    }

    /// How many characters of the source have been read.
    pub closed spec fn cursor(&self) -> int {
        self.lexer.cursor()
    }

    /// The place of the lexer lies in its source, and its dialect is that
    /// of `bang`.
    pub closed spec fn wf(&self) -> bool {
        self.lexer.wf() && self.lexer.dialect() == bang()
    }

    /// A lexer at the beginning of `expr`.
    pub fn new(expr: &str) -> (builder: LexerBuilder)
        ensures
            builder.wf(),
            builder.source() == expr@,
            builder.cursor() == 0,
    {
        LexerBuilder {
            lexer: Lexer::in_dialect(
                Dialect { negation: '!', carriage_return: false, underscore: false },
                expr,
            ),
        }
    }

    /// The next token of the source, `None` at its end, or the error that
    /// stands in its place; nothing at all where a word comes next that
    /// cannot be cut out of the source.
    pub fn next_token(&mut self) -> (outcome: Option<Result<Option<Token>, LexerError>>)
        requires
            old(self).wf(),
        ensures
            final(self).wf(),
            final(self).source() == old(self).source(),
            match scan(bang(), old(self).source(), old(self).cursor()) {
                Scan::End => outcome matches Some(Ok(None)),
                Scan::Fault { fault } => outcome matches Some(Err(error)) && error@ == fault,
                Scan::Split => outcome is None,
                Scan::Token { token, next } => {
                    &&& outcome matches Some(Ok(Some(found)))
                    &&& found@ == token
                    &&& old(self).cursor() < next <= old(self).source().len()
                    &&& final(self).cursor() == next
                },
            },
    {
        match self.lexer.try_next_token() {
            None => None,
            Some(Err(error)) => Some(Err(error)),
            Some(Ok(None)) => Some(Ok(None)),
            Some(Ok(Some(token))) => Some(Ok(Some(relabel(&token)))),
        }
    }

    /// The tokens of the source, or the first error. Every word on the way
    /// must be such that it can be cut out of the source.
    pub fn parse(self) -> (result: Result<Vec<Token>, LexerError>)
        requires
            self.wf(),
            cuts_cleanly(bang(), self.source(), self.cursor()),
        ensures
            match result {
                Ok(tokens) => lexed_from(bang(), self.source(), self.cursor()) == Ok::<
                    Seq<TokenView>,
                    LexerFault,
                >(token_views(tokens@)),
                Err(error) => lexed_from(bang(), self.source(), self.cursor()) == Err::<
                    Seq<TokenView>,
                    LexerFault,
                >(error@),
            },
    {
        match self.try_parse() {
            Some(result) => result,
            None => Ok(Vec::new()),
        }
    }

    /// The tokens of the source, or the first error; `None` where a word on
    /// the way cannot be cut out of the source.
    pub fn try_parse(self) -> (outcome: Option<Result<Vec<Token>, LexerError>>)
        requires
            self.wf(),
        ensures
            outcome is Some == cuts_cleanly(bang(), self.source(), self.cursor()),
            match outcome {
                Some(Ok(tokens)) => lexed_from(bang(), self.source(), self.cursor()) == Ok::<
                    Seq<TokenView>,
                    LexerFault,
                >(token_views(tokens@)),
                Some(Err(error)) => lexed_from(bang(), self.source(), self.cursor()) == Err::<
                    Seq<TokenView>,
                    LexerFault,
                >(error@),
                None => true,
            },
    {
        let found = match self.lexer.try_parse() {
            None => {
                return None;
            },
            Some(Err(error)) => {
                return Some(Err(error));
            },
            Some(Ok(found)) => found,
        };
        let mut tokens: Vec<Token> = Vec::new();
        let mut i: usize = 0;
        while i < found.len()
            invariant
                i <= found.len(),
                token_views(tokens@) == plain_views(found@).take(i as int),
            decreases found.len() - i,
        {
            let ghost before = token_views(tokens@);
            tokens.push(relabel(&found[i]));
            proof {
                assert(token_views(tokens@) =~= before.push(found@[i as int]@));
                assert(plain_views(found@).take(i + 1) =~= plain_views(found@).take(i as int).push(
                    found@[i as int]@,
                ));
            }
            i += 1;
        }
        proof {
            assert(plain_views(found@).take(found@.len() as int) =~= plain_views(found@));
        }
        Some(Ok(tokens))
    }
}

} // verus!
