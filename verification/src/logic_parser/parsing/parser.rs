//! The parser: recursive descent over the grammar
//!
//! ```yaml
//! expr: term [(<-> | ->) expr]
//! term: prop [(|| | &&) term]
//! prop: [~] (true | false | "name" | LPAREN expr RPAREN)
//! ```

use vstd::prelude::*;
use vstd::string::StringExecFns;
use crate::logic_parser::errors::{ParserError, ParserFault};
use crate::logic_parser::lexing::lexer::token_views;
use crate::logic_parser::lexing::token::{Kind, Span, Token, TokenKind, TokenView};
use crate::logic_parser::parsing::node::{ASTNode, Formula};

verus! {

/// What reading a part of the token sequence gives: a formula and the
/// position after it, or an error.
pub enum Parsed {
    Tree { tree: Formula, next: int },
    Fault { fault: ParserFault },
}

/// What the parser says where the tokens end before a proposition.
pub open spec fn proposition_hint() -> Seq<char> {
    "Expected [~] (true | false | variable | (...))"@
}

/// The span of the last token, or the empty span at the start where there
/// is none.
pub open spec fn last_span(tokens: Seq<TokenView>) -> Span {
    if tokens.len() > 0 {
        tokens.last().span
    } else {
        Span { start: 0, end: 0 }
    }
}

/// A token kind between single quotes.
pub open spec fn in_quotes(kind: Kind) -> Seq<char> {
    "'"@ + kind.text() + "'"@
}

/// Reads a proposition at `pos`: a name, a literal, a negated proposition,
/// or an expression between parentheses.
pub open spec fn proposition(tokens: Seq<TokenView>, pos: int) -> Parsed
    decreases tokens.len() - pos, 0int,
{
    if !(0 <= pos < tokens.len()) {
        Parsed::Fault {
            fault: ParserFault::UnexpectedEOF(proposition_hint(), last_span(tokens)),
        }
    } else {
        let token = tokens[pos];
        match token.kind {
            Kind::Identifier(name) => Parsed::Tree {
                tree: Formula::Identifier { name },
                next: pos + 1,
            },
            Kind::Literal(value) => Parsed::Tree { tree: Formula::Literal { value }, next: pos + 1 },
            Kind::Not => match proposition(tokens, pos + 1) {
                Parsed::Tree { tree, next } => Parsed::Tree {
                    tree: Formula::Not { operand: Box::new(tree) },
                    next,
                },
                Parsed::Fault { fault } => Parsed::Fault { fault },
            },
            Kind::OpenParen => match expression(tokens, pos + 1) {
                Parsed::Tree { tree, next } => {
                    if 0 <= next < tokens.len() && tokens[next].kind is CloseParen {
                        Parsed::Tree { tree, next: next + 1 }
                    } else {
                        Parsed::Fault {
                            fault: ParserFault::UnexpectedToken("R_PAREN expected"@, token.span),
                        }
                    }
                },
                Parsed::Fault { fault } => Parsed::Fault { fault },
            },
            Kind::CloseParen => Parsed::Fault {
                fault: ParserFault::UnexpectedToken("R_PAREN"@, token.span),
            },
            other => Parsed::Fault {
                fault: ParserFault::UnexpectedToken(in_quotes(other), token.span),
            },
        }
    }
}

/// Reads a term at `pos`: a proposition, or a proposition joined to a term
/// by a conjunction or a disjunction.
pub open spec fn term(tokens: Seq<TokenView>, pos: int) -> Parsed
    decreases tokens.len() - pos, 1int,
{
    match proposition(tokens, pos) {
        Parsed::Tree { tree, next } => {
            if pos < next < tokens.len() && tokens[next].kind is And {
                match term(tokens, next + 1) {
                    Parsed::Tree { tree: right, next: end } => Parsed::Tree {
                        tree: Formula::And { left: Box::new(tree), right: Box::new(right) },
                        next: end,
                    },
                    Parsed::Fault { fault } => Parsed::Fault { fault },
                }
            } else if pos < next < tokens.len() && tokens[next].kind is Or {
                match term(tokens, next + 1) {
                    Parsed::Tree { tree: right, next: end } => Parsed::Tree {
                        tree: Formula::Or { left: Box::new(tree), right: Box::new(right) },
                        next: end,
                    },
                    Parsed::Fault { fault } => Parsed::Fault { fault },
                }
            } else {
                Parsed::Tree { tree, next }
            }
        },
        Parsed::Fault { fault } => Parsed::Fault { fault },
    }
}

/// Reads an expression at `pos`: a term, or a term joined to an expression
/// by an implication or an equivalence.
pub open spec fn expression(tokens: Seq<TokenView>, pos: int) -> Parsed
    decreases tokens.len() - pos, 2int,
{
    match term(tokens, pos) {
        Parsed::Tree { tree, next } => {
            if pos < next < tokens.len() && tokens[next].kind is Implies {
                match expression(tokens, next + 1) {
                    Parsed::Tree { tree: right, next: end } => Parsed::Tree {
                        tree: Formula::Implies { left: Box::new(tree), right: Box::new(right) },
                        next: end,
                    },
                    Parsed::Fault { fault } => Parsed::Fault { fault },
                }
            } else if pos < next < tokens.len() && tokens[next].kind is IfAndOnlyIf {
                match expression(tokens, next + 1) {
                    Parsed::Tree { tree: right, next: end } => Parsed::Tree {
                        tree: Formula::IfAndOnlyIf { left: Box::new(tree), right: Box::new(right) },
                        next: end,
                    },
                    Parsed::Fault { fault } => Parsed::Fault { fault },
                }
            } else {
                Parsed::Tree { tree, next }
            }
        },
        Parsed::Fault { fault } => Parsed::Fault { fault },
    }
}

/// The formula that the tokens from `pos` on stand for, or the first error:
/// that of the expression, or the token left over after it.
pub open spec fn parsed_from(tokens: Seq<TokenView>, pos: int) -> Result<Formula, ParserFault> {
    match expression(tokens, pos) {
        Parsed::Tree { tree, next } => {
            if 0 <= next < tokens.len() {
                Err(ParserFault::UnexpectedToken(in_quotes(tokens[next].kind), tokens[next].span))
            } else {
                Ok(tree)
            }
        },
        Parsed::Fault { fault } => Err(fault),
    }
}

/// The formula that the whole token sequence stands for, or the first error.
pub open spec fn parsed(tokens: Seq<TokenView>) -> Result<Formula, ParserFault> {
    parsed_from(tokens, 0)
}

/// Reading a formula takes at least one token and ends within the tokens.
pub proof fn lemma_progress(tokens: Seq<TokenView>, pos: int, level: int)
    requires
        0 <= pos,
        0 <= level <= 2,
    ensures
        level == 0 ==> (proposition(tokens, pos) matches Parsed::Tree { next, .. } ==> pos < next
            <= tokens.len()),
        level == 1 ==> (term(tokens, pos) matches Parsed::Tree { next, .. } ==> pos < next
            <= tokens.len()),
        level == 2 ==> (expression(tokens, pos) matches Parsed::Tree { next, .. } ==> pos < next
            <= tokens.len()),
    decreases tokens.len() - pos, level,
{
    if level == 0 {
        if pos < tokens.len() {
            match tokens[pos].kind {
                Kind::Not => {
                    lemma_progress(tokens, pos + 1, 0);
                },
                Kind::OpenParen => {
                    lemma_progress(tokens, pos + 1, 2);
                },
                _ => {},
            }
        }
    } else if level == 1 {
        lemma_progress(tokens, pos, 0);
        match proposition(tokens, pos) {
            Parsed::Tree { tree, next } => {
                if next < tokens.len() {
                    lemma_progress(tokens, next + 1, 1);
                }
            },
            _ => {},
        }
    } else {
        lemma_progress(tokens, pos, 1);
        match term(tokens, pos) {
            Parsed::Tree { tree, next } => {
                if next < tokens.len() {
                    lemma_progress(tokens, next + 1, 2);
                }
            },
            _ => {},
        }
    }
}

/// A parser over a token sequence, and its place in it.
#[derive(Debug)]
pub struct Parser<'a> {
    tokens: &'a Vec<Token>,
    pos: usize,
}

impl<'a> Parser<'a> {
    /// The tokens that the parser reads.
    pub closed spec fn tokens(&self) -> Seq<TokenView> {
        token_views(self.tokens@)
    }

    /// How many tokens have been read.
    pub closed spec fn position(&self) -> int {
        self.pos as int
    }

    /// A parser at the start of `tokens`.
    pub fn new(tokens: &'a Vec<Token>) -> (parser: Parser<'a>)
        ensures
            parser.tokens() == token_views(tokens@),
            parser.position() == 0,
    {
        Parser { tokens, pos: 0 }
    }

    /// The formula that the tokens from the parser's place on stand for. It
    /// is an error where they are no expression, and where a token is left
    /// over after the expression.
    pub fn parse(&mut self) -> (result: Result<ASTNode, ParserError>)
        ensures
            final(self).tokens() == old(self).tokens(),
            match result {
                Ok(tree) => parsed_from(old(self).tokens(), old(self).position()) == Ok::<
                    Formula,
                    ParserFault,
                >(tree@),
                Err(error) => parsed_from(old(self).tokens(), old(self).position()) == Err::<
                    Formula,
                    ParserFault,
                >(error@),
            },
    {
        let ast = match self.parse_expression() {
            Ok(ast) => ast,
            Err(error) => {
                return Err(error);
            },
        };
        match self.consume() {
            Some(token) => {
                let mut what = String::from_str("'");
                let kind = token.kind.to_string();
                what.append(kind.as_str());
                what.append("'");
                Err(ParserError::UnexpectedToken(what, token.span))
            },
            None => Ok(ast),
        }
    }

    fn parse_expression(&mut self) -> (result: Result<ASTNode, ParserError>)
        ensures
            final(self).tokens() == old(self).tokens(),
            match result {
                Ok(tree) => expression(old(self).tokens(), old(self).position()) == (Parsed::Tree {
                    tree: tree@,
                    next: final(self).position(),
                }),
                Err(error) => expression(old(self).tokens(), old(self).position()) == (
                Parsed::Fault { fault: error@ }),
            },
        decreases old(self).tokens().len() - old(self).position(), 2int,
    {
        let ghost start = self.position();
        let l_term = match self.parse_term() {
            Ok(tree) => tree,
            Err(error) => {
                return Err(error);
            },
        };
        proof {
            lemma_progress(self.tokens(), start, 1);
        }
        match self.peek() {
            Some(TokenKind::Implies) => {
                self.consume();
                match self.parse_expression() {
                    Ok(right) => Ok(
                        ASTNode::Implies { left: Box::new(l_term), right: Box::new(right) },
                    ),
                    Err(error) => Err(error),
                }
            },
            Some(TokenKind::IfAndOnlyIf) => {
                self.consume();
                match self.parse_expression() {
                    Ok(right) => Ok(
                        ASTNode::IfAndOnlyIf { left: Box::new(l_term), right: Box::new(right) },
                    ),
                    Err(error) => Err(error),
                }
            },
            Some(_) => Ok(l_term),
            None => Ok(l_term),
        }
    }

    fn parse_term(&mut self) -> (result: Result<ASTNode, ParserError>)
        ensures
            final(self).tokens() == old(self).tokens(),
            match result {
                Ok(tree) => term(old(self).tokens(), old(self).position()) == (Parsed::Tree {
                    tree: tree@,
                    next: final(self).position(),
                }),
                Err(error) => term(old(self).tokens(), old(self).position()) == (Parsed::Fault {
                    fault: error@,
                }),
            },
        decreases old(self).tokens().len() - old(self).position(), 1int,
    {
        let ghost start = self.position();
        let l_term = match self.parse_proposition() {
            Ok(tree) => tree,
            Err(error) => {
                return Err(error);
            },
        };
        proof {
            lemma_progress(self.tokens(), start, 0);
        }
        match self.peek() {
            Some(TokenKind::And) => {
                self.consume();
                match self.parse_term() {
                    Ok(right) => Ok(ASTNode::And { left: Box::new(l_term), right: Box::new(right) }),
                    Err(error) => Err(error),
                }
            },
            Some(TokenKind::Or) => {
                self.consume();
                match self.parse_term() {
                    Ok(right) => Ok(ASTNode::Or { left: Box::new(l_term), right: Box::new(right) }),
                    Err(error) => Err(error),
                }
            },
            Some(_) => Ok(l_term),
            None => Ok(l_term),
        }
    }

    fn parse_proposition(&mut self) -> (result: Result<ASTNode, ParserError>)
        ensures
            final(self).tokens() == old(self).tokens(),
            match result {
                Ok(tree) => proposition(old(self).tokens(), old(self).position()) == (Parsed::Tree {
                    tree: tree@,
                    next: final(self).position(),
                }),
                Err(error) => proposition(old(self).tokens(), old(self).position()) == (
                Parsed::Fault { fault: error@ }),
            },
        decreases old(self).tokens().len() - old(self).position(), 0int,
    {
        let next_token = match self.consume() {
            Some(token) => token,
            None => {
                let last_span = if self.tokens.len() > 0 {
                    self.tokens[self.tokens.len() - 1].span
                } else {
                    Span { start: 0, end: 0 }
                };
                return Err(
                    ParserError::UnexpectedEOF(
                        String::from_str("Expected [~] (true | false | variable | (...))"),
                        last_span,
                    ),
                );
            },
        };
        let span = next_token.span;
        match &next_token.kind {
            TokenKind::Identifier(name) => Ok(ASTNode::Identifier { name: name.clone() }),
            TokenKind::Literal(boolean) => Ok(ASTNode::Literal { value: *boolean }),
            TokenKind::Not => {
                match self.parse_proposition() {
                    Ok(prop) => Ok(ASTNode::Not { operand: Box::new(prop) }),
                    Err(error) => Err(error),
                }
            },
            TokenKind::OpenParen => {
                let ghost inner = self.position();
                let expr = match self.parse_expression() {
                    Ok(tree) => tree,
                    Err(error) => {
                        return Err(error);
                    },
                };
                proof {
                    lemma_progress(self.tokens(), inner, 2);
                }
                match self.peek() {
                    Some(TokenKind::CloseParen) => {
                        self.consume();
                        Ok(expr)
                    },
                    _ => Err(
                        ParserError::UnexpectedToken(String::from_str("R_PAREN expected"), span),
                    ),
                }
            },
            TokenKind::CloseParen => Err(
                ParserError::UnexpectedToken(String::from_str("R_PAREN"), span),
            ),
            other => {
                let mut what = String::from_str("'");
                let kind = other.to_string();
                what.append(kind.as_str());
                what.append("'");
                Err(ParserError::UnexpectedToken(what, span))
            },
        }
    }

    /// Reads one token, if there is one.
    fn consume(&mut self) -> (token: Option<&'a Token>)
        ensures
            final(self).tokens() == old(self).tokens(),
            old(self).position() < old(self).tokens().len() ==> {
                &&& token matches Some(t)
                &&& t@ == old(self).tokens()[old(self).position()]
                &&& final(self).position() == old(self).position() + 1
            },
            old(self).position() >= old(self).tokens().len() ==> {
                &&& token is None
                &&& final(self).position() == old(self).position()
            },
    {
        if self.pos < self.tokens.len() {
            let token = &self.tokens[self.pos];
            self.pos = self.pos + 1;
            Some(token)
        } else {
            None
        }
    }

    /// The kind of the next token, if there is one. Nothing is read.
    fn peek(&self) -> (kind: Option<&'a TokenKind>)
        ensures
            self.position() < self.tokens().len() ==> {
                &&& kind matches Some(k)
                &&& k@ == self.tokens()[self.position()].kind
            },
            self.position() >= self.tokens().len() ==> kind is None,
    {
        if self.pos < self.tokens.len() {
            Some(&self.tokens[self.pos].kind)
        } else {
            None
        }
    }
}

} // verus!
