//! A parser without repetition, over the tokens that carry start and length:
//!
//! ```yaml
//! expr: term [=> term]
//! term: prop [(| | &) prop]
//! prop: [~] (true | false | "name" | LPAREN expr RPAREN)
//! ```
//!
//! An expression and a term each read the token that follows them and
//! reject any that is not their operator.

use vstd::prelude::*;
use vstd::string::StringExecFns;
use crate::logic_parser::lexing::token::Kind;
use crate::logic_parser::parsing::errors::{ParserError, ParserFault};
use crate::logic_parser::parsing::lexer::{token_views, Token, TokenKind, TokenView};
use crate::logic_parser::parsing::node::Formula;

verus! {

/// A formula of propositional logic without equivalence.
#[derive(Debug)]
pub enum ASTNode {
    Identifier(String),
    Literal(bool),
    Not(Box<ASTNode>),
    And(Box<ASTNode>, Box<ASTNode>),
    Or(Box<ASTNode>, Box<ASTNode>),
    Implies(Box<ASTNode>, Box<ASTNode>),
}

/// The formula that a tree stands for.
pub open spec fn formula_of(node: ASTNode) -> Formula
    decreases node,
{
    match node {
        ASTNode::Identifier(name) => Formula::Identifier { name: name@ },
        ASTNode::Literal(value) => Formula::Literal { value },
        ASTNode::Not(operand) => Formula::Not { operand: Box::new(formula_of(*operand)) },
        ASTNode::And(left, right) => Formula::And {
            left: Box::new(formula_of(*left)),
            right: Box::new(formula_of(*right)),
        },
        ASTNode::Or(left, right) => Formula::Or {
            left: Box::new(formula_of(*left)),
            right: Box::new(formula_of(*right)),
        },
        ASTNode::Implies(left, right) => Formula::Implies {
            left: Box::new(formula_of(*left)),
            right: Box::new(formula_of(*right)),
        },
    }
}

impl View for ASTNode {
    type V = Formula;

    open spec fn view(&self) -> Formula {
        formula_of(*self)
    }
}

/// What reading a part of the token sequence gives: a formula and the
/// position after the tokens that were read, or an error.
pub enum Parsed {
    Tree { tree: Formula, next: int },
    Fault { fault: ParserFault },
}

/// How a token kind is written out in an error: every kind alike.
pub open spec fn kind_text() -> Seq<char> {
    "tokensito"@
}

/// Reads a proposition at `pos`.
pub open spec fn proposition(tokens: Seq<TokenView>, pos: int) -> Parsed
    decreases tokens.len() - pos, 0int,
{
    if !(0 <= pos < tokens.len()) {
        Parsed::Fault { fault: ParserFault::UnexpectedEOF("Expected proposition"@) }
    } else {
        match tokens[pos].kind {
            Kind::Identifier(name) => Parsed::Tree {
                tree: Formula::Identifier { name },
                next: pos + 1,
            },
            Kind::Literal(value) => Parsed::Tree { tree: Formula::Literal { value }, next: pos + 1 },
            Kind::Not => match proposition(tokens, pos + 1) {
                Parsed::Tree { tree, next } => Parsed::Tree {
                    tree: Formula::Not { operand: Box::new(tree) },
                    next,
                },
                Parsed::Fault { fault } => Parsed::Fault { fault },
            },
            Kind::OpenParen => match expression(tokens, pos + 1) {
                Parsed::Tree { tree, next } => {
                    if 0 <= next < tokens.len() && tokens[next].kind is CloseParen {
                        Parsed::Tree { tree, next: next + 1 }
                    } else {
                        Parsed::Fault { fault: ParserFault::UnexpectedToken("R_PAREN expected"@) }
                    }
                },
                Parsed::Fault { fault } => Parsed::Fault { fault },
            },
            Kind::CloseParen => Parsed::Fault {
                fault: ParserFault::UnexpectedToken("Unexpeced R_PAREN"@),
            },
            _ => Parsed::Fault { fault: ParserFault::UnexpectedToken("Unexpeced Token"@) },
        }
    }
}

/// Reads a term at `pos`: a proposition and the token after it, which must
/// be a conjunction or a disjunction with a second proposition.
pub open spec fn term(tokens: Seq<TokenView>, pos: int) -> Parsed
    decreases tokens.len() - pos, 1int,
{
    match proposition(tokens, pos) {
        Parsed::Tree { tree, next } => {
            if !(pos <= next < tokens.len()) {
                Parsed::Tree { tree, next }
            } else if tokens[next].kind is And {
                match proposition(tokens, next + 1) {
                    Parsed::Tree { tree: right, next: end } => Parsed::Tree {
                        tree: Formula::And { left: Box::new(tree), right: Box::new(right) },
                        next: end,
                    },
                    Parsed::Fault { fault } => Parsed::Fault { fault },
                }
            } else if tokens[next].kind is Or {
                match proposition(tokens, next + 1) {
                    Parsed::Tree { tree: right, next: end } => Parsed::Tree {
                        tree: Formula::Or { left: Box::new(tree), right: Box::new(right) },
                        next: end,
                    },
                    Parsed::Fault { fault } => Parsed::Fault { fault },
                }
            } else {
                Parsed::Fault { fault: ParserFault::UnexpectedToken("Unexpeced Token"@) }
            }
        },
        Parsed::Fault { fault } => Parsed::Fault { fault },
    }
}

/// Reads an expression at `pos`: a term and the token after it, which must
/// be an implication with a second term.
pub open spec fn expression(tokens: Seq<TokenView>, pos: int) -> Parsed
    decreases tokens.len() - pos, 2int,
{
    match term(tokens, pos) {
        Parsed::Tree { tree, next } => {
            if !(pos <= next < tokens.len()) {
                Parsed::Tree { tree, next }
            } else if tokens[next].kind is Implies {
                match term(tokens, next + 1) {
                    Parsed::Tree { tree: right, next: end } => Parsed::Tree {
                        tree: Formula::Implies { left: Box::new(tree), right: Box::new(right) },
                        next: end,
                    },
                    Parsed::Fault { fault } => Parsed::Fault { fault },
                }
            } else {
                Parsed::Fault { fault: ParserFault::UnexpectedToken(kind_text()) }
            }
        },
        Parsed::Fault { fault } => Parsed::Fault { fault },
    }
}

/// The formula that the tokens from `pos` on begin with, or the first
/// error.
pub open spec fn parsed_from(tokens: Seq<TokenView>, pos: int) -> Result<Formula, ParserFault> {
    match expression(tokens, pos) {
        Parsed::Tree { tree, .. } => Ok(tree),
        Parsed::Fault { fault } => Err(fault),
    }
}

/// Reading a formula ends after the place where it began and within the
/// tokens.
pub proof fn lemma_progress(tokens: Seq<TokenView>, pos: int, level: int)
    requires
        0 <= pos,
        0 <= level <= 2,
    ensures
        level == 0 ==> (proposition(tokens, pos) matches Parsed::Tree { next, .. } ==> pos < next
            <= tokens.len()),
        level == 1 ==> (term(tokens, pos) matches Parsed::Tree { next, .. } ==> pos < next
            <= tokens.len()),
        level == 2 ==> (expression(tokens, pos) matches Parsed::Tree { next, .. } ==> pos < next
            <= tokens.len()),
    decreases tokens.len() - pos, level,
{
    if level == 0 {
        if pos < tokens.len() {
            match tokens[pos].kind {
                Kind::Not => {
                    lemma_progress(tokens, pos + 1, 0);
                },
                Kind::OpenParen => {
                    lemma_progress(tokens, pos + 1, 2);
                },
                _ => {},
            }
        }
    } else if level == 1 {
        lemma_progress(tokens, pos, 0);
        match proposition(tokens, pos) {
            Parsed::Tree { tree, next } => {
                if next < tokens.len() {
                    lemma_progress(tokens, next + 1, 0);
                }
            },
            _ => {},
        }
    } else {
        lemma_progress(tokens, pos, 1);
        match term(tokens, pos) {
            Parsed::Tree { tree, next } => {
                if next < tokens.len() {
                    lemma_progress(tokens, next + 1, 1);
                }
            },
            _ => {},
        }
    }
}

/// A parser over a token sequence, and its place in it.
#[derive(Debug)]
pub struct Parser<'a> {
    tokens: &'a Vec<Token>,
    pos: usize,
}

impl<'a> Parser<'a> {
    /// The tokens that the parser reads.
    pub closed spec fn tokens(&self) -> Seq<TokenView> {
        token_views(self.tokens@)
    }

    /// How many tokens have been read.
    pub closed spec fn position(&self) -> int {
        self.pos as int
    }

    /// A parser at the start of `tokens`.
    pub fn new(tokens: &'a Vec<Token>) -> (parser: Parser<'a>)
        ensures
            parser.tokens() == token_views(tokens@),
            parser.position() == 0,
    {
        Parser { tokens, pos: 0 }
    }

    /// The formula that the tokens from the parser's place on begin with,
    /// or the first error.
    pub fn parse(&mut self) -> (result: Result<ASTNode, ParserError>)
        ensures
            final(self).tokens() == old(self).tokens(),
            match result {
                Ok(tree) => parsed_from(old(self).tokens(), old(self).position()) == Ok::<
                    Formula,
                    ParserFault,
                >(tree@),
                Err(error) => parsed_from(old(self).tokens(), old(self).position()) == Err::<
                    Formula,
                    ParserFault,
                >(error@),
            },
    {
        self.parse_expression()
    }

    fn parse_expression(&mut self) -> (result: Result<ASTNode, ParserError>)
        ensures
            final(self).tokens() == old(self).tokens(),
            match result {
                Ok(tree) => expression(old(self).tokens(), old(self).position()) == (Parsed::Tree {
                    tree: tree@,
                    next: final(self).position(),
                }),
                Err(error) => expression(old(self).tokens(), old(self).position()) == (
                Parsed::Fault { fault: error@ }),
            },
        decreases old(self).tokens().len() - old(self).position(), 2int,
    {
        let ghost start = self.position();
        let l_term = match self.parse_term() {
            Ok(tree) => tree,
            Err(error) => {
                return Err(error);
            },
        };
        proof {
            lemma_progress(self.tokens(), start, 1);
        }
        match self.consume() {
            Some(token) => match &token.kind {
                TokenKind::Implies => {
                    match self.parse_term() {
                        Ok(r_term) => Ok(ASTNode::Implies(Box::new(l_term), Box::new(r_term))),
                        Err(error) => Err(error),
                    }
                },
                other => Err(ParserError::UnexpectedToken(other.to_string())),
            },
            None => Ok(l_term),
        }
    }

    fn parse_term(&mut self) -> (result: Result<ASTNode, ParserError>)
        ensures
            final(self).tokens() == old(self).tokens(),
            match result {
                Ok(tree) => term(old(self).tokens(), old(self).position()) == (Parsed::Tree {
                    tree: tree@,
                    next: final(self).position(),
                }),
                Err(error) => term(old(self).tokens(), old(self).position()) == (Parsed::Fault {
                    fault: error@,
                }),
            },
        decreases old(self).tokens().len() - old(self).position(), 1int,
    {
        let ghost start = self.position();
        let left = match self.parse_proposition() {
            Ok(tree) => tree,
            Err(error) => {
                return Err(error);
            },
        };
        proof {
            lemma_progress(self.tokens(), start, 0);
        }
        match self.consume() {
            Some(token) => match &token.kind {
                TokenKind::And => {
                    match self.parse_proposition() {
                        Ok(right) => Ok(ASTNode::And(Box::new(left), Box::new(right))),
                        Err(error) => Err(error),
                    }
                },
                TokenKind::Or => {
                    match self.parse_proposition() {
                        Ok(right) => Ok(ASTNode::Or(Box::new(left), Box::new(right))),
                        Err(error) => Err(error),
                    }
                },
                _ => Err(ParserError::UnexpectedToken(String::from_str("Unexpeced Token"))),
            },
            None => Ok(left),
        }
    }

    fn parse_proposition(&mut self) -> (result: Result<ASTNode, ParserError>)
        ensures
            final(self).tokens() == old(self).tokens(),
            match result {
                Ok(tree) => proposition(old(self).tokens(), old(self).position()) == (Parsed::Tree {
                    tree: tree@,
                    next: final(self).position(),
                }),
                Err(error) => proposition(old(self).tokens(), old(self).position()) == (
                Parsed::Fault { fault: error@ }),
            },
        decreases old(self).tokens().len() - old(self).position(), 0int,
    {
        let next_token = match self.consume() {
            Some(token) => token,
            None => {
                return Err(ParserError::UnexpectedEOF(String::from_str("Expected proposition")));
            },
        };
        match &next_token.kind {
            TokenKind::Identifier(name) => Ok(ASTNode::Identifier(name.clone())),
            TokenKind::Literal(boolean) => Ok(ASTNode::Literal(*boolean)),
            TokenKind::Not => {
                match self.parse_proposition() {
                    Ok(prop) => Ok(ASTNode::Not(Box::new(prop))),
                    Err(error) => Err(error),
                }
            },
            TokenKind::OpenParen => {
                let ghost inner = self.position();
                let expr = match self.parse_expression() {
                    Ok(tree) => tree,
                    Err(error) => {
                        return Err(error);
                    },
                };
                proof {
                    lemma_progress(self.tokens(), inner, 2);
                }
                match self.peek() {
                    Some(TokenKind::CloseParen) => {
                        self.consume();
                        Ok(expr)
                    },
                    _ => Err(ParserError::UnexpectedToken(String::from_str("R_PAREN expected"))),
                }
            },
            TokenKind::CloseParen => Err(
                ParserError::UnexpectedToken(String::from_str("Unexpeced R_PAREN")),
            ),
            _ => Err(ParserError::UnexpectedToken(String::from_str("Unexpeced Token"))),
        }
    }

    /// Reads one token, if there is one.
    fn consume(&mut self) -> (token: Option<&'a Token>)
        ensures
            final(self).tokens() == old(self).tokens(),
            old(self).position() < old(self).tokens().len() ==> {
                &&& token matches Some(t)
                &&& t@ == old(self).tokens()[old(self).position()]
                &&& final(self).position() == old(self).position() + 1
            },
            old(self).position() >= old(self).tokens().len() ==> {
                &&& token is None
                &&& final(self).position() == old(self).position()
            },
    {
        if self.pos < self.tokens.len() {
            let token = &self.tokens[self.pos];
            self.pos = self.pos + 1;
            Some(token)
        } else {
            None
        }
    }

    /// The kind of the next token, if there is one. Nothing is read.
    fn peek(&self) -> (kind: Option<&'a TokenKind>)
        ensures
            self.position() < self.tokens().len() ==> {
                &&& kind matches Some(k)
                &&& k@ == self.tokens()[self.position()].kind
            },
            self.position() >= self.tokens().len() ==> kind is None,
    {
        if self.pos < self.tokens.len() {
            Some(&self.tokens[self.pos].kind)
        } else {
            None
        }
    }
}

} // verus!
