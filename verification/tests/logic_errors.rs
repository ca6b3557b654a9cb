use assignments::logic_parser::errors::{LexerError, ParserError};
use assignments::logic_parser::lexing::token::{Span, Token, TokenKind};
use assignments::logic_parser::parsing::errors::{
    LexerError as PlainLexerError, ParserError as PlainParserError,
};

#[test]
fn spans_come_from_pairs() {
    assert_eq!(Span::from((3, 4)), Span { start: 3, end: 4 });
    let span: Span = (0, 1).into();
    assert_eq!(span, Span { start: 0, end: 1 });
}

#[test]
fn tokens_are_made_of_kind_and_span() {
    let token = Token::new(TokenKind::Implies, (2, 4));
    assert_eq!(token.kind, TokenKind::Implies);
    assert_eq!(token.span, Span { start: 2, end: 4 });
    let token = Token::new(TokenKind::Identifier("p".into()), Span { start: 7, end: 8 });
    assert_eq!(token.kind, TokenKind::Identifier("p".into()));
    assert_eq!(token.span, Span { start: 7, end: 8 });
    assert_ne!(TokenKind::Identifier("p".into()), TokenKind::Identifier("q".into()));
    assert_ne!(TokenKind::Literal(true), TokenKind::Literal(false));
    assert_ne!(TokenKind::And, TokenKind::Or);
}

#[test]
fn messages_of_errors_with_a_place() {
    let error = LexerError::SyntaxError("oops".into(), Span { start: 1, end: 2 });
    assert_eq!(error.to_string(), "Syntax error: oops");
    assert_eq!(error.span(), Span { start: 1, end: 2 });
    let error = LexerError::UnknownToken('$', Span { start: 5, end: 6 });
    assert_eq!(error.to_string(), "Unknown Token: $");
    assert_eq!(error.span(), Span { start: 5, end: 6 });
    let error = ParserError::UnexpectedToken("R_PAREN".into(), Span { start: 0, end: 1 });
    assert_eq!(error.to_string(), "Unexpected token: R_PAREN");
    let error = ParserError::UnexpectedEOF("more".into(), Span { start: 3, end: 3 });
    assert_eq!(error.to_string(), "Unexpected EOF: more");
    assert_eq!(error.span(), Span { start: 3, end: 3 });
}

#[test]
fn messages_of_errors_without_a_place() {
    assert_eq!(PlainLexerError::SyntaxError("oops".into()).to_string(), "Syntax error: oops");
    assert_eq!(PlainLexerError::UnknownToken("x".into()).to_string(), "Unknown Token: x");
    assert_eq!(
        PlainParserError::UnexpectedToken("R_PAREN".into()).to_string(),
        "Unexpected token: R_PAREN"
    );
    assert_eq!(PlainParserError::UnexpectedEOF("more".into()).to_string(), "Unexpected EOF");
}
