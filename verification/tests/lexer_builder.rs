use assignments::logic_parser::lexer::{LexerBuilder, TokenKind};
use assignments::logic_parser::parser::{ASTNode, Parser};
use assignments::logic_parser::parsing::errors::{LexerError, ParserError};
use assignments::logic_parser::parsing::lexer::Lexer;

fn kinds(source: &str) -> Vec<String> {
    LexerBuilder::new(source)
        .parse()
        .unwrap()
        .iter()
        .map(|token| format!("{:?}@{}+{}", token.kind, token.start, token.len))
        .collect()
}

#[test]
fn the_builder_reads_bang_for_negation() {
    assert_eq!(
        kinds("(p1 & !q) | true => false"),
        vec![
            "OpenParen@0+1",
            "Proposition(\"p1\")@1+2",
            "And@4+1",
            "Not@6+1",
            "Proposition(\"q\")@7+1",
            "CloseParen@8+1",
            "Or@10+1",
            "Literal(true)@12+4",
            "Implies@17+1",
            "Literal(false)@20+5",
        ]
    );
}

#[test]
fn the_builder_knows_no_tilde_underscore_or_carriage_return() {
    for source in ["~p", "_p", "p\rq", "p_q", "1p"] {
        match LexerBuilder::new(source).parse().unwrap_err() {
            LexerError::UnknownToken(_) => {}
            _ => unreachable!(),
        }
    }
    match LexerBuilder::new("p_q").parse().unwrap_err() {
        LexerError::UnknownToken(message) => assert_eq!(message, "Unkown Token: '_'"),
        _ => unreachable!(),
    }
    match LexerBuilder::new("p =").parse().unwrap_err() {
        LexerError::SyntaxError(message) => {
            assert_eq!(message, "Unexpected character (expected '=>'), got '='")
        }
        _ => unreachable!(),
    }
}

#[test]
fn the_builder_reads_token_by_token() {
    let mut builder = LexerBuilder::new(" \tp\u{e9}\u{e9}");
    let token = builder.next_token().unwrap().unwrap().unwrap();
    assert!(matches!(token.kind, TokenKind::Proposition(_)));
    assert_eq!(token.start, 2);
    assert_eq!(token.len, 5);
    assert!(builder.next_token().unwrap().unwrap().is_none());
    assert!(LexerBuilder::new("\u{e9}\u{e9}").try_parse().is_none());
    assert!(LexerBuilder::new("").try_parse().unwrap().unwrap().is_empty());
}

fn parse(source: &str) -> Result<ASTNode, ParserError> {
    let tokens = Lexer::new(source).parse().unwrap();
    Parser::new(&tokens).parse()
}

fn shown(source: &str) -> String {
    format!("{:?}", parse(source).unwrap())
}

fn refused(source: &str) -> String {
    parse(source).unwrap_err().to_string()
}

#[test]
fn a_term_joins_two_propositions() {
    assert_eq!(shown("p"), "Identifier(\"p\")");
    assert_eq!(shown("true"), "Literal(true)");
    assert_eq!(shown("~~p"), "Not(Not(Identifier(\"p\")))");
    assert_eq!(shown("p & q"), "And(Identifier(\"p\"), Identifier(\"q\"))");
    assert_eq!(shown("~p | false"), "Or(Not(Identifier(\"p\")), Literal(false))");
}

#[test]
fn an_expression_joins_two_terms() {
    assert_eq!(
        shown("a & b => c"),
        "Implies(And(Identifier(\"a\"), Identifier(\"b\")), Identifier(\"c\"))"
    );
    assert_eq!(
        shown("a | b => c & d"),
        "Implies(Or(Identifier(\"a\"), Identifier(\"b\")), And(Identifier(\"c\"), Identifier(\"d\")))"
    );
    // what follows the second term is not read
    assert_eq!(
        shown("a & b => c & d e f"),
        "Implies(And(Identifier(\"a\"), Identifier(\"b\")), And(Identifier(\"c\"), Identifier(\"d\")))"
    );
}

#[test]
fn the_token_after_a_term_must_be_its_operator() {
    assert_eq!(refused("p => q"), "Unexpected token: Unexpeced Token");
    assert_eq!(refused("p q"), "Unexpected token: Unexpeced Token");
    assert_eq!(refused("(p)"), "Unexpected token: Unexpeced Token");
    assert_eq!(refused("a & b c"), "Unexpected token: tokensito");
    assert_eq!(refused("a & b & c"), "Unexpected token: tokensito");
    assert_eq!(refused("(p"), "Unexpected token: R_PAREN expected");
    assert_eq!(refused(")"), "Unexpected token: Unexpeced R_PAREN");
    assert_eq!(refused("& p"), "Unexpected token: Unexpeced Token");
    assert_eq!(refused(""), "Unexpected EOF");
    assert_eq!(refused("p &"), "Unexpected EOF");
    assert_eq!(refused("~"), "Unexpected EOF");
    match parse("p &").unwrap_err() {
        ParserError::UnexpectedEOF(message) => assert_eq!(message, "Expected proposition"),
        _ => unreachable!(),
    }
}
