use assignments::logic_parser::errors::LexerError;
use assignments::logic_parser::lexing::lexer::Lexer;
use assignments::logic_parser::lexing::token::{Span, TokenKind};

#[test]
fn no_whitespaces_should_return_zero() {
    let mut lexer = Lexer::new();
    lexer.load("testing => this");
    let n = Lexer::skip_whitespaces(&mut lexer);
    assert_eq!(n, 0);
}

#[test]
fn literal_booleans_work() {
    let mut lexer = Lexer::new();
    let tokens = lexer.tokenize("false & true").unwrap();
    assert_eq!(
        tokens.iter().map(|t| &t.kind).collect::<Vec<&TokenKind>>(),
        vec![
            &TokenKind::Literal(false),
            &TokenKind::And,
            &TokenKind::Literal(true)
        ]
    );
}

#[test]
fn take_while_returns_zero_if_no_matches() {
    let mut lexer = Lexer::new();
    lexer.load("kittens");
    let n = lexer.take_while(|_| false);
    assert_eq!(n, 0);
}

#[test]
fn take_while_returns_correct_amount() {
    let mut lexer = Lexer::new();
    lexer.load("kittens");
    let n = lexer.take_while(|_| true);
    assert_eq!(n, 7);
}

#[test]
fn skip_whitespaces_works_properly() {
    let mut lexer = Lexer::new();
    let tokens = lexer.tokenize("\t\r puppies").unwrap();
    assert_eq!(tokens.len(), 1);
    assert_eq!(tokens[0].kind, TokenKind::Identifier("puppies".into()));
}

#[test]
fn error_is_returned_when_alphabet_doesnt_match() {
    let mut lexer = Lexer::with_alphabet(
        |c| ['a', 'b', 'c', '1', '2', '3'].contains(&c),
        |c| ['a', 'b', 'c'].contains(&c),
    );
    match lexer.tokenize("abcf").unwrap_err() {
        LexerError::UnknownToken(token, span) => {
            assert_eq!(token, 'f');
            assert_eq!(span, (3, 4).into());
        }
        _ => unreachable!(),
    };

    match lexer.tokenize("123abc").unwrap_err() {
        LexerError::UnknownToken(token, span) => {
            assert_eq!(token, '1');
            assert_eq!(span, (0, 1).into());
        }
        _ => unreachable!(),
    };
}

#[test]
#[should_panic]
fn propositions_cant_start_with_numbers() {
    let mut lexer = Lexer::new();
    if !lexer.tokenize("pqrs").is_ok() {
        return;
    }

    let mut lexer = Lexer::new();
    let _ = lexer.tokenize("69p").unwrap();
}

#[test]
fn spans_count_bytes() {
    let mut lexer = Lexer::new();
    let tokens = lexer.tokenize("\u{e9}t\u{e9} => \u{4e2d}").unwrap();
    assert_eq!(tokens.len(), 3);
    assert_eq!(tokens[0].kind, TokenKind::Identifier("\u{e9}t\u{e9}".into()));
    assert_eq!(tokens[0].span, Span { start: 0, end: 5 });
    assert_eq!(tokens[1].kind, TokenKind::Implies);
    assert_eq!(tokens[1].span, Span { start: 6, end: 8 });
    assert_eq!(tokens[2].span, Span { start: 9, end: 12 });
}

#[test]
fn every_operator_is_lexed() {
    let mut lexer = Lexer::new();
    let tokens = lexer.tokenize("~a !b (c) & && | || => -> <-> <=>").unwrap();
    let kinds: Vec<TokenKind> = tokens.iter().map(|t| t.kind.clone()).collect();
    assert_eq!(
        kinds,
        vec![
            TokenKind::Not,
            TokenKind::Identifier("a".into()),
            TokenKind::Not,
            TokenKind::Identifier("b".into()),
            TokenKind::OpenParen,
            TokenKind::Identifier("c".into()),
            TokenKind::CloseParen,
            TokenKind::And,
            TokenKind::And,
            TokenKind::Or,
            TokenKind::Or,
            TokenKind::Implies,
            TokenKind::Implies,
            TokenKind::IfAndOnlyIf,
            TokenKind::IfAndOnlyIf,
        ]
    );
    assert_eq!(tokens[8].span, Span { start: 12, end: 14 });
}

#[test]
fn half_an_arrow_is_a_syntax_error() {
    let mut lexer = Lexer::new();
    match lexer.tokenize("p = q").unwrap_err() {
        LexerError::SyntaxError(message, span) => {
            assert_eq!(message, "expected one of the following: '=>', '->'");
            assert_eq!(span, Span { start: 2, end: 3 });
        }
        _ => unreachable!(),
    }
    match lexer.tokenize("p <- q").unwrap_err() {
        LexerError::SyntaxError(message, span) => {
            assert_eq!(message, "expected one of the following: '<->', '<=>'");
            assert_eq!(span, Span { start: 2, end: 3 });
        }
        _ => unreachable!(),
    }
}

#[test]
fn empty_source_has_no_tokens() {
    let mut lexer = Lexer::new();
    assert_eq!(lexer.tokenize("").unwrap().len(), 0);
    assert_eq!(lexer.tokenize(" \t\r ").unwrap().len(), 0);
}

#[test]
fn token_kinds_are_written_out() {
    assert_eq!(TokenKind::Identifier("p".into()).to_string(), "Identifier(p)");
    assert_eq!(TokenKind::Literal(true).to_string(), "Literal(true)");
    assert_eq!(TokenKind::Literal(false).to_string(), "Literal(false)");
    assert_eq!(TokenKind::Not.to_string(), "Not()");
    assert_eq!(TokenKind::And.to_string(), "And()");
    assert_eq!(TokenKind::Or.to_string(), "Or()");
    assert_eq!(TokenKind::Implies.to_string(), "Implies()");
    assert_eq!(TokenKind::IfAndOnlyIf.to_string(), "IfAndOnlyIf()");
    assert_eq!(TokenKind::OpenParen.to_string(), "OpenParen()");
    assert_eq!(TokenKind::CloseParen.to_string(), "CloseParen()");
}
