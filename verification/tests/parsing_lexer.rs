use assignments::logic_parser::parsing::errors::LexerError;
use assignments::logic_parser::parsing::lexer::{Lexer, Token, TokenKind};

#[test]
fn lexer_no_whitespaces_should_return_zero() {
    let expr = "testing => this";
    let n = Lexer::skip_whitespaces(&mut Lexer::new(expr));
    assert_eq!(n, 0);
}

#[test]
fn lexer_literal_booleans_work() {
    let lexer = Lexer::new("false & true");
    let tokens = lexer.parse().unwrap();
    assert_eq!(tokens[0].kind, TokenKind::Literal(false));
    assert_eq!(tokens[1].kind, TokenKind::And);
    assert_eq!(tokens[2].kind, TokenKind::Literal(true));
}

#[test]
fn lexer_take_while_returns_zero_if_no_matches() {
    let mut lexer = Lexer::new("testing");
    let n = lexer.take_while(|_| false);
    assert_eq!(n, 0);
}

#[test]
fn lexer_take_while_returns_correct_amount() {
    let mut lexer = Lexer::new("kittens");
    let n = lexer.take_while(|_| true);
    assert_eq!(n, 7);
}

#[test]
fn lexer_skip_whitespaces_works_properly() {
    let lexer = Lexer::new("\t\r puppies");
    let tokens = lexer.parse().unwrap();
    assert_eq!(tokens.len(), 1);
    assert_eq!(tokens[0].kind, TokenKind::Identifier("puppies".into()));
}

#[test]
#[should_panic]
fn lexer_propositions_cant_start_with_numbers() {
    let lexer = Lexer::new("pqrs");
    if !lexer.parse().is_ok() {
        return;
    }

    let lexer = Lexer::new("69p");
    let _ = lexer.parse().unwrap();
}

#[test]
fn tokens_carry_start_and_length() {
    let tokens = Lexer::new("(a_1 => ~b) & c | d").parse().unwrap();
    assert_eq!(
        tokens,
        vec![
            Token { kind: TokenKind::OpenParen, start: 0, len: 1 },
            Token { kind: TokenKind::Identifier("a_1".into()), start: 1, len: 3 },
            Token { kind: TokenKind::Implies, start: 5, len: 1 },
            Token { kind: TokenKind::Not, start: 8, len: 1 },
            Token { kind: TokenKind::Identifier("b".into()), start: 9, len: 1 },
            Token { kind: TokenKind::CloseParen, start: 10, len: 1 },
            Token { kind: TokenKind::And, start: 12, len: 1 },
            Token { kind: TokenKind::Identifier("c".into()), start: 14, len: 1 },
            Token { kind: TokenKind::Or, start: 16, len: 1 },
            Token { kind: TokenKind::Identifier("d".into()), start: 18, len: 1 },
        ]
    );
}

#[test]
fn the_first_character_of_a_word_counts_as_one_byte() {
    // the word is read to its end, but its text is cut one byte short for
    // each byte that its first character takes beyond the first
    let tokens = Lexer::new("\u{e9}a b").parse().unwrap();
    assert_eq!(
        tokens,
        vec![
            Token { kind: TokenKind::Identifier("\u{e9}".into()), start: 0, len: 2 },
            Token { kind: TokenKind::Identifier("b".into()), start: 4, len: 1 },
        ]
    );
}

#[test]
fn errors_carry_a_message() {
    match Lexer::new("p = q").parse().unwrap_err() {
        LexerError::SyntaxError(message) => {
            assert_eq!(message, "Unexpected character (expected '=>'), got '='")
        }
        _ => unreachable!(),
    }
    let error = Lexer::new("p ! q").parse().unwrap_err();
    assert_eq!(error.to_string(), "Unknown Token: Unkown Token: '!'");
    match Lexer::new("p =").parse().unwrap_err() {
        LexerError::SyntaxError(_) => {}
        _ => unreachable!(),
    }
    assert_eq!(TokenKind::And.to_string(), "tokensito");
}

#[test]
fn a_word_that_cannot_be_cut_is_told_apart() {
    assert!(Lexer::new("\u{e9}\u{e9}").try_parse().is_none());
    assert!(Lexer::new("p & \u{4e2d}\u{4e2d} & q").try_parse().is_none());
    let tokens = Lexer::new("p & q").try_parse().unwrap().unwrap();
    assert_eq!(tokens.len(), 3);
    assert!(Lexer::new("p $ \u{e9}\u{e9}").try_parse().unwrap().is_err());
    let mut lexer = Lexer::new("  \u{e9}\u{e9}");
    assert!(lexer.try_next_token().is_none());
    let mut lexer = Lexer::new("  ab");
    assert_eq!(
        lexer.next_token().unwrap(),
        Some(Token { kind: TokenKind::Identifier("ab".into()), start: 2, len: 2 })
    );
    assert_eq!(lexer.next_token().unwrap(), None);
    let mut lexer = Lexer::new("true");
    assert_eq!(lexer.next_char(), Some('t'));
    assert_eq!(
        lexer.tokenize_proposition(0),
        Token { kind: TokenKind::Literal(true), start: 0, len: 4 }
    );
    let mut lexer = Lexer::new("\u{e9}\u{e9}");
    assert_eq!(lexer.next_char(), Some('\u{e9}'));
    assert_eq!(lexer.try_tokenize_proposition(0), None);
}
