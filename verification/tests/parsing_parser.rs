use assignments::logic_parser::errors::ParserError;
use assignments::logic_parser::lexing::lexer::Lexer;
use assignments::logic_parser::lexing::token::Span;
use assignments::logic_parser::parsing::node::ASTNode;
use assignments::logic_parser::svg_generation::render::ast_depth;
use assignments::logic_parser::parsing::parser::Parser;
use serde_json::Value;

fn json_of(source: &str) -> Value {
    let tokens = Lexer::new().tokenize(source).unwrap();
    let ast = Parser::new(&tokens).parse().unwrap();
    serde_json::from_str(ast.as_json().as_str()).unwrap()
}

fn is_identifier(value: &Value, name: &str) -> bool {
    value["type"] == "identifier" && value["name"] == name && value.as_object().unwrap().len() == 2
}

fn is_operator(value: &Value, kind: &str, fields: usize) -> bool {
    value["type"] == kind && value.as_object().unwrap().len() == fields + 1
}

#[test]
fn complex_json_rendered_properly() {
    let result = json_of("((p || q)) => (q & ~(r))");
    assert!(is_operator(&result, "operator.implies", 2));
    assert!(is_operator(&result["left"], "operator.or", 2));
    assert!(is_identifier(&result["left"]["left"], "p"));
    assert!(is_identifier(&result["left"]["right"], "q"));
    assert!(is_operator(&result["right"], "operator.and", 2));
    assert!(is_identifier(&result["right"]["left"], "q"));
    assert!(is_operator(&result["right"]["right"], "operator.not", 1));
    assert!(is_identifier(&result["right"]["right"]["operand"], "r"));
}

#[test]
fn multiple_negation_works() {
    let result = json_of("~~~negate_me");
    assert!(is_operator(&result, "operator.not", 1));
    assert!(is_operator(&result["operand"], "operator.not", 1));
    assert!(is_operator(&result["operand"]["operand"], "operator.not", 1));
    assert!(is_identifier(&result["operand"]["operand"]["operand"], "negate_me"));
}

#[test]
fn iff_and_implies_work_together() {
    let result = json_of("(a => b) <=> c");
    assert!(is_operator(&result, "operator.iff", 2));
    assert!(is_operator(&result["left"], "operator.implies", 2));
    assert!(is_identifier(&result["left"]["left"], "a"));
    assert!(is_identifier(&result["left"]["right"], "b"));
    assert!(is_identifier(&result["right"], "c"));
}

#[test]
fn alternative_syntax_work() {
    let result = json_of("(a & b) && ((b | c) || b)");
    assert!(is_operator(&result, "operator.and", 2));
    assert!(is_operator(&result["left"], "operator.and", 2));
    assert!(is_identifier(&result["left"]["left"], "a"));
    assert!(is_identifier(&result["left"]["right"], "b"));
    assert!(is_operator(&result["right"], "operator.or", 2));
    assert!(is_operator(&result["right"]["left"], "operator.or", 2));
    assert!(is_identifier(&result["right"]["left"]["left"], "b"));
    assert!(is_identifier(&result["right"]["left"]["right"], "c"));
    assert!(is_identifier(&result["right"]["right"], "b"));
}

#[test]
fn unmatched_paren_left_results_on_error() {
    let tokens = Lexer::new().tokenize("((a => b) <=> c").unwrap();
    let parse_error = Parser::new(&tokens).parse().unwrap_err();

    match parse_error {
        ParserError::UnexpectedToken(_, span) => {
            assert_eq!(span, (0, 1).into())
        }
        _ => unreachable!(),
    }
}

#[test]
fn unmatched_paren_right_results_on_error() {
    let tokens = Lexer::new().tokenize("(a => b)) <=> c").unwrap();

    let parse_error = Parser::new(&tokens).parse().unwrap_err();
    match parse_error {
        ParserError::UnexpectedToken(_, span) => {
            assert_eq!(span, (8, 9).into())
        }
        _ => unreachable!(),
    }
}

#[test]
fn parsing_custom_expressions() {
    let query = "(tag:pink || tag:anime) && (mime:image/* || mime:video/*)";
    let mut lexer = Lexer::with_alphabet(
        |c| c.is_alphanumeric() || c == '_' || c == ':' || c == '*' || c == '/',
        |c| c.is_alphabetic(),
    );

    let tokens = lexer.tokenize(query).unwrap();

    let mut parser = Parser::new(&tokens);
    parser.parse().unwrap();
}

#[test]
fn json_text_is_exact() {
    let ast = ASTNode::Not {
        operand: Box::new(ASTNode::And {
            left: Box::new(ASTNode::Identifier { name: "p".into() }),
            right: Box::new(ASTNode::Literal { value: false }),
        }),
    };
    let i = "\n                    ";
    let c = "\n                }";
    let p = format!("{{{i}\"type\": \"identifier\",{i}\"name\": \"p\"{c}");
    let f = format!("{{{i}\"type\": \"literal\",{i}\"value\": false{c}");
    let and = format!("{{{i}\"type\": \"operator.and\",{i}\"left\": {p},{i}\"right\": {f}{c}");
    let not = format!("{{{i}\"type\": \"operator.not\",{i}\"operand\": {and}{c}");
    assert_eq!(ast.as_json(), not);
}

#[test]
fn signs_of_nodes() {
    let p = || Box::new(ASTNode::Identifier { name: "p".into() });
    assert_eq!(p().repr(), "p");
    assert_eq!(ASTNode::Literal { value: true }.repr(), "1");
    assert_eq!(ASTNode::Literal { value: false }.repr(), "0");
    assert_eq!(ASTNode::Not { operand: p() }.repr(), "¬");
    assert_eq!(ASTNode::And { left: p(), right: p() }.repr(), "∧");
    assert_eq!(ASTNode::Or { left: p(), right: p() }.repr(), "∨");
    assert_eq!(ASTNode::Implies { left: p(), right: p() }.repr(), "⇒");
    assert_eq!(ASTNode::IfAndOnlyIf { left: p(), right: p() }.repr(), "⟷");
}

#[test]
fn debug_text_of_a_tree() {
    let ast = ASTNode::Not { operand: Box::new(ASTNode::Literal { value: true }) };
    assert_eq!(
        ast.as_string(),
        "Not {\n    operand: Literal {\n        value: true,\n    },\n}"
    );
}

#[test]
fn depth_counts_the_longest_branch() {
    let tokens = Lexer::new().tokenize("p").unwrap();
    let ast = Parser::new(&tokens).parse().unwrap();
    assert_eq!(ast_depth(&ast), 1);
    let tokens = Lexer::new().tokenize("~p & (q => (r | ~s))").unwrap();
    let ast = Parser::new(&tokens).parse().unwrap();
    assert_eq!(ast_depth(&ast), 5);
}

#[test]
fn operators_group_to_the_right() {
    let tokens = Lexer::new().tokenize("a & b | c => d <=> e").unwrap();
    let ast = Parser::new(&tokens).parse().unwrap();
    match ast {
        ASTNode::Implies { left, right } => {
            match *left {
                ASTNode::And { left: a, right: rest } => {
                    assert_eq!(a.repr(), "a");
                    match *rest {
                        ASTNode::Or { left: b, right: c } => {
                            assert_eq!(b.repr(), "b");
                            assert_eq!(c.repr(), "c");
                        }
                        _ => unreachable!(),
                    }
                }
                _ => unreachable!(),
            }
            match *right {
                ASTNode::IfAndOnlyIf { left: d, right: e } => {
                    assert_eq!(d.repr(), "d");
                    assert_eq!(e.repr(), "e");
                }
                _ => unreachable!(),
            }
        }
        _ => unreachable!(),
    }
}

#[test]
fn parser_errors_say_what_and_where() {
    let tokens = Lexer::new().tokenize("").unwrap();
    let error = Parser::new(&tokens).parse().unwrap_err();
    assert_eq!(error.to_string(), "Unexpected EOF: Expected [~] (true | false | variable | (...))");
    assert_eq!(error.span(), Span { start: 0, end: 0 });

    let tokens = Lexer::new().tokenize("p &").unwrap();
    let error = Parser::new(&tokens).parse().unwrap_err();
    assert!(matches!(error, ParserError::UnexpectedEOF(_, _)));
    assert_eq!(error.span(), Span { start: 2, end: 3 });

    let tokens = Lexer::new().tokenize(")p => q").unwrap();
    let error = Parser::new(&tokens).parse().unwrap_err();
    assert_eq!(error.to_string(), "Unexpected token: R_PAREN");
    assert_eq!(error.span(), Span { start: 0, end: 1 });

    let tokens = Lexer::new().tokenize("p q").unwrap();
    let error = Parser::new(&tokens).parse().unwrap_err();
    assert_eq!(error.to_string(), "Unexpected token: 'Identifier(q)'");
    assert_eq!(error.span(), Span { start: 2, end: 3 });

    let tokens = Lexer::new().tokenize("=> p").unwrap();
    let error = Parser::new(&tokens).parse().unwrap_err();
    assert_eq!(error.to_string(), "Unexpected token: 'Implies()'");
    assert_eq!(error.span(), Span { start: 0, end: 2 });
}
