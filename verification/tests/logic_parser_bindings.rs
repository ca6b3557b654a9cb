use assignments::json::decimal;
use assignments::logic_parser::lexing::token::Span;
use assignments::logic_parser::parsing::node::ASTNode;
use assignments::logic_parser::svg_generation::render::checked_depth;
use assignments::logic_parser::bindings::{generate_json_error, parse_expression};
use serde_json::Value;

#[test]
fn detects_unclosed_paren() {
    let result = parse_expression(")p => q");
    let report: Value = serde_json::from_str(result.as_str()).unwrap();
    assert_eq!(report["error"], "Unexpected token: R_PAREN");
    assert_eq!(report["span"][0], 0);
    assert_eq!(report["span"][1], 1);
    assert_eq!(report["span"].as_array().unwrap().len(), 2);
    assert_eq!(report["status"], "error");
    assert_eq!(report.as_object().unwrap().len(), 3);
}

#[test]
fn lib_detects_unclosed_paren() {
    assert_eq!(
        parse_expression(")p => q"),
        "{\"error\":\"Unexpected token: R_PAREN\",\"span\":[0,1],\"status\":\"error\"}"
    );
}

#[test]
fn reports_lexer_errors_with_their_place() {
    assert_eq!(
        parse_expression("tag:pink && $"),
        "{\"error\":\"Unknown Token: $\",\"span\":[12,13],\"status\":\"error\"}"
    );
    assert_eq!(
        parse_expression("a = b"),
        "{\"error\":\"Syntax error: expected one of the following: '=>', '->'\",\"span\":[2,3],\"status\":\"error\"}"
    );
    assert_eq!(
        parse_expression("p \""),
        "{\"error\":\"Unknown Token: \\\"\",\"span\":[2,3],\"status\":\"error\"}"
    );
}

#[test]
fn reports_the_formula_of_a_query() {
    let result = parse_expression("(tag:pink || tag:anime) && mime:image/*");
    assert!(result.starts_with("{\n            \"status\": \"success\", \"ast\": {"));
    assert!(result.ends_with("}\n        }"));
    let report: Value = serde_json::from_str(result.as_str()).unwrap();
    assert_eq!(report["status"], "success");
    assert_eq!(report["ast"]["type"], "operator.and");
    assert_eq!(report["ast"]["left"]["type"], "operator.or");
    assert_eq!(report["ast"]["left"]["left"]["name"], "tag:pink");
    assert_eq!(report["ast"]["left"]["right"]["name"], "tag:anime");
    assert_eq!(report["ast"]["right"]["name"], "mime:image/*");
}

#[test]
fn reports_the_smallest_formula_exactly() {
    assert_eq!(
        parse_expression("p"),
        "{\n            \"status\": \"success\", \"ast\": {\n                    \"type\": \"identifier\",\n                    \"name\": \"p\"\n                }\n        }"
    );
}

#[test]
fn error_reports_are_built_from_span_and_message() {
    assert_eq!(
        generate_json_error(Span { start: 10, end: 205 }, "a \"b\""),
        "{\"error\":\"a \\\"b\\\"\",\"span\":[10,205],\"status\":\"error\"}"
    );
}

#[test]
fn numbers_in_decimal() {
    assert_eq!(decimal(0), "0");
    assert_eq!(decimal(7), "7");
    assert_eq!(decimal(10), "10");
    assert_eq!(decimal(1234567890), "1234567890");
    assert_eq!(decimal(usize::MAX), usize::MAX.to_string());
}

#[test]
fn depth_is_counted_where_it_fits() {
    let mut ast = ASTNode::Literal { value: true };
    assert_eq!(checked_depth(&ast), Some(1));
    for _ in 0..40 {
        ast = ASTNode::Not { operand: Box::new(ast) };
    }
    assert_eq!(checked_depth(&ast), Some(41));
    let wide = ASTNode::Or {
        left: Box::new(ast),
        right: Box::new(ASTNode::Identifier { name: "p".into() }),
    };
    assert_eq!(checked_depth(&wide), Some(42));
}
