//! The lexer and the parser as one call from text to text, for callers
//! that speak JSON, such as bindings for the web.

use vstd::prelude::*;
use vstd::string::StringExecFns;
use crate::json::{decimal, decimal_text, json_literal, json_string};
use crate::logic_parser::lexing::lexer::{
    alphabetic,
    is_alphabetic,
    is_alphanumeric,
    lexed,
    numeric,
    Alphabet,
    Lexer,
};
use crate::logic_parser::lexing::token::Span;
use crate::logic_parser::parsing::parser::{parsed, Parser};

verus! {

/// The alphabet of the words of a query: letters, digits and `_ - : * /`.
pub struct QueryAlphabet;

/// The characters a word of a query may start with: letters.
pub struct Letters;

impl Alphabet for QueryAlphabet {
    open spec fn decides(&self) -> bool {
        true
    }

    open spec fn has(&self, c: char) -> bool {
        alphabetic(c) || numeric(c) || c == '_' || c == '-' || c == ':' || c == '*' || c == '/'
    }

    fn contains(&self, c: char) -> (yes: bool) {
        is_alphanumeric(c) || c == '_' || c == '-' || c == ':' || c == '*' || c == '/'
    }
}

impl Alphabet for Letters {
    open spec fn decides(&self) -> bool {
        true
    }

    open spec fn has(&self, c: char) -> bool {
        alphabetic(c)
    }

    fn contains(&self, c: char) -> (yes: bool) {
        is_alphabetic(c)
    }
}

/// The report of an error: its message, its span and the status `error`.
pub open spec fn error_report(span: Span, message: Seq<char>) -> Seq<char> {
    "{\"error\":"@ + json_string(message) + ",\"span\":["@ + decimal_text(span.start as nat)
        + ","@ + decimal_text(span.end as nat) + "],\"status\":\"error\"}"@
}

/// The report of a formula: the status `success` and the formula as JSON.
pub open spec fn success_report(ast: Seq<char>) -> Seq<char> {
    "{\n            \"status\": \"success\", \"ast\": "@ + ast + "\n        }"@
}

/// What `parse_expression` says of a source text.
pub open spec fn report(expr: Seq<char>) -> Seq<char> {
    match lexed(&QueryAlphabet, &Letters, expr) {
        Err(fault) => error_report(fault.span(), fault.text()),
        Ok(tokens) => match parsed(tokens) {
            Err(fault) => error_report(fault.span(), fault.text()),
            Ok(tree) => success_report(tree.json()),
        },
    }
}

/// Writes the report of an error.
pub fn generate_json_error(span: Span, message: &str) -> (text: String)
    ensures
        text@ == error_report(span, message@),
{
    let mut text = String::from_str("{\"error\":");
    let quoted = json_literal(message);
    text.append(quoted.as_str());
    text.append(",\"span\":[");
    let start = decimal(span.start);
    text.append(start.as_str());
    text.append(",");
    let end = decimal(span.end);
    text.append(end.as_str());
    text.append("],\"status\":\"error\"}");
    text
}

/// Lexes and parses `expr` as a query and reports the formula, or the
/// first error with its place, as JSON text.
pub fn parse_expression(expr: &str) -> (text: String)
    ensures
        text@ == report(expr@),
{
    let mut lexer = Lexer::over(QueryAlphabet, Letters);
    let tokens = match lexer.tokenize(expr) {
        Ok(tokens) => tokens,
        Err(error) => {
            let message = error.to_string();
            return generate_json_error(error.span(), message.as_str());
        },
    };
    let ast = match Parser::new(&tokens).parse() {
        Ok(ast) => ast,
        Err(error) => {
            let message = error.to_string();
            return generate_json_error(error.span(), message.as_str());
        },
    };
    let mut text = String::from_str("{\n            \"status\": \"success\", \"ast\": ");
    let json = ast.as_json();
    text.append(json.as_str());
    text.append("\n        }");
    text
}

} // verus!
