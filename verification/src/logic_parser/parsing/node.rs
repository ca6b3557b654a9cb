//! The syntax tree of a formula.

use vstd::prelude::*;
use vstd::string::StringExecFns;

verus! {

/// A formula of propositional logic.
#[derive(Debug)]
pub enum ASTNode {
    Identifier { name: String },
    Literal { value: bool },
    Not { operand: Box<ASTNode> },
    And { left: Box<ASTNode>, right: Box<ASTNode> },
    Or { left: Box<ASTNode>, right: Box<ASTNode> },
    Implies { left: Box<ASTNode>, right: Box<ASTNode> },
    IfAndOnlyIf { left: Box<ASTNode>, right: Box<ASTNode> },
}

/// A formula as a value of plain sequences.
pub enum Formula {
    Identifier { name: Seq<char> },
    Literal { value: bool },
    Not { operand: Box<Formula> },
    And { left: Box<Formula>, right: Box<Formula> },
    Or { left: Box<Formula>, right: Box<Formula> },
    Implies { left: Box<Formula>, right: Box<Formula> },
    IfAndOnlyIf { left: Box<Formula>, right: Box<Formula> },
}

/// The formula that a tree stands for.
pub open spec fn formula_of(node: ASTNode) -> Formula
    decreases node,
{
    match node {
        ASTNode::Identifier { name } => Formula::Identifier { name: name@ },
        ASTNode::Literal { value } => Formula::Literal { value },
        ASTNode::Not { operand } => Formula::Not { operand: Box::new(formula_of(*operand)) },
        ASTNode::And { left, right } => Formula::And {
            left: Box::new(formula_of(*left)),
            right: Box::new(formula_of(*right)),
        },
        ASTNode::Or { left, right } => Formula::Or {
            left: Box::new(formula_of(*left)),
            right: Box::new(formula_of(*right)),
        },
        ASTNode::Implies { left, right } => Formula::Implies {
            left: Box::new(formula_of(*left)),
            right: Box::new(formula_of(*right)),
        },
        ASTNode::IfAndOnlyIf { left, right } => Formula::IfAndOnlyIf {
            left: Box::new(formula_of(*left)),
            right: Box::new(formula_of(*right)),
        },
    }
}

impl View for ASTNode {
    type V = Formula;

    open spec fn view(&self) -> Formula {
        formula_of(*self)
    }
}

/// The larger of two numbers.
pub open spec fn larger(a: nat, b: nat) -> nat {
    if a >= b {
        a
    } else {
        b
    }
}

/// A line break and the indentation of the entries of a JSON object.
pub open spec fn indent() -> Seq<char> {
    "\n                    "@
}

/// The line break, the indentation and the brace that close a JSON object.
pub open spec fn closing() -> Seq<char> {
    "\n                }"@
}

/// `text` between double quotes, as it stands.
pub open spec fn quoted(text: Seq<char>) -> Seq<char> {
    "\""@ + text + "\""@
}

/// One entry of a JSON object on a line of its own.
pub open spec fn entry(key: Seq<char>, value: Seq<char>) -> Seq<char> {
    indent() + quoted(key) + ": "@ + value
}

/// The JSON object of a node with one field besides its type.
pub open spec fn unary_object(kind: Seq<char>, key: Seq<char>, value: Seq<char>) -> Seq<char> {
    "{"@ + entry("type"@, quoted(kind)) + ","@ + entry(key, value) + closing()
}

/// The JSON object of a node with a left and a right operand.
pub open spec fn binary_object(kind: Seq<char>, left: Seq<char>, right: Seq<char>) -> Seq<char> {
    "{"@ + entry("type"@, quoted(kind)) + ","@ + entry("left"@, left) + ","@ + entry(
        "right"@,
        right,
    ) + closing()
}

/// The textual form of a formula given by its pretty `Debug` output.
pub uninterp spec fn debug_text(formula: Formula) -> Seq<char>;

impl Formula {
    /// The depth of the tree: one for a leaf, one more than its deepest
    /// operand for an operator.
    pub open spec fn depth(self) -> nat
        decreases self,
    {
        match self {
            Formula::Identifier { .. } => 1,
            Formula::Literal { .. } => 1,
            Formula::Not { operand } => operand.depth() + 1,
            Formula::And { left, right } => larger(left.depth(), right.depth()) + 1,
            Formula::Or { left, right } => larger(left.depth(), right.depth()) + 1,
            Formula::Implies { left, right } => larger(left.depth(), right.depth()) + 1,
            Formula::IfAndOnlyIf { left, right } => larger(left.depth(), right.depth()) + 1,
        }
    }

    /// The sign of the node: the name of an identifier, `1` or `0` for a
    /// literal, the symbol of an operator.
    pub open spec fn repr(self) -> Seq<char> {
        match self {
            Formula::Identifier { name } => name,
            Formula::Literal { value } => if value {
                "1"@
            } else {
                "0"@
            },
            Formula::Not { .. } => "\u{ac}"@,
            Formula::And { .. } => "\u{2227}"@,
            Formula::Or { .. } => "\u{2228}"@,
            Formula::Implies { .. } => "\u{21d2}"@,
            Formula::IfAndOnlyIf { .. } => "\u{27f7}"@,
        }
    }

    /// The formula as JSON text: one object for each node, tagged with its
    /// type. A name is written between quotes as it stands.
    pub open spec fn json(self) -> Seq<char>
        decreases self,
    {
        match self {
            Formula::Identifier { name } => unary_object("identifier"@, "name"@, quoted(name)),
            Formula::Literal { value } => unary_object(
                "literal"@,
                "value"@,
                if value {
                    "true"@
                } else {
                    "false"@
                },
            ),
            Formula::Not { operand } => unary_object("operator.not"@, "operand"@, operand.json()),
            Formula::And { left, right } => binary_object(
                "operator.and"@,
                left.json(),
                right.json(),
            ),
            Formula::Or { left, right } => binary_object("operator.or"@, left.json(), right.json()),
            Formula::Implies { left, right } => binary_object(
                "operator.implies"@,
                left.json(),
                right.json(),
            ),
            Formula::IfAndOnlyIf { left, right } => binary_object(
                "operator.iff"@,
                left.json(),
                right.json(),
            ),
        }
    }
}

/// Appends one entry of a JSON object.
fn push_entry(text: &mut String, key: &str, value: &str)
    ensures
        final(text)@ == old(text)@ + entry(key@, value@),
{
    text.append("\n                    ");
    text.append("\"");
    text.append(key);
    text.append("\"");
    text.append(": ");
    text.append(value);
    proof {
        assert(text@ =~= old(text)@ + entry(key@, value@));
    }
}

/// `text` between double quotes.
fn quote(text: &str) -> (out: String)
    ensures
        out@ == quoted(text@),
{
    let mut out = String::from_str("\"");
    out.append(text);
    out.append("\"");
    out
}

/// The JSON object of a node with one field besides its type.
fn unary(kind: &str, key: &str, value: &str) -> (out: String)
    ensures
        out@ == unary_object(kind@, key@, value@),
{
    let mut out = String::from_str("{");
    let tag = quote(kind);
    push_entry(&mut out, "type", tag.as_str());
    out.append(",");
    push_entry(&mut out, key, value);
    out.append("\n                }");
    out
}

/// The JSON object of a node with a left and a right operand.
fn binary(kind: &str, left: &str, right: &str) -> (out: String)
    ensures
        out@ == binary_object(kind@, left@, right@),
{
    let mut out = String::from_str("{");
    let tag = quote(kind);
    push_entry(&mut out, "type", tag.as_str());
    out.append(",");
    push_entry(&mut out, "left", left);
    out.append(",");
    push_entry(&mut out, "right", right);
    out.append("\n                }");
    out
}

impl ASTNode {
    /// The tree written out by `Debug`, in its pretty form. Trusted: the
    /// text depends on nothing but the formula.
    #[verifier::external_body]
    pub fn as_string(&self) -> (text: String)
        ensures
            text@ == debug_text(self@),
    {
        format!("{:#?}", self)
    }

    /// The sign under which the node is drawn.
    pub fn repr(&self) -> (sign: &str)
        ensures
            sign@ == self@.repr(),
    {
        match self {
            ASTNode::Identifier { name } => name.as_str(),
            ASTNode::Literal { value } => if *value {
                "1"
            } else {
                "0"
            },
            ASTNode::Not { .. } => "\u{ac}",
            ASTNode::And { .. } => "\u{2227}",
            ASTNode::Or { .. } => "\u{2228}",
            ASTNode::Implies { .. } => "\u{21d2}",
            ASTNode::IfAndOnlyIf { .. } => "\u{27f7}",
        }
    }

    /// The formula as JSON text.
    pub fn as_json(&self) -> (text: String)
        ensures
            text@ == self@.json(),
        decreases self,
    {
        match self {
            ASTNode::Identifier { name } => {
                let value = quote(name.as_str());
                unary("identifier", "name", value.as_str())
            },
            ASTNode::Literal { value } => {
                if *value {
                    unary("literal", "value", "true")
                } else {
                    unary("literal", "value", "false")
                }
            },
            ASTNode::Not { operand } => {
                let inner = operand.as_json();
                unary("operator.not", "operand", inner.as_str())
            },
            ASTNode::And { left, right } => {
                let l = left.as_json();
                let r = right.as_json();
                binary("operator.and", l.as_str(), r.as_str())
            },
            ASTNode::Or { left, right } => {
                let l = left.as_json();
                let r = right.as_json();
                binary("operator.or", l.as_str(), r.as_str())
            },
            ASTNode::Implies { left, right } => {
                let l = left.as_json();
                let r = right.as_json();
                binary("operator.implies", l.as_str(), r.as_str())
            },
            ASTNode::IfAndOnlyIf { left, right } => {
                let l = left.as_json();
                let r = right.as_json();
                binary("operator.iff", l.as_str(), r.as_str())
            },
        }
    }
}

} // verus!
