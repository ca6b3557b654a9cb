use assignments::logic_parser::lexing::lexer::Lexer;
use assignments::logic_parser::parsing::node::ASTNode;
use assignments::logic_parser::parsing::parser::Parser;
use assignments::logic_parser::svg_generation::render::{layout, Layout, Shape};

fn tree(source: &str) -> ASTNode {
    let tokens = Lexer::new().tokenize(source).unwrap();
    Parser::new(&tokens).parse().unwrap()
}

fn node(x: u32, y: u32, sign: &str) -> Shape {
    Shape::Node { x, y, sign: sign.into() }
}

fn edge(x: u32, y: u32, to_x: u32, to_y: u32) -> Shape {
    Shape::Edge { x, y, to_x, to_y }
}

#[test]
fn a_leaf_is_one_node() {
    assert_eq!(
        layout(&tree("p")),
        Some(Layout { depth: 1, middle: 0, shapes: vec![node(0, 0, "p")] })
    );
}

#[test]
fn operands_stand_half_as_far_apart_on_each_row() {
    assert_eq!(
        layout(&tree("(p & q) => ~r")),
        Some(Layout {
            depth: 3,
            middle: 3,
            shapes: vec![
                node(3, 0, "\u{21d2}"),
                edge(3, 0, 1, 1),
                edge(3, 0, 5, 1),
                node(5, 1, "\u{ac}"),
                edge(5, 1, 5, 2),
                node(5, 2, "r"),
                node(1, 1, "\u{2227}"),
                edge(1, 1, 0, 2),
                edge(1, 1, 2, 2),
                node(2, 2, "q"),
                node(0, 2, "p"),
            ],
        })
    );
}

#[test]
fn a_tree_of_thirty_two_rows_fits_and_one_more_does_not() {
    let mut ast = ASTNode::Literal { value: false };
    for _ in 0..31 {
        ast = ASTNode::Not { operand: Box::new(ast) };
    }
    let plan = layout(&ast).unwrap();
    assert_eq!(plan.depth, 32);
    assert_eq!(plan.middle, 2147483647);
    assert_eq!(plan.shapes.len(), 63);
    assert_eq!(plan.shapes[62], node(2147483647, 31, "0"));
    let wide = ASTNode::And {
        left: Box::new(ASTNode::Literal { value: true }),
        right: Box::new(ast),
    };
    assert_eq!(layout(&wide), None);
}
