//! Where the nodes of a syntax tree are drawn: a grid, with the root in the
//! middle of the top row and each level half as far apart as the one above.
//!
//! ```md
//!       (  )     row 0
//!       /  \
//!      /    \
//!   (  )    (  ) row 1
//! ```

use vstd::arithmetic::power2::{lemma2_to64, lemma_pow2_strictly_increases, lemma_pow2_unfold, pow2};
use vstd::prelude::*;
use vstd::string::StringExecFns;
use crate::logic_parser::parsing::node::{ASTNode, Formula};

verus! {

/// The depth of the tree; at least one.
pub fn ast_depth(ast: &ASTNode) -> (depth: u32)
    requires
        ast@.depth() <= u32::MAX,
    ensures
        depth == ast@.depth(),
    decreases ast,
{
    match ast {
        ASTNode::And { left, right }
        | ASTNode::Or { left, right }
        | ASTNode::Implies { left, right }
        | ASTNode::IfAndOnlyIf { left, right } => {
            let l = ast_depth(left) + 1;
            let r = ast_depth(right) + 1;
            if l >= r {
                l
            } else {
                r
            }
        },
        ASTNode::Not { operand } => ast_depth(operand) + 1,
        _ => 1,
    }
}

/// The depth of the tree, where it can be counted in 32 bits.
pub fn checked_depth(ast: &ASTNode) -> (depth: Option<u32>)
    ensures
        match depth {
            Some(d) => d == ast@.depth(),
            None => ast@.depth() > u32::MAX,
        },
    decreases ast,
{
    let below = match ast {
        ASTNode::And { left, right }
        | ASTNode::Or { left, right }
        | ASTNode::Implies { left, right }
        | ASTNode::IfAndOnlyIf { left, right } => {
            match (checked_depth(left), checked_depth(right)) {
                (Some(l), Some(r)) => if l >= r {
                    l
                } else {
                    r
                },
                _ => {
                    return None;
                },
            }
        },
        ASTNode::Not { operand } => match checked_depth(operand) {
            Some(d) => d,
            None => {
                return None;
            },
        },
        _ => {
            return Some(1);
        },
    };
    if below < u32::MAX {
        Some(below + 1)
    } else {
        None
    }
}


/// One thing to draw, in grid coordinates.
#[derive(Debug, Clone, PartialEq, Eq)]
pub enum Shape {
    /// A node with its sign.
    Node { x: u32, y: u32, sign: String },
    /// The line from a node down to one of its operands.
    Edge { x: u32, y: u32, to_x: u32, to_y: u32 },
}

/// A shape as a value of plain sequences.
pub enum ShapeView {
    Node { x: int, y: int, sign: Seq<char> },
    Edge { x: int, y: int, to_x: int, to_y: int },
}

impl View for Shape {
    type V = ShapeView;

    open spec fn view(&self) -> ShapeView {
        match self {
            Shape::Node { x, y, sign } => ShapeView::Node { x: *x as int, y: *y as int, sign: sign@ },
            Shape::Edge { x, y, to_x, to_y } => ShapeView::Edge {
                x: *x as int,
                y: *y as int,
                to_x: *to_x as int,
                to_y: *to_y as int,
            },
        }
    }
}

/// The shapes of a vector as plain values.
pub open spec fn shape_views(shapes: Seq<Shape>) -> Seq<ShapeView> {
    shapes.map_values(|shape: Shape| shape@)
}

/// How far to the left and to the right of a node in row `y` its operands
/// stand, in a tree of depth `n`.
pub open spec fn step(n: int, y: int) -> int {
    pow2((n - (y + 1)) as nat) as int / 2
}

/// The column of the root of a tree of depth `n`.
pub open spec fn middle(n: int) -> int {
    pow2((n - 1) as nat) - 1
}

/// What is drawn for the tree `formula` with its root at column `x` of row
/// `y`, in a tree of depth `n`: the node, the lines to its operands, the
/// right operand and then the left.
pub open spec fn drawn(formula: Formula, x: int, y: int, n: int) -> Seq<ShapeView>
    decreases formula,
{
    let node = seq![ShapeView::Node { x, y, sign: formula.repr() }];
    let s = step(n, y);
    match formula {
        Formula::And { left, right }
        | Formula::Or { left, right }
        | Formula::Implies { left, right }
        | Formula::IfAndOnlyIf { left, right } => {
            node + seq![
                ShapeView::Edge { x, y, to_x: x - s, to_y: y + 1 },
                ShapeView::Edge { x, y, to_x: x + s, to_y: y + 1 },
            ] + drawn(*right, x + s, y + 1, n) + drawn(*left, x - s, y + 1, n)
        },
        Formula::Not { operand } => {
            node + seq![ShapeView::Edge { x, y, to_x: x, to_y: y + 1 }] + drawn(*operand, x, y + 1, n)
        },
        _ => node,
    }
}

/// A tree laid out on the grid.
#[derive(Debug, Clone, PartialEq, Eq)]
pub struct Layout {
    /// The depth of the tree: the number of rows.
    pub depth: u32,
    /// The column of the root.
    pub middle: u32,
    /// What to draw, in the order in which it is drawn.
    pub shapes: Vec<Shape>,
}

/// Two to the power of `k`.
fn power_of_two(k: u32) -> (p: u32)
    requires
        k < 32,
    ensures
        p == pow2(k as nat),
{
    let mut p: u32 = 1;
    let mut i: u32 = 0;
    proof {
        lemma2_to64();
    }
    while i < k
        invariant
            i <= k < 32,
            p == pow2(i as nat),
        decreases k - i,
    {
        proof {
            lemma_pow2_unfold((i + 1) as nat);
            lemma2_to64();
            if i + 1 < 31 {
                lemma_pow2_strictly_increases((i + 1) as nat, 31);
            }
        }
        p = p * 2;
        i += 1;
    }
    p
}

/// Draws the tree `node` with its root at column `x` of row `y`.
fn place(node: &ASTNode, x: u32, y: u32, n: u32, out: &mut Vec<Shape>)
    requires
        1 <= n <= 32,
        y < n,
        node@.depth() <= n - y,
        pow2((n - 1 - y) as nat) - 1 <= x,
        x + pow2((n - 1 - y) as nat) - 1 <= pow2(n as nat) - 2,
    ensures
        shape_views(final(out)@) == shape_views(old(out)@) + drawn(
            node@,
            x as int,
            y as int,
            n as int,
        ),
    decreases node,
{
    let ghost before = shape_views(out@);
    proof {
        lemma2_to64();
        if n < 32 {
            lemma_pow2_strictly_increases(n as nat, 32);
        }
    }
    out.push(Shape::Node { x, y, sign: String::from_str(node.repr()) });
    proof {
        assert(shape_views(out@) =~= before + seq![
            ShapeView::Node { x: x as int, y: y as int, sign: node@.repr() },
        ]);
    }
    match node {
        ASTNode::And { left, right }
        | ASTNode::Or { left, right }
        | ASTNode::Implies { left, right }
        | ASTNode::IfAndOnlyIf { left, right } => {
            proof {
                lemma_depth_positive(left@);
                lemma_depth_positive(right@);
                lemma_pow2_unfold((n - 1 - y) as nat);
            }
            let s = power_of_two(n - (y + 1)) / 2;
            let ghost with_node = shape_views(out@);
            out.push(Shape::Edge { x, y, to_x: x - s, to_y: y + 1 });
            out.push(Shape::Edge { x, y, to_x: x + s, to_y: y + 1 });
            let ghost with_edges = shape_views(out@);
            proof {
                assert(with_edges =~= with_node + seq![
                    ShapeView::Edge { x: x as int, y: y as int, to_x: x - s, to_y: y + 1 },
                    ShapeView::Edge { x: x as int, y: y as int, to_x: x + s, to_y: y + 1 },
                ]);
            }
            place(right, x + s, y + 1, n, out);
            place(left, x - s, y + 1, n, out);
            proof {
                assert(shape_views(out@) =~= before + drawn(node@, x as int, y as int, n as int));
            }
        },
        ASTNode::Not { operand } => {
            let ghost with_node = shape_views(out@);
            out.push(Shape::Edge { x, y, to_x: x, to_y: y + 1 });
            proof {
                lemma_depth_positive(operand@);
                lemma_pow2_unfold((n - 1 - y) as nat);
                assert(shape_views(out@) =~= with_node + seq![
                    ShapeView::Edge { x: x as int, y: y as int, to_x: x as int, to_y: y + 1 },
                ]);
            }
            place(operand, x, y + 1, n, out);
            proof {
                assert(shape_views(out@) =~= before + drawn(node@, x as int, y as int, n as int));
            }
        },
        _ => {},
    }
}

/// The tree laid out on the grid: its depth, the column of its root and
/// what to draw. A tree of more than 32 levels has columns beyond count and
/// no layout.
pub fn layout(ast: &ASTNode) -> (plan: Option<Layout>)
    ensures
        match plan {
            Some(plan) => {
                &&& plan.depth == ast@.depth() <= 32
                &&& plan.middle == middle(plan.depth as int)
                &&& shape_views(plan.shapes@) == drawn(
                    ast@,
                    middle(plan.depth as int),
                    0,
                    plan.depth as int,
                )
            },
            None => ast@.depth() > 32,
        },
{
    let n = match checked_depth(ast) {
        Some(n) => n,
        None => {
            return None;
        },
    };
    if n > 32 {
        return None;
    }
    proof {
        lemma_depth_positive(ast@);
        lemma_pow2_unfold(n as nat);
        lemma2_to64();
    }
    let middle = power_of_two(n - 1) - 1;
    let mut shapes: Vec<Shape> = Vec::new();
    proof {
        assert(shape_views(shapes@) =~= Seq::<ShapeView>::empty());
    }
    place(ast, middle, 0, n, &mut shapes);
    proof {
        let all = drawn(ast@, middle as int, 0, n as int);
        assert(Seq::<ShapeView>::empty() + all =~= all);
    }
    Some(Layout { depth: n, middle, shapes })
}

/// A tree has at least one level.
pub proof fn lemma_depth_positive(formula: Formula)
    ensures
        formula.depth() >= 1,
{
}

} // verus!
