//! The syntax tree of an expression.
use vstd::prelude::*;

verus! {

/// A number as the parser knows it: a literal's text or a named constant.
#[derive(Debug, Clone, PartialEq)]
pub enum Numeral {
    /// ASCII digits with at most one '.'.
    Literal(String),
    /// The circle constant.
    Pi,
    /// Euler's number.
    E,
}

pub enum NumeralView {
    Literal(Seq<char>),
    Pi,
    E,
}

impl View for Numeral {
    type V = NumeralView;

    open spec fn view(&self) -> NumeralView {
        match self {
            Numeral::Literal(s) => NumeralView::Literal(s@),
            Numeral::Pi => NumeralView::Pi,
            Numeral::E => NumeralView::E,
        }
    }
}

/// A node of the syntax tree; each node owns its children.
#[derive(Debug, PartialEq)]
pub enum AstNode {
    Number(Numeral),
    BinaryOp { op: char, left: Box<AstNode>, right: Box<AstNode> },
    UnaryOp { op: char, operand: Box<AstNode> },
    FunctionCall { name: String, args: Vec<AstNode> },
}

/// A syntax tree with its texts seen as character sequences.
pub enum AstView {
    Number(NumeralView),
    Binary { op: char, left: Box<AstView>, right: Box<AstView> },
    Unary { op: char, operand: Box<AstView> },
    Call { name: Seq<char>, args: Seq<AstView> },
}

impl View for AstNode {
    type V = AstView;

    open spec fn view(&self) -> AstView
        decreases self,
    {
        match self {
            AstNode::Number(n) => AstView::Number(n@),
            AstNode::BinaryOp { op, left, right } => AstView::Binary {
                op: *op,
                left: Box::new((**left).view()),
                right: Box::new((**right).view()),
            },
            AstNode::UnaryOp { op, operand } => AstView::Unary { op: *op, operand: Box::new((**operand).view()) },
            AstNode::FunctionCall { name, args } => AstView::Call {
                name: name@,
                args: Seq::new(
                    args.len() as nat,
                    |i: int|
                        if 0 <= i < args.len() {
                            args[i].view()
                        } else {
                            AstView::Number(NumeralView::Pi)
                        },
                ),
            },
        }
    }
}

} // verus!
