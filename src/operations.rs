//! The operations the calculator knows, with their symbols and precedences.
use vstd::prelude::*;
use crate::text::{lower_of, lowercase, same_text};

verus! {

/// A calculator operation.
#[derive(Debug, Clone, Copy, PartialEq, Eq, Structural)]
pub enum Operation {
    Add,
    Subtract,
    Multiply,
    Divide,
    Power,
    SquareRoot,
    Sin,
    Cos,
    Tan,
    Ln,
    Log,
    Factorial,
    Abs,
    Ceil,
    Floor,
    Round,
}

/// The symbol that names an operation.
pub open spec fn symbol_of(op: Operation) -> Seq<char> {
    match op {
        Operation::Add => "+"@,
        Operation::Subtract => "-"@,
        Operation::Multiply => "*"@,
        Operation::Divide => "/"@,
        Operation::Power => "^"@,
        Operation::SquareRoot => "√"@,
        Operation::Sin => "sin"@,
        Operation::Cos => "cos"@,
        Operation::Tan => "tan"@,
        Operation::Ln => "ln"@,
        Operation::Log => "log"@,
        Operation::Factorial => "!"@,
        Operation::Abs => "abs"@,
        Operation::Ceil => "ceil"@,
        Operation::Floor => "floor"@,
        Operation::Round => "round"@,
    }
}

/// Binding strength: sums below products below powers below functions.
pub open spec fn precedence_of(op: Operation) -> u8 {
    match op {
        Operation::Add | Operation::Subtract => 1,
        Operation::Multiply | Operation::Divide => 2,
        Operation::Power => 3,
        _ => 4,
    }
}

pub open spec fn binary_op(op: Operation) -> bool {
    match op {
        Operation::Add | Operation::Subtract | Operation::Multiply | Operation::Divide | Operation::Power
        | Operation::Log => true,
        _ => false,
    }
}

pub open spec fn unary_op(op: Operation) -> bool {
    match op {
        Operation::SquareRoot | Operation::Sin | Operation::Cos | Operation::Tan | Operation::Ln
        | Operation::Factorial | Operation::Abs | Operation::Ceil | Operation::Floor | Operation::Round => true,
        _ => false,
    }
}

/// The operation a (lower-case) name or symbol stands for.
pub open spec fn operation_named(s: Seq<char>) -> Option<Operation> {
    if s == "+"@ {
        Some(Operation::Add)
    } else if s == "-"@ {
        Some(Operation::Subtract)
    } else if s == "*"@ || s == "×"@ {
        Some(Operation::Multiply)
    } else if s == "/"@ || s == "÷"@ {
        Some(Operation::Divide)
    } else if s == "^"@ || s == "**"@ {
        Some(Operation::Power)
    } else if s == "sqrt"@ || s == "√"@ {
        Some(Operation::SquareRoot)
    } else if s == "sin"@ {
        Some(Operation::Sin)
    } else if s == "cos"@ {
        Some(Operation::Cos)
    } else if s == "tan"@ {
        Some(Operation::Tan)
    } else if s == "ln"@ {
        Some(Operation::Ln)
    } else if s == "log"@ {
        Some(Operation::Log)
    } else if s == "!"@ {
        Some(Operation::Factorial)
    } else if s == "abs"@ {
        Some(Operation::Abs)
    } else if s == "ceil"@ {
        Some(Operation::Ceil)
    } else if s == "floor"@ {
        Some(Operation::Floor)
    } else if s == "round"@ {
        Some(Operation::Round)
    } else {
        None
    }
}

impl Operation {
    pub fn symbol(&self) -> (r: &'static str)
        ensures
            r@ == symbol_of(*self),
    {
        match self {
            Operation::Add => "+",
            Operation::Subtract => "-",
            Operation::Multiply => "*",
            Operation::Divide => "/",
            Operation::Power => "^",
            Operation::SquareRoot => "√",
            Operation::Sin => "sin",
            Operation::Cos => "cos",
            Operation::Tan => "tan",
            Operation::Ln => "ln",
            Operation::Log => "log",
            Operation::Factorial => "!",
            Operation::Abs => "abs",
            Operation::Ceil => "ceil",
            Operation::Floor => "floor",
            Operation::Round => "round",
        }
    }

    pub fn precedence(&self) -> (r: u8)
        ensures
            r == precedence_of(*self),
    {
        match self {
            Operation::Add | Operation::Subtract => 1,
            Operation::Multiply | Operation::Divide => 2,
            Operation::Power => 3,
            _ => 4,
        }
    }

    /// Whether the operation takes two operands.
    pub fn is_binary(&self) -> (r: bool)
        ensures
            r == binary_op(*self),
    {
        match self {
            Operation::Add | Operation::Subtract | Operation::Multiply | Operation::Divide | Operation::Power
            | Operation::Log => true,
            _ => false,
        }
    }

    /// Whether the operation takes one operand.
    pub fn is_unary(&self) -> (r: bool)
        ensures
            r == unary_op(*self),
    {
        match self {
            Operation::SquareRoot | Operation::Sin | Operation::Cos | Operation::Tan | Operation::Ln
            | Operation::Factorial | Operation::Abs | Operation::Ceil | Operation::Floor | Operation::Round => true,
            _ => false,
        }
    }

    /// The operation that `s`, already in lower case, names.
    pub fn from_folded(s: &str) -> (r: Option<Self>)
        ensures
            r == operation_named(s@),
    {
        if same_text(s, "+") {
            Some(Operation::Add)
        } else if same_text(s, "-") {
            Some(Operation::Subtract)
        } else if same_text(s, "*") || same_text(s, "×") {
            Some(Operation::Multiply)
        } else if same_text(s, "/") || same_text(s, "÷") {
            Some(Operation::Divide)
        } else if same_text(s, "^") || same_text(s, "**") {
            Some(Operation::Power)
        } else if same_text(s, "sqrt") || same_text(s, "√") {
            Some(Operation::SquareRoot)
        } else if same_text(s, "sin") {
            Some(Operation::Sin)
        } else if same_text(s, "cos") {
            Some(Operation::Cos)
        } else if same_text(s, "tan") {
            Some(Operation::Tan)
        } else if same_text(s, "ln") {
            Some(Operation::Ln)
        } else if same_text(s, "log") {
            Some(Operation::Log)
        } else if same_text(s, "!") {
            Some(Operation::Factorial)
        } else if same_text(s, "abs") {
            Some(Operation::Abs)
        } else if same_text(s, "ceil") {
            Some(Operation::Ceil)
        } else if same_text(s, "floor") {
            Some(Operation::Floor)
        } else if same_text(s, "round") {
            Some(Operation::Round)
        } else {
            None
        }
    }

    /// The operation that `s` names, regardless of case.
    pub fn from_str(s: &str) -> (r: Option<Self>)
        ensures
            r == operation_named(lower_of(s@)),
    {
        let folded = lowercase(s);
        Operation::from_folded(folded.as_str())
    }
}

} // verus!
