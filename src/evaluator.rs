//! The decisions of expression evaluation: which operation an operator or a function
//! name stands for, and whether a call has the right number of arguments. The arithmetic
//! itself is floating point and is carried out by the caller.
use vstd::prelude::*;
use crate::error::{Error, ErrorView};
use crate::operations::Operation;
use crate::text::{lower_of, lowercase, same_text as same};

verus! {

/// The built-in function that a lower-case name stands for.
pub open spec fn builtin_named(s: Seq<char>) -> Option<Operation> {
    if s == "sin"@ {
        Some(Operation::Sin)
    } else if s == "cos"@ {
        Some(Operation::Cos)
    } else if s == "tan"@ {
        Some(Operation::Tan)
    } else if s == "sqrt"@ {
        Some(Operation::SquareRoot)
    } else if s == "ln"@ {
        Some(Operation::Ln)
    } else if s == "log"@ {
        Some(Operation::Log)
    } else if s == "abs"@ {
        Some(Operation::Abs)
    } else if s == "ceil"@ {
        Some(Operation::Ceil)
    } else if s == "floor"@ {
        Some(Operation::Floor)
    } else if s == "round"@ {
        Some(Operation::Round)
    } else {
        None
    }
}

/// How many arguments a built-in function takes: `log` takes a value and a base.
pub open spec fn arity(op: Operation) -> nat {
    if op == Operation::Log { 2 } else { 1 }
}

/// The outcome of calling the function `name`, whose lower-case form is `folded`, on
/// `argc` arguments.
pub open spec fn call_outcome(name: Seq<char>, folded: Seq<char>, argc: nat) -> Result<Operation, ErrorView> {
    match builtin_named(folded) {
        None => Err(ErrorView::UndefinedFunction(name)),
        Some(op) => if argc == arity(op) {
            Ok(op)
        } else {
            Err(ErrorView::InvalidArgumentCount { function: name, expected: arity(op), actual: argc })
        },
    }
}

/// The operation a binary operator character stands for.
pub open spec fn binary_outcome(op: char) -> Result<Operation, ErrorView> {
    if op == '+' {
        Ok(Operation::Add)
    } else if op == '-' {
        Ok(Operation::Subtract)
    } else if op == '*' {
        Ok(Operation::Multiply)
    } else if op == '/' {
        Ok(Operation::Divide)
    } else if op == '^' {
        Ok(Operation::Power)
    } else {
        Err(ErrorView::InvalidOperator)
    }
}

/// A prefix `+` keeps its operand (`Add`), a prefix `-` negates it (`Subtract`).
pub open spec fn unary_outcome(op: char) -> Result<Operation, ErrorView> {
    if op == '-' {
        Ok(Operation::Subtract)
    } else if op == '+' {
        Ok(Operation::Add)
    } else {
        Err(ErrorView::InvalidOperator)
    }
}

pub open spec fn op_view(r: Result<Operation, Error>) -> Result<Operation, ErrorView> {
    match r {
        Ok(op) => Ok(op),
        Err(e) => Err(e@),
    }
}

/// Evaluates syntax trees.
pub struct ExpressionEvaluator {
    strict_mode: bool,
}

impl ExpressionEvaluator {
    /// Whether the evaluator is strict; every evaluator made by `new` is lenient.
    pub closed spec fn strict(&self) -> bool {
        self.strict_mode
    }

    pub fn new() -> (r: Self)
        ensures
            !r.strict(),
    {
        ExpressionEvaluator { strict_mode: false }
    }

    /// The operation that a binary operator node applies.
    pub fn binary_operation(&self, op: char) -> (r: Result<Operation, Error>)
        ensures
            op_view(r) == binary_outcome(op),
    {
        if op == '+' {
            Ok(Operation::Add)
        } else if op == '-' {
            Ok(Operation::Subtract)
        } else if op == '*' {
            Ok(Operation::Multiply)
        } else if op == '/' {
            Ok(Operation::Divide)
        } else if op == '^' {
            Ok(Operation::Power)
        } else {
            Err(Error::InvalidOperator)
        }
    }

    /// The operation that a unary operator node applies.
    pub fn unary_operation(&self, op: char) -> (r: Result<Operation, Error>)
        ensures
            op_view(r) == unary_outcome(op),
    {
        if op == '-' {
            Ok(Operation::Subtract)
        } else if op == '+' {
            Ok(Operation::Add)
        } else {
            Err(Error::InvalidOperator)
        }
    }

    /// The built-in function called as `name` (lower case `folded`) on `argc` arguments.
    pub fn resolve_folded(&self, name: &str, folded: &str, argc: usize) -> (r: Result<Operation, Error>)
        ensures
            op_view(r) == call_outcome(name@, folded@, argc as nat),
    {
        let builtin = if same(folded, "sin") {
            Some(Operation::Sin)
        } else if same(folded, "cos") {
            Some(Operation::Cos)
        } else if same(folded, "tan") {
            Some(Operation::Tan)
        } else if same(folded, "sqrt") {
            Some(Operation::SquareRoot)
        } else if same(folded, "ln") {
            Some(Operation::Ln)
        } else if same(folded, "log") {
            Some(Operation::Log)
        } else if same(folded, "abs") {
            Some(Operation::Abs)
        } else if same(folded, "ceil") {
            Some(Operation::Ceil)
        } else if same(folded, "floor") {
            Some(Operation::Floor)
        } else if same(folded, "round") {
            Some(Operation::Round)
        } else {
            None
        };
        match builtin {
            None => Err(Error::UndefinedFunction(String::from_str(name))),
            Some(op) => {
                let expected: usize = if op == Operation::Log { 2 } else { 1 };
                if argc == expected {
                    Ok(op)
                } else {
                    Err(Error::InvalidArgumentCount { function: String::from_str(name), expected, actual: argc })
                }
            },
        }
    }

    /// The built-in function called as `name`, in any case, on `argc` arguments.
    pub fn resolve_function(&self, name: &str, argc: usize) -> (r: Result<Operation, Error>)
        ensures
            op_view(r) == call_outcome(name@, lower_of(name@), argc as nat),
    {
        let folded = lowercase(name);
        self.resolve_folded(name, folded.as_str(), argc)
    }
}

impl Default for ExpressionEvaluator {
    fn default() -> (r: Self)
        ensures
            !r.strict(),
    {
        ExpressionEvaluator::new()
    }
}

} // verus!
