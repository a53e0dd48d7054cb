use sci_calc::evaluator::ExpressionEvaluator;
use sci_calc::{Error, Operation};

#[test]
fn resolves_functions_in_any_case() {
    let ev = ExpressionEvaluator::new();
    assert_eq!(ev.resolve_function("sin", 1), Ok(Operation::Sin));
    assert_eq!(ev.resolve_function("SIN", 1), Ok(Operation::Sin));
    assert_eq!(ev.resolve_function("Sqrt", 1), Ok(Operation::SquareRoot));
    assert_eq!(ev.resolve_function("log", 2), Ok(Operation::Log));
    assert_eq!(ev.resolve_function("round", 1), Ok(Operation::Round));
}

#[test]
fn wrong_argument_count() {
    let ev = ExpressionEvaluator::new();
    assert_eq!(
        ev.resolve_function("log", 1),
        Err(Error::InvalidArgumentCount { function: "log".to_string(), expected: 2, actual: 1 })
    );
    assert_eq!(
        ev.resolve_function("COS", 0),
        Err(Error::InvalidArgumentCount { function: "COS".to_string(), expected: 1, actual: 0 })
    );
}

#[test]
fn undefined_function() {
    let ev = ExpressionEvaluator::new();
    assert_eq!(ev.resolve_function("foo", 1), Err(Error::UndefinedFunction("foo".to_string())));
    assert_eq!(ev.resolve_function("√", 1), Err(Error::UndefinedFunction("√".to_string())));
    assert_eq!(ev.resolve_folded("SIN", "SIN", 1), Err(Error::UndefinedFunction("SIN".to_string())));
}

#[test]
fn operator_decisions() {
    let ev = ExpressionEvaluator::default();
    assert_eq!(ev.binary_operation('+'), Ok(Operation::Add));
    assert_eq!(ev.binary_operation('^'), Ok(Operation::Power));
    assert_eq!(ev.binary_operation('/'), Ok(Operation::Divide));
    assert_eq!(ev.binary_operation('%'), Err(Error::InvalidOperator));
    assert_eq!(ev.unary_operation('-'), Ok(Operation::Subtract));
    assert_eq!(ev.unary_operation('+'), Ok(Operation::Add));
    assert_eq!(ev.unary_operation('*'), Err(Error::InvalidOperator));
}
