use sci_calc::Operation;

#[test]
fn test_operation_symbol() {
    assert_eq!(Operation::Add.symbol(), "+");
    assert_eq!(Operation::Multiply.symbol(), "*");
    assert_eq!(Operation::SquareRoot.symbol(), "√");
}

#[test]
fn test_operation_precedence() {
    assert!(Operation::Multiply.precedence() > Operation::Add.precedence());
    assert!(Operation::Power.precedence() > Operation::Multiply.precedence());
}

#[test]
fn test_operation_type() {
    assert!(Operation::Add.is_binary());
    assert!(!Operation::Add.is_unary());
    assert!(Operation::SquareRoot.is_unary());
    assert!(!Operation::SquareRoot.is_binary());
}

#[test]
fn test_from_str() {
    assert_eq!(Operation::from_str("+"), Some(Operation::Add));
    assert_eq!(Operation::from_str("sqrt"), Some(Operation::SquareRoot));
    assert_eq!(Operation::from_str("×"), Some(Operation::Multiply));
    assert_eq!(Operation::from_str("invalid"), None);
}

#[test]
fn from_str_ignores_case() {
    assert_eq!(Operation::from_str("SQRT"), Some(Operation::SquareRoot));
    assert_eq!(Operation::from_str("Floor"), Some(Operation::Floor));
    assert_eq!(Operation::from_folded("SQRT"), None);
}

#[test]
fn from_str_alternative_spellings() {
    assert_eq!(Operation::from_str("**"), Some(Operation::Power));
    assert_eq!(Operation::from_str("÷"), Some(Operation::Divide));
    assert_eq!(Operation::from_str("√"), Some(Operation::SquareRoot));
    assert_eq!(Operation::from_str("!"), Some(Operation::Factorial));
}

#[test]
fn precedence_levels() {
    assert_eq!(Operation::Subtract.precedence(), 1);
    assert_eq!(Operation::Divide.precedence(), 2);
    assert_eq!(Operation::Power.precedence(), 3);
    assert_eq!(Operation::Sin.precedence(), 4);
    assert!(Operation::Log.is_binary());
    assert!(!Operation::Log.is_unary());
    assert_eq!(Operation::Factorial.symbol(), "!");
}
