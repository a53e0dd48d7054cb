use sci_calc::{Calculator, Error};

#[test]
fn test_factorial() {
    let calc = Calculator::new();
    assert_eq!(calc.factorial(5).unwrap(), 120);
    assert!(calc.factorial(21).is_err());
}

#[test]
fn factorial_edges() {
    let calc = Calculator::new();
    assert_eq!(calc.factorial(0), Ok(1));
    assert_eq!(calc.factorial(20), Ok(2432902008176640000));
    assert_eq!(calc.factorial(21), Err(Error::FactorialTooLarge));
}

#[test]
fn precision_setting() {
    let mut calc = Calculator::new();
    assert_eq!(calc.precision(), 10);
    calc.set_precision(3);
    assert_eq!(calc.precision(), 3);
    assert_eq!(Calculator::default().precision(), 10);
}
