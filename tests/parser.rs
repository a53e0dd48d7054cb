use sci_calc::ast::{AstNode, Numeral};
use sci_calc::evaluator::ExpressionEvaluator;
use sci_calc::lexer::Token;
use sci_calc::parser::ExpressionParser;
use sci_calc::{Error, Operation};

/// The value of a numeric literal token.
fn number(t: &Token) -> Option<f64> {
    match t {
        Token::Number(s) => s.parse::<f64>().ok(),
        _ => None,
    }
}

fn literal(node: &AstNode) -> Option<f64> {
    match node {
        AstNode::Number(Numeral::Literal(s)) => s.parse::<f64>().ok(),
        _ => None,
    }
}

/// Evaluates a tree with the library's operator and function decisions, for checking
/// the shape of parsed expressions by their values.
fn value(node: &AstNode) -> Result<f64, Error> {
    let ev = ExpressionEvaluator::new();
    match node {
        AstNode::Number(Numeral::Literal(s)) => Ok(s.parse::<f64>().unwrap()),
        AstNode::Number(Numeral::Pi) => Ok(std::f64::consts::PI),
        AstNode::Number(Numeral::E) => Ok(std::f64::consts::E),
        AstNode::BinaryOp { op, left, right } => {
            let l = value(left)?;
            let r = value(right)?;
            match ev.binary_operation(*op)? {
                Operation::Add => Ok(l + r),
                Operation::Subtract => Ok(l - r),
                Operation::Multiply => Ok(l * r),
                Operation::Divide => Ok(l / r),
                _ => Ok(l.powf(r)),
            }
        }
        AstNode::UnaryOp { op, operand } => {
            let v = value(operand)?;
            match ev.unary_operation(*op)? {
                Operation::Subtract => Ok(-v),
                _ => Ok(v),
            }
        }
        AstNode::FunctionCall { name, args } => {
            let f = ev.resolve_function(name, args.len())?;
            let v = value(&args[0])?;
            match f {
                Operation::SquareRoot => Ok(v.sqrt()),
                Operation::Abs => Ok(v.abs()),
                _ => Ok(v.sin()),
            }
        }
    }
}

fn parse(text: &str) -> Result<AstNode, Error> {
    ExpressionParser::new().parse_text(text)
}

#[test]
fn test_parse_simple_addition() {
    let parser = ExpressionParser::new();
    let tokens = parser.tokenize("1 + 2").unwrap();
    let ast = parser.parse(tokens).unwrap();

    match ast {
        AstNode::BinaryOp { op, .. } => assert_eq!(op, '+'),
        _ => panic!("Expected BinaryOp"),
    }
}

#[test]
fn test_parse_operator_precedence() {
    let parser = ExpressionParser::new();
    let tokens = parser.tokenize("2 + 3 * 4").unwrap();
    let ast = parser.parse(tokens).unwrap();

    match ast {
        AstNode::BinaryOp { op, left, right } => {
            assert_eq!(op, '+');
            assert_eq!(literal(&left), Some(2.0));
            assert!(matches!(*right, AstNode::BinaryOp { op: '*', .. }));
        }
        _ => panic!("Expected BinaryOp"),
    }
}

#[test]
fn test_parse_parentheses() {
    let parser = ExpressionParser::new();
    let tokens = parser.tokenize("(2 + 3) * 4").unwrap();
    let ast = parser.parse(tokens).unwrap();

    match ast {
        AstNode::BinaryOp { op, left, .. } => {
            assert_eq!(op, '*');
            assert!(matches!(*left, AstNode::BinaryOp { op: '+', .. }));
        }
        _ => panic!("Expected BinaryOp"),
    }
}

#[test]
fn test_parse_function() {
    let parser = ExpressionParser::new();
    let tokens = parser.tokenize("sin(3.14)").unwrap();
    let ast = parser.parse(tokens).unwrap();

    match ast {
        AstNode::FunctionCall { name, args } => {
            assert_eq!(name, "sin");
            assert_eq!(args.len(), 1);
        }
        _ => panic!("Expected FunctionCall"),
    }
}

#[test]
fn test_parse_unary_minus() {
    let parser = ExpressionParser::new();
    let tokens = parser.tokenize("-5").unwrap();
    let ast = parser.parse(tokens).unwrap();

    match ast {
        AstNode::UnaryOp { op, .. } => assert_eq!(op, '-'),
        _ => panic!("Expected UnaryOp"),
    }
}

#[test]
fn test_tokenize_simple() {
    let parser = ExpressionParser::new();
    let tokens = parser.tokenize("1 + 2").unwrap();

    assert_eq!(tokens.len(), 3);
    assert_eq!(number(&tokens[0]), Some(1.0));
    assert_eq!(tokens[1], Token::Operator('+'));
    assert_eq!(number(&tokens[2]), Some(2.0));
}

#[test]
fn test_tokenize_with_parentheses() {
    let parser = ExpressionParser::new();
    let tokens = parser.tokenize("(3 + 4) * 5").unwrap();

    assert_eq!(tokens.len(), 7);
    assert_eq!(tokens[0], Token::LeftParen);
    assert_eq!(number(&tokens[1]), Some(3.0));
    assert_eq!(number(&tokens[6]), Some(5.0));
}

#[test]
fn test_tokenize_decimal() {
    let parser = ExpressionParser::new();
    let tokens = parser.tokenize("3.14 + 2.5").unwrap();

    assert_eq!(number(&tokens[0]), Some(3.14));
    assert_eq!(number(&tokens[2]), Some(2.5));
}

#[test]
fn test_tokenize_function() {
    let parser = ExpressionParser::new();
    let tokens = parser.tokenize("sin(3.14)").unwrap();

    assert_eq!(tokens[0], Token::Function("sin".to_string()));
    assert_eq!(tokens[1], Token::LeftParen);
    assert_eq!(number(&tokens[2]), Some(3.14));
}

#[test]
fn test_tokenize_unicode_sqrt() {
    let parser = ExpressionParser::new();
    let tokens = parser.tokenize("√16").unwrap();

    assert_eq!(tokens[0], Token::PrefixOp("sqrt".to_string()));
    assert_eq!(number(&tokens[1]), Some(16.0));
}

#[test]
fn test_tokenize_unicode_operators() {
    let parser = ExpressionParser::new();
    let tokens = parser.tokenize("5 × 3 ÷ 2").unwrap();

    assert_eq!(tokens[1], Token::Operator('*'));
    assert_eq!(tokens[3], Token::Operator('/'));
}

#[test]
fn test_tokenize_pi() {
    let parser = ExpressionParser::new();
    let tokens = parser.tokenize("π").unwrap();

    assert_eq!(tokens[0], Token::Constant("pi".to_string()));
}

#[test]
fn test_tokenize_superscript() {
    let parser = ExpressionParser::new();
    let tokens = parser.tokenize("5²").unwrap();

    assert_eq!(number(&tokens[0]), Some(5.0));
    assert_eq!(tokens[1], Token::Operator('^'));
    assert_eq!(number(&tokens[2]), Some(2.0));
}

#[test]
fn test_parse_unicode_sqrt() {
    let parser = ExpressionParser::new();
    let tokens = parser.tokenize("√16").unwrap();
    let ast = parser.parse(tokens).unwrap();

    match ast {
        AstNode::FunctionCall { name, .. } => assert_eq!(name, "sqrt"),
        _ => panic!("Expected FunctionCall"),
    }
}

#[test]
fn test_parse_pi() {
    let parser = ExpressionParser::new();
    let tokens = parser.tokenize("π + 1").unwrap();
    let ast = parser.parse(tokens).unwrap();

    match ast {
        AstNode::BinaryOp { op, .. } => assert_eq!(op, '+'),
        _ => panic!("Expected BinaryOp"),
    }
}

#[test]
fn test_invalid_character() {
    let parser = ExpressionParser::new();
    let result = parser.tokenize("1 @ 2");

    assert!(result.is_err());
}

#[test]
fn invalid_character_is_named() {
    assert_eq!(ExpressionParser::new().tokenize("1 @ 2"), Err(Error::InvalidCharacter('@')));
}

#[test]
fn tokenize_other_symbols() {
    let parser = ExpressionParser::new();
    let tokens = parser.tokenize("ⅇ ℯ 2³\t").unwrap();
    assert_eq!(tokens[0], Token::Constant("e".to_string()));
    assert_eq!(tokens[1], Token::Constant("e".to_string()));
    assert_eq!(number(&tokens[2]), Some(2.0));
    assert_eq!(tokens[3], Token::Operator('^'));
    assert_eq!(number(&tokens[4]), Some(3.0));
    assert_eq!(tokens.len(), 5);
    assert_eq!(parser.tokenize(""), Ok(vec![]));
}

#[test]
fn tokenize_invalid_numbers() {
    let parser = ExpressionParser::new();
    assert_eq!(parser.tokenize("1.2.3 + 4"), Err(Error::InvalidNumber("1.2.3".to_string())));
    assert_eq!(parser.tokenize("."), Err(Error::InvalidNumber(".".to_string())));
    let tokens = parser.tokenize(".5 + 7.").unwrap();
    assert_eq!(number(&tokens[0]), Some(0.5));
    assert_eq!(number(&tokens[2]), Some(7.0));
}

#[test]
fn tokenize_names() {
    let tokens = ExpressionParser::new().tokenize("Log(x)").unwrap();
    assert_eq!(tokens[0], Token::Function("Log".to_string()));
    assert_eq!(tokens[2], Token::Function("x".to_string()));
}

#[test]
fn precedence_values() {
    assert_eq!(value(&parse("2 + 3 * 4").unwrap()), Ok(14.0));
    assert_eq!(value(&parse("10 - 2 * 3").unwrap()), Ok(4.0));
    assert_eq!(value(&parse("10 - 4 - 3").unwrap()), Ok(3.0));
    assert_eq!(value(&parse("20 / 4 / 5").unwrap()), Ok(1.0));
}

#[test]
fn parentheses_override_precedence() {
    assert_eq!(value(&parse("(2 + 3) * 4").unwrap()), Ok(20.0));
    assert_eq!(value(&parse("2 * (3 + 4)").unwrap()), Ok(14.0));
}

#[test]
fn power_groups_right() {
    let ast = parse("2 ^ 3 ^ 2").unwrap();
    match &ast {
        AstNode::BinaryOp { op, left, right } => {
            assert_eq!(*op, '^');
            assert_eq!(literal(left), Some(2.0));
            assert!(matches!(**right, AstNode::BinaryOp { op: '^', .. }));
        }
        _ => panic!("Expected BinaryOp"),
    }
    assert_eq!(value(&ast), Ok(512.0));
}

#[test]
fn unary_minus_with_grouping() {
    let ast = parse("-(2 + 3)").unwrap();
    match &ast {
        AstNode::UnaryOp { op, operand } => {
            assert_eq!(*op, '-');
            assert!(matches!(**operand, AstNode::BinaryOp { op: '+', .. }));
        }
        _ => panic!("Expected UnaryOp"),
    }
    assert_eq!(value(&ast), Ok(-5.0));
    let ast = parse("10 + -5").unwrap();
    match &ast {
        AstNode::BinaryOp { op, right, .. } => {
            assert_eq!(*op, '+');
            assert!(matches!(**right, AstNode::UnaryOp { op: '-', .. }));
        }
        _ => panic!("Expected BinaryOp"),
    }
    assert_eq!(value(&ast), Ok(5.0));
    assert_eq!(value(&parse("--5").unwrap()), Ok(5.0));
}

#[test]
fn functions_and_constants() {
    assert_eq!(value(&parse("2 + sqrt(16) * 3").unwrap()), Ok(14.0));
    assert_eq!(value(&parse("√√16").unwrap()), Ok(2.0));
    assert_eq!(value(&parse("abs(-5)").unwrap()), Ok(5.0));
    assert!(matches!(parse("π").unwrap(), AstNode::Number(Numeral::Pi)));
    assert!(matches!(parse("ℯ").unwrap(), AstNode::Number(Numeral::E)));
    match parse("sin()").unwrap() {
        AstNode::FunctionCall { name, args } => {
            assert_eq!(name, "sin");
            assert!(args.is_empty());
        }
        _ => panic!("Expected FunctionCall"),
    }
}

#[test]
fn division_by_literal_zero_parses() {
    let ast = parse("10 / 0").unwrap();
    match &ast {
        AstNode::BinaryOp { op, right, .. } => {
            assert_eq!(*op, '/');
            assert_eq!(literal(right), Some(0.0));
        }
        _ => panic!("Expected BinaryOp"),
    }
}

#[test]
fn same_text_same_tree() {
    let first = parse("2 * (3 + sqrt(4)) ^ 2");
    let second = parse("2 * (3 + sqrt(4)) ^ 2");
    assert_eq!(first, second);
}

#[test]
fn parse_errors() {
    let parser = ExpressionParser::new();
    assert_eq!(parser.parse(vec![]), Err(Error::ParseError("空表达式".to_string())));
    assert_eq!(parse(""), Err(Error::ParseError("空表达式".to_string())));
    assert_eq!(parse("(2 + 3"), Err(Error::ParseError("缺少右括号".to_string())));
    assert_eq!(parse("sin 3"), Err(Error::ParseError("函数 sin 后缺少左括号".to_string())));
    assert_eq!(parse("sin(3"), Err(Error::ParseError("函数 sin 参数列表缺少右括号".to_string())));
    assert_eq!(parse(")"), Err(Error::ParseError("意外的 token: Some(RightParen)".to_string())));
    assert_eq!(parse("2 *"), Err(Error::ParseError("意外的 token: None".to_string())));
    let unknown = parser.parse(vec![Token::Constant("tau".to_string())]);
    assert_eq!(unknown, Err(Error::ParseError("未知常量: tau".to_string())));
}

#[test]
fn trailing_tokens_are_rejected() {
    assert_eq!(parse("2 + 3 4"), Err(Error::ParseError("意外的 token: Some(Number(4))".to_string())));
    assert_eq!(parse("(1))"), Err(Error::ParseError("意外的 token: Some(RightParen)".to_string())));
}
