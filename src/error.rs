//! The calculator's error type and its human-readable messages.
use vstd::prelude::*;
use crate::text::{decimal, push_char, push_decimal};

verus! {

/// Every way a calculation can fail.
#[derive(Debug, Clone, PartialEq)]
pub enum Error {
    DivisionByZero,
    NegativeSquareRoot,
    InvalidLogarithm,
    InvalidFactorialArgument,
    FactorialTooLarge,
    EmptyDataSet,
    InvalidNumber(String),
    InvalidCharacter(char),
    MismatchedParen,
    InvalidExpression,
    ParseError(String),
    InsufficientOperands,
    InvalidOperator,
    UndefinedVariable(String),
    UndefinedFunction(String),
    InvalidArgumentCount { function: String, expected: usize, actual: usize },
    IoError(String),
    Other(String),
}

/// An error with its texts seen as character sequences.
pub enum ErrorView {
    DivisionByZero,
    NegativeSquareRoot,
    InvalidLogarithm,
    InvalidFactorialArgument,
    FactorialTooLarge,
    EmptyDataSet,
    InvalidNumber(Seq<char>),
    InvalidCharacter(char),
    MismatchedParen,
    InvalidExpression,
    ParseError(Seq<char>),
    InsufficientOperands,
    InvalidOperator,
    UndefinedVariable(Seq<char>),
    UndefinedFunction(Seq<char>),
    InvalidArgumentCount { function: Seq<char>, expected: nat, actual: nat },
    IoError(Seq<char>),
    Other(Seq<char>),
}

impl View for Error {
    type V = ErrorView;

    open spec fn view(&self) -> ErrorView {
        match self {
            Error::DivisionByZero => ErrorView::DivisionByZero,
            Error::NegativeSquareRoot => ErrorView::NegativeSquareRoot,
            Error::InvalidLogarithm => ErrorView::InvalidLogarithm,
            Error::InvalidFactorialArgument => ErrorView::InvalidFactorialArgument,
            Error::FactorialTooLarge => ErrorView::FactorialTooLarge,
            Error::EmptyDataSet => ErrorView::EmptyDataSet,
            Error::InvalidNumber(s) => ErrorView::InvalidNumber(s@),
            Error::InvalidCharacter(c) => ErrorView::InvalidCharacter(*c),
            Error::MismatchedParen => ErrorView::MismatchedParen,
            Error::InvalidExpression => ErrorView::InvalidExpression,
            Error::ParseError(s) => ErrorView::ParseError(s@),
            Error::InsufficientOperands => ErrorView::InsufficientOperands,
            Error::InvalidOperator => ErrorView::InvalidOperator,
            Error::UndefinedVariable(s) => ErrorView::UndefinedVariable(s@),
            Error::UndefinedFunction(s) => ErrorView::UndefinedFunction(s@),
            Error::InvalidArgumentCount { function, expected, actual } => ErrorView::InvalidArgumentCount {
                function: function@,
                expected: *expected as nat,
                actual: *actual as nat,
            },
            Error::IoError(s) => ErrorView::IoError(s@),
            Error::Other(s) => ErrorView::Other(s@),
        }
    }
}

/// The message shown to a user for an error.
pub open spec fn message_of(e: ErrorView) -> Seq<char> {
    match e {
        ErrorView::DivisionByZero => "除零错误"@,
        ErrorView::NegativeSquareRoot => "负数不能开平方根"@,
        ErrorView::InvalidLogarithm => "无效的对数运算: 底数必须 > 0 且 ≠ 1, 真数必须 > 0"@,
        ErrorView::InvalidFactorialArgument => "阶乘参数无效: 必须是非负整数"@,
        ErrorView::FactorialTooLarge => "阶乘值过大: n > 20"@,
        ErrorView::EmptyDataSet => "空数据集"@,
        ErrorView::InvalidNumber(s) => "无效数字: "@ + s,
        ErrorView::InvalidCharacter(c) => "无效字符: "@.push(c),
        ErrorView::MismatchedParen => "括号不匹配"@,
        ErrorView::InvalidExpression => "无效表达式"@,
        ErrorView::ParseError(s) => "解析错误: "@ + s,
        ErrorView::InsufficientOperands => "操作数不足"@,
        ErrorView::InvalidOperator => "无效操作符"@,
        ErrorView::UndefinedVariable(s) => "未定义变量: "@ + s,
        ErrorView::UndefinedFunction(s) => "未定义函数: "@ + s,
        ErrorView::InvalidArgumentCount { function, expected, actual } =>
            "函数 "@ + function + " 参数数量错误: 期望 "@ + decimal(expected) + ", 实际 "@ + decimal(actual),
        ErrorView::IoError(s) => "IO 错误: "@ + s,
        ErrorView::Other(s) => "错误: "@ + s,
    }
}

fn prefixed(prefix: &str, s: &String) -> (r: String)
    ensures
        r@ == prefix@ + s@,
{
    let mut r = String::from_str(prefix);
    r.append(s.as_str());
    r
}

impl Error {
    /// The message shown to a user for this error.
    pub fn message(&self) -> (r: String)
        ensures
            r@ == message_of(self@),
    {
        match self {
            Error::DivisionByZero => String::from_str("除零错误"),
            Error::NegativeSquareRoot => String::from_str("负数不能开平方根"),
            Error::InvalidLogarithm => String::from_str("无效的对数运算: 底数必须 > 0 且 ≠ 1, 真数必须 > 0"),
            Error::InvalidFactorialArgument => String::from_str("阶乘参数无效: 必须是非负整数"),
            Error::FactorialTooLarge => String::from_str("阶乘值过大: n > 20"),
            Error::EmptyDataSet => String::from_str("空数据集"),
            Error::InvalidNumber(s) => prefixed("无效数字: ", s),
            Error::InvalidCharacter(c) => {
                let mut r = String::from_str("无效字符: ");
                push_char(&mut r, *c);
                r
            },
            Error::MismatchedParen => String::from_str("括号不匹配"),
            Error::InvalidExpression => String::from_str("无效表达式"),
            Error::ParseError(s) => prefixed("解析错误: ", s),
            Error::InsufficientOperands => String::from_str("操作数不足"),
            Error::InvalidOperator => String::from_str("无效操作符"),
            Error::UndefinedVariable(s) => prefixed("未定义变量: ", s),
            Error::UndefinedFunction(s) => prefixed("未定义函数: ", s),
            Error::InvalidArgumentCount { function, expected, actual } => {
                let mut r = prefixed("函数 ", function);
                r.append(" 参数数量错误: 期望 ");
                push_decimal(&mut r, *expected);
                r.append(", 实际 ");
                push_decimal(&mut r, *actual);
                r
            },
            Error::IoError(s) => prefixed("IO 错误: ", s),
            Error::Other(s) => prefixed("错误: ", s),
        }
    }
}

} // verus!
