//! An arithmetic-expression engine: tokenizing and parsing expression text into syntax
//! trees, the decisions of evaluating them, the integer parts of descriptive statistics,
//! and a bounded history of calculations.
pub mod ast;
pub mod calculator;
pub mod common;
pub mod error;
pub mod evaluator;
pub mod history;
pub mod laws;
pub mod lexer;
pub mod operations;
pub mod parser;
pub mod stats;
pub mod text;

pub use calculator::Calculator;
pub use error::Error;
pub use operations::Operation;
