//! An arithmetic expression reader: numbers, `+ - * / % ^`, unary minus,
//! parentheses, named constants and named functions of one to three
//! arguments. `calculator::Calculator::eval` reads a line into an expression
//! whose names are resolved and whose function calls have the right number of
//! arguments, or reports the first error met.
pub mod parser;
pub mod syntax;
pub mod grammar;
pub mod calculator;
pub mod laws;
