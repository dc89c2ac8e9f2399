//! Front end of a regular-expression toolchain: a single-pass, stack-based
//! parser that turns pattern text into an abstract syntax tree, or reports
//! a structured error with the character offset at which parsing failed.

pub mod ast;
pub mod laws;
pub mod messages;
pub mod model;
pub mod parser;

pub use ast::AST;
pub use ast::ParseError;
pub use ast::Regex;
pub use parser::parse;
