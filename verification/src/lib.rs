//! A verified translator for a small, statically typed, line-oriented
//! scripting notation. Each input line is split into code and comment,
//! classified as a statement, type-checked against a symbol table, and
//! rendered as a line of Rust source text inside a single `fn main` block.

pub mod error;
pub mod expressions;
pub mod generator;
pub mod laws;
pub mod literals;
pub mod parser;
pub mod symtab;
pub mod text;
pub mod translate;
pub mod types;

pub use error::{ErrorKind, TranspilerError};
pub use expressions::parse_expression;
pub use generator::{generate_expression, generate_rust_line};
pub use parser::{parse_line, split_code_and_comment};
pub use symtab::SymbolTable;
pub use translate::transpile;
pub use types::{
    escape_string_for_rust, get_default_value, get_type_mapping, is_bitwise_type, is_integer_type,
    is_numeric_type, BinaryOperator, Expression, ParsedLine, UnaryOperator,
};
