//! Verified PartiQL query parsing and date-time evaluation helpers.
pub mod ast;
pub mod value;
pub mod eval;
pub mod parse_context;
pub mod text;
pub mod identifier;
pub mod literal;
pub mod expr;
pub mod dql;
pub mod dml;
pub mod parsed_dql;
pub mod parser;
