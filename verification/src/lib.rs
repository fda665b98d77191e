//! Parsing of `DROP` statements (tables, views, flows and databases) and the
//! error type of the log query planner.

pub mod text;
pub mod token;
pub mod ast;
pub mod error;
pub mod grammar;
pub mod parser;
pub mod drop_parser;
pub mod log_query;
pub mod shift;
pub mod laws;
pub mod law_parts;
