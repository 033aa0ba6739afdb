//! The Solomon format: its lexer and parser.
pub mod lexer;
pub mod parser;
pub mod reader;
