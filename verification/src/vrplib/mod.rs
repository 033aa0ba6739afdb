//! The VRPLib format: tokens, their lexer and parser, and the reader.
pub mod types;
pub mod token;
pub mod lexer;
pub mod parser;
pub mod error;
pub mod reader;
