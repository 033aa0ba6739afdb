//! Errors of reading a VRPLib file.
use vstd::prelude::*;

use super::parser::ParseError;
use super::token::TokenError;

verus! {

/// Why a VRPLib file could not be read: a line that is no token, or a token
/// stream that is no instance.
#[derive(Debug, PartialEq, Eq)]
pub enum VrplibError {
    Token(TokenError),
    Parse(ParseError),
}

} // verus!
