//! The errors of loading an instance file.
use vstd::prelude::*;

use crate::instance::ValidationError;
use crate::solomon::parser::SolomonParseError;
use crate::vrplib::error::VrplibError;

verus! {

/// `std::io::Error`, the error of reading a file, carried through unread.
#[verifier::external_type_specification]
#[verifier::external_body]
pub struct ExIoError(std::io::Error);

/// Why an instance file could not be loaded: reading it failed, its VRPLib
/// or Solomon text could not be read, or its data make no instance.
#[derive(Debug)]
pub enum LoadError {
    Io(std::io::Error),
    Vrplib(VrplibError),
    Solomon(SolomonParseError),
    Validation(ValidationError),
}

} // verus!
