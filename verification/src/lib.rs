//! Loading of VRP instance files (VRPLib and Solomon formats).
pub mod convert;
pub mod error;
pub mod instance;
pub mod matrix;
pub mod model;
pub mod numeric;
pub mod solomon;
pub mod text;
pub mod vrplib;

pub use model::{EdgeWeightKind, ProblemType};
pub use error::LoadError;
pub use instance::{Coord, VRPInstance, VRPInstanceBuilder, ValidationError, VrpInstance};
pub use numeric::FloatLiteral;
pub use solomon::parser::SolomonParseError;
pub use solomon::reader::read_from_solomon;
pub use vrplib::error::VrplibError;
pub use vrplib::parser::ParseError;
pub use vrplib::reader::{read_from_vrplib, read_from_vrplib_values};
pub use vrplib::token::TokenError;
pub use vrplib::types::{
    ParseEdgeWeightFormatError, ParseEdgeWeightTypeError, ParseNodeCoordTypeError,
    ParseProblemTypeError,
};
