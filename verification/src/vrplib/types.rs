//! The values of the VRPLib header fields `TYPE`, `EDGE_WEIGHT_TYPE`,
//! `EDGE_WEIGHT_FORMAT` and `NODE_COORD_TYPE`, read from their text.
use vstd::prelude::*;

use crate::model::ProblemType;
use crate::text::{chars_are, chars_of};

verus! {

/// The value of `EDGE_WEIGHT_TYPE`.
#[derive(Clone, Copy, Debug, PartialEq, Eq, Structural)]
pub enum EdgeWeightType {
    Euc2D,
    Explicit,
}

/// The value of `EDGE_WEIGHT_FORMAT`.
#[derive(Clone, Copy, Debug, PartialEq, Eq, Structural)]
pub enum EdgeWeightFormat {
    LowerRow,
    FullMatrix,
}

/// The value of `NODE_COORD_TYPE`.
#[derive(Clone, Copy, Debug, PartialEq, Eq, Structural)]
pub enum NodeCoordType {
    TwodCoords,
}

#[derive(Debug, PartialEq, Eq)]
pub enum ParseProblemTypeError {
    /// The text names no problem type.
    UnknownType(String),
    /// The text names a problem type that VRPLib files cannot hold here.
    NotSupportedInVrplib(String),
}

#[derive(Debug, PartialEq, Eq)]
pub enum ParseEdgeWeightTypeError {
    UnknownType(String),
}

#[derive(Debug, PartialEq, Eq)]
pub enum ParseEdgeWeightFormatError {
    UnknownFormat(String),
}

#[derive(Debug, PartialEq, Eq)]
pub enum ParseNodeCoordTypeError {
    UnknownType(String),
}

pub open spec fn cvrp_text() -> Seq<char> {
    seq!['C', 'V', 'R', 'P']
}

pub open spec fn cvrptw_text() -> Seq<char> {
    seq!['C', 'V', 'R', 'P', 'T', 'W']
}

pub open spec fn explicit_text() -> Seq<char> {
    seq!['E', 'X', 'P', 'L', 'I', 'C', 'I', 'T']
}

pub open spec fn euc_2d_text() -> Seq<char> {
    seq!['E', 'U', 'C', '_', '2', 'D']
}

pub open spec fn lower_row_text() -> Seq<char> {
    seq!['L', 'O', 'W', 'E', 'R', '_', 'R', 'O', 'W']
}

pub open spec fn full_matrix_text() -> Seq<char> {
    seq!['F', 'U', 'L', 'L', '_', 'M', 'A', 'T', 'R', 'I', 'X']
}

pub open spec fn twod_coords_text() -> Seq<char> {
    seq!['T', 'W', 'O', 'D', '_', 'C', 'O', 'O', 'R', 'D', 'S']
}

/// How the text of `TYPE` reads: `Ok` with the problem type, `Err(true)` for
/// a type VRPLib files cannot hold here, `Err(false)` for an unknown one.
pub open spec fn spec_problem_type(s: Seq<char>) -> Result<ProblemType, bool> {
    if s == cvrp_text() {
        Ok(ProblemType::Cvrp)
    } else if s == cvrptw_text() {
        Err(true)
    } else {
        Err(false)
    }
}

pub open spec fn spec_edge_weight_type(s: Seq<char>) -> Option<EdgeWeightType> {
    if s == explicit_text() {
        Some(EdgeWeightType::Explicit)
    } else if s == euc_2d_text() {
        Some(EdgeWeightType::Euc2D)
    } else {
        None
    }
}

pub open spec fn spec_edge_weight_format(s: Seq<char>) -> Option<EdgeWeightFormat> {
    if s == lower_row_text() {
        Some(EdgeWeightFormat::LowerRow)
    } else if s == full_matrix_text() {
        Some(EdgeWeightFormat::FullMatrix)
    } else {
        None
    }
}

pub open spec fn spec_node_coord_type(s: Seq<char>) -> Option<NodeCoordType> {
    if s == twod_coords_text() {
        Some(NodeCoordType::TwodCoords)
    } else {
        None
    }
}

impl ProblemType {
    /// Reads the value of a VRPLib `TYPE` field: `CVRP`; `CVRPTW` is known
    /// but refused; anything else is unknown.
    pub fn try_from(value: &str) -> (r: Result<ProblemType, ParseProblemTypeError>)
        ensures
            match r {
                Ok(p) => spec_problem_type(value@) == Ok::<ProblemType, bool>(p),
                Err(ParseProblemTypeError::NotSupportedInVrplib(t)) => spec_problem_type(value@)
                    == Err::<ProblemType, bool>(true) && t@ == value@,
                Err(ParseProblemTypeError::UnknownType(t)) => spec_problem_type(value@) == Err::<
                    ProblemType,
                    bool,
                >(false) && t@ == value@,
            },
    {
        let v = chars_of(value);
        if chars_are(&v, &['C', 'V', 'R', 'P']) {
            Ok(ProblemType::Cvrp)
        } else if chars_are(&v, &['C', 'V', 'R', 'P', 'T', 'W']) {
            Err(ParseProblemTypeError::NotSupportedInVrplib(value.to_owned()))
        } else {
            Err(ParseProblemTypeError::UnknownType(value.to_owned()))
        }
    }
}

impl EdgeWeightType {
    /// Reads the value of `EDGE_WEIGHT_TYPE`: `EXPLICIT` or `EUC_2D`.
    pub fn try_from(value: &str) -> (r: Result<EdgeWeightType, ParseEdgeWeightTypeError>)
        ensures
            match r {
                Ok(t) => spec_edge_weight_type(value@) == Some(t),
                Err(ParseEdgeWeightTypeError::UnknownType(t)) => spec_edge_weight_type(value@)
                    is None && t@ == value@,
            },
    {
        let v = chars_of(value);
        if chars_are(&v, &['E', 'X', 'P', 'L', 'I', 'C', 'I', 'T']) {
            return Ok(EdgeWeightType::Explicit);
        }
        if chars_are(&v, &['E', 'U', 'C', '_', '2', 'D']) {
            return Ok(EdgeWeightType::Euc2D);
        }
        Err(ParseEdgeWeightTypeError::UnknownType(value.to_owned()))
    }
}

impl EdgeWeightFormat {
    /// Reads the value of `EDGE_WEIGHT_FORMAT`: `LOWER_ROW` or `FULL_MATRIX`.
    pub fn try_from(value: &str) -> (r: Result<EdgeWeightFormat, ParseEdgeWeightFormatError>)
        ensures
            match r {
                Ok(f) => spec_edge_weight_format(value@) == Some(f),
                Err(ParseEdgeWeightFormatError::UnknownFormat(t)) => spec_edge_weight_format(
                    value@,
                ) is None && t@ == value@,
            },
    {
        let v = chars_of(value);
        if chars_are(&v, &['L', 'O', 'W', 'E', 'R', '_', 'R', 'O', 'W']) {
            return Ok(EdgeWeightFormat::LowerRow);
        }
        if chars_are(&v, &['F', 'U', 'L', 'L', '_', 'M', 'A', 'T', 'R', 'I', 'X']) {
            return Ok(EdgeWeightFormat::FullMatrix);
        }
        Err(ParseEdgeWeightFormatError::UnknownFormat(value.to_owned()))
    }
}

impl NodeCoordType {
    /// Reads the value of `NODE_COORD_TYPE`: `TWOD_COORDS`.
    pub fn try_from(value: &str) -> (r: Result<NodeCoordType, ParseNodeCoordTypeError>)
        ensures
            match r {
                Ok(t) => spec_node_coord_type(value@) == Some(t),
                Err(ParseNodeCoordTypeError::UnknownType(t)) => spec_node_coord_type(value@)
                    is None && t@ == value@,
            },
    {
        let v = chars_of(value);
        if chars_are(&v, &['T', 'W', 'O', 'D', '_', 'C', 'O', 'O', 'R', 'D', 'S']) {
            return Ok(NodeCoordType::TwodCoords);
        }
        Err(ParseNodeCoordTypeError::UnknownType(value.to_owned()))
    }
}

} // verus!
