//! The problem kinds and edge-weight representations an instance can have.
use vstd::prelude::*;

use crate::vrplib::types::{EdgeWeightFormat, EdgeWeightType};

verus! {

/// The kind of Vehicle Routing Problem an instance describes.
///
/// - `Cvrp`: the Capacitated VRP, where each customer has a demand and each
///   vehicle a capacity limit.
/// - `Cvrptw`: the Capacitated VRP with Time Windows, where each customer
///   also has a time window and a service time.
#[derive(Clone, Copy, Debug, PartialEq, Eq, Structural)]
pub enum ProblemType {
    Cvrp,
    Cvrptw,
}

/// How the edge weights of an instance are given, merging the VRPLib fields
/// `EDGE_WEIGHT_TYPE` and `EDGE_WEIGHT_FORMAT` into one.
///
/// - `LowerRow`: an explicit matrix given by its strictly lower triangle, row
///   by row (`EXPLICIT` with `LOWER_ROW`).
/// - `FullMatrix`: an explicit matrix given in full (`EXPLICIT` with
///   `FULL_MATRIX`).
/// - `Euc2D`: weights computed from 2D node coordinates (`EUC_2D`, with no
///   format).
#[derive(Clone, Copy, Debug, PartialEq, Eq, Structural)]
pub enum EdgeWeightKind {
    LowerRow,
    FullMatrix,
    Euc2D,
}

/// The edge-weight kind that an edge-weight type and an optional format
/// describe, if the pair is supported.
pub open spec fn spec_edge_weight_kind(
    edge_weight_type: EdgeWeightType,
    edge_weight_format: Option<EdgeWeightFormat>,
) -> Option<EdgeWeightKind> {
    match edge_weight_type {
        EdgeWeightType::Explicit => match edge_weight_format {
            Some(EdgeWeightFormat::LowerRow) => Some(EdgeWeightKind::LowerRow),
            Some(EdgeWeightFormat::FullMatrix) => Some(EdgeWeightKind::FullMatrix),
            None => None,
        },
        EdgeWeightType::Euc2D => match edge_weight_format {
            None => Some(EdgeWeightKind::Euc2D),
            Some(_) => None,
        },
    }
}

impl EdgeWeightKind {
    /// The kind for an edge-weight type and format: `EXPLICIT` needs a
    /// format, `EUC_2D` must have none.
    pub fn new(
        edge_weight_type: EdgeWeightType,
        edge_weight_format: Option<EdgeWeightFormat>,
    ) -> (r: Option<Self>)
        ensures
            r == spec_edge_weight_kind(edge_weight_type, edge_weight_format),
    {
        match edge_weight_type {
            EdgeWeightType::Explicit => {
                if let Some(fmt) = edge_weight_format {
                    match fmt {
                        EdgeWeightFormat::LowerRow => return Some(EdgeWeightKind::LowerRow),
                        EdgeWeightFormat::FullMatrix => return Some(EdgeWeightKind::FullMatrix),
                    }
                }
            },
            EdgeWeightType::Euc2D => {
                if edge_weight_format.is_none() {
                    return Some(EdgeWeightKind::Euc2D);
                }
            },
        }
        None
    }
}

} // verus!
