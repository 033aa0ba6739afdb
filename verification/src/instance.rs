//! VRP instances and the builder that assembles and checks them.
use vstd::prelude::*;

use crate::matrix::{expand_lower_row, is_lower_row_expansion, is_lower_triangle};
use crate::model::{EdgeWeightKind, ProblemType, spec_edge_weight_kind};
use crate::numeric::FloatLiteral;
use crate::vrplib::parser::{
    SectionData, SectionModel, lemma_u64_views, literals_view, rows_view, values_view,
};
use crate::convert::{convert_rows, is_converted_rows};

verus! {

/// The coordinates of one node.
pub type Coord = (FloatLiteral, FloatLiteral);

/// Why assembled data does not make an instance.
#[derive(Clone, Copy, Debug, PartialEq, Eq, Structural)]
pub enum ValidationError {
    MissingCapacity,
    MissingDemands,
    MissingDepots,
    MissingEdgeWeight,
    MissingNodeCoords,
    InvalidDemandsLength,
    /// Edge weights that do not make a `dimension × dimension` matrix: a
    /// lower triangle without `dimension - 1` rows, or a full matrix of
    /// another shape.
    InvalidEdgeWeightsShape,
    /// `EUC_2D` coordinates that are not one pair per node.
    InvalidNodeCoordsLength,
}

/// The data of an instance under construction.
#[derive(Debug, PartialEq)]
pub struct VRPInstanceBuilder<T> {
    name: String,
    problem_type: ProblemType,
    edge_weight_kind: EdgeWeightKind,
    dimension: usize,
    depots: Vec<usize>,
    capacity: Option<T>,
    demands: Option<Vec<T>>,
    node_coords: Option<Vec<Coord>>,
    edge_weights: Option<Vec<Vec<T>>>,
    vehicle_count: Option<usize>,
    time_windows: Option<Vec<(T, T)>>,
    service_times: Option<Vec<T>>,
}

/// A fully constructed VRP instance: its name, problem type, number of
/// nodes, depot nodes, a full edge-weight matrix, and, where the instance
/// has them, the vehicle capacity, node demands, node coordinates, vehicle
/// count, time windows and service times.
///
/// `T` is the type of weights, demands, capacity and times.
#[derive(Debug, PartialEq)]
pub struct VRPInstance<T> {
    name: String,
    problem_type: ProblemType,
    dimension: usize,
    depots: Vec<usize>,
    edge_weights: Vec<Vec<T>>,
    capacity: Option<T>,
    demands: Option<Vec<T>>,
    node_coords: Option<Vec<Coord>>,
    vehicle_count: Option<usize>,
    time_windows: Option<Vec<(T, T)>>,
    service_times: Option<Vec<T>>,
}

/// The same type, under the name that callers of the loaders use.
pub type VrpInstance<T> = VRPInstance<T>;

/// The data of a builder, with texts as character sequences and vectors as
/// sequences.
pub ghost struct BuilderModel<T> {
    pub name: Seq<char>,
    pub problem_type: ProblemType,
    pub edge_weight_kind: EdgeWeightKind,
    pub dimension: usize,
    pub depots: Seq<usize>,
    pub capacity: Option<T>,
    pub demands: Option<Seq<T>>,
    pub node_coords: Option<Seq<Coord>>,
    pub edge_weights: Option<Seq<Seq<T>>>,
    pub vehicle_count: Option<usize>,
    pub time_windows: Option<Seq<(T, T)>>,
    pub service_times: Option<Seq<T>>,
}

/// The data of an instance, with texts as character sequences and vectors
/// as sequences.
pub ghost struct InstanceModel<T> {
    pub name: Seq<char>,
    pub problem_type: ProblemType,
    pub dimension: usize,
    pub depots: Seq<usize>,
    pub edge_weights: Seq<Seq<T>>,
    pub capacity: Option<T>,
    pub demands: Option<Seq<T>>,
    pub node_coords: Option<Seq<Coord>>,
    pub vehicle_count: Option<usize>,
    pub time_windows: Option<Seq<(T, T)>>,
    pub service_times: Option<Seq<T>>,
}

pub open spec fn opt_vec_view<X>(v: Option<Vec<X>>) -> Option<Seq<X>> {
    match v {
        Some(v) => Some(v@),
        None => None,
    }
}

pub open spec fn opt_rows_view<X>(v: Option<Vec<Vec<X>>>) -> Option<Seq<Seq<X>>> {
    match v {
        Some(v) => Some(rows_view(v@)),
        None => None,
    }
}

impl<T> View for VRPInstanceBuilder<T> {
    type V = BuilderModel<T>;

    closed spec fn view(&self) -> BuilderModel<T> {
        BuilderModel {
            name: self.name@,
            problem_type: self.problem_type,
            edge_weight_kind: self.edge_weight_kind,
            dimension: self.dimension,
            depots: self.depots@,
            capacity: self.capacity,
            demands: opt_vec_view(self.demands),
            node_coords: opt_vec_view(self.node_coords),
            edge_weights: opt_rows_view(self.edge_weights),
            vehicle_count: self.vehicle_count,
            time_windows: opt_vec_view(self.time_windows),
            service_times: opt_vec_view(self.service_times),
        }
    }
}

impl<T> View for VRPInstance<T> {
    type V = InstanceModel<T>;

    closed spec fn view(&self) -> InstanceModel<T> {
        InstanceModel {
            name: self.name@,
            problem_type: self.problem_type,
            dimension: self.dimension,
            depots: self.depots@,
            edge_weights: rows_view(self.edge_weights@),
            capacity: self.capacity,
            demands: opt_vec_view(self.demands),
            node_coords: opt_vec_view(self.node_coords),
            vehicle_count: self.vehicle_count,
            time_windows: opt_vec_view(self.time_windows),
            service_times: opt_vec_view(self.service_times),
        }
    }
}

/// The texts of a sequence of coordinates.
pub open spec fn coords_text(c: Seq<Coord>) -> Seq<(Seq<char>, Seq<char>)> {
    c.map_values(|p: Coord| (p.0@, p.1@))
}

/// `w` is an `n × n` matrix.
pub open spec fn is_square<T>(w: Seq<Seq<T>>, n: int) -> bool {
    &&& w.len() == n
    &&& forall|i: int| 0 <= i < w.len() ==> (#[trigger] w[i]).len() == n
}

/// Whether a builder can be built, and if not, the first check that fails:
/// the edge weights (or, for `EUC_2D`, the node coordinates they come from)
/// are given and make a `dimension × dimension` matrix (a lower triangle of
/// `dimension - 1` rows, a full `dimension × dimension` matrix, one
/// coordinate pair per node), then there is a depot, a capacity, demands,
/// and one demand per node.
pub open spec fn spec_build_check<T>(b: BuilderModel<T>) -> Result<(), ValidationError> {
    if b.edge_weight_kind == EdgeWeightKind::Euc2D && b.node_coords is None {
        Err(ValidationError::MissingNodeCoords)
    } else if b.edge_weight_kind != EdgeWeightKind::Euc2D && b.edge_weights is None {
        Err(ValidationError::MissingEdgeWeight)
    } else if b.edge_weight_kind == EdgeWeightKind::LowerRow && b.edge_weights->0.len() + 1
        != b.dimension {
        Err(ValidationError::InvalidEdgeWeightsShape)
    } else if b.edge_weight_kind == EdgeWeightKind::FullMatrix && !is_square(
        b.edge_weights->0,
        b.dimension as int,
    ) {
        Err(ValidationError::InvalidEdgeWeightsShape)
    } else if b.edge_weight_kind == EdgeWeightKind::Euc2D && b.node_coords->0.len() != b.dimension {
        Err(ValidationError::InvalidNodeCoordsLength)
    } else if b.depots.len() == 0 {
        Err(ValidationError::MissingDepots)
    } else if b.capacity is None {
        Err(ValidationError::MissingCapacity)
    } else if b.demands is None {
        Err(ValidationError::MissingDemands)
    } else if b.demands->0.len() != b.dimension {
        Err(ValidationError::InvalidDemandsLength)
    } else {
        Ok(())
    }
}

/// Builders of the same shape (which fields are given, their lengths, and
/// the lengths of the weight rows) pass or fail the same checks.
pub proof fn lemma_same_build_check<X, Y>(a: BuilderModel<X>, b: BuilderModel<Y>)
    requires
        a.edge_weight_kind == b.edge_weight_kind,
        a.dimension == b.dimension,
        a.depots.len() == b.depots.len(),
        a.capacity is Some <==> b.capacity is Some,
        a.demands is Some <==> b.demands is Some,
        a.demands is Some ==> a.demands->0.len() == b.demands->0.len(),
        a.node_coords is Some <==> b.node_coords is Some,
        a.node_coords is Some ==> a.node_coords->0.len() == b.node_coords->0.len(),
        a.edge_weights is Some <==> b.edge_weights is Some,
        a.edge_weights is Some ==> a.edge_weights->0.len() == b.edge_weights->0.len(),
        a.edge_weights is Some ==> forall|i: int|
            0 <= i < a.edge_weights->0.len() ==> (#[trigger] a.edge_weights->0[i]).len()
                == b.edge_weights->0[i].len(),
    ensures
        spec_build_check(a) == spec_build_check(b),
{
    if a.edge_weights is Some {
        let wa = a.edge_weights->0;
        let wb = b.edge_weights->0;
        let n = a.dimension as int;
        if is_square(wa, n) {
            assert forall|i: int| 0 <= i < wb.len() implies (#[trigger] wb[i]).len() == n by {
                assert(wa[i].len() == n);
            }
        }
        if is_square(wb, n) {
            assert forall|i: int| 0 <= i < wa.len() implies (#[trigger] wa[i]).len() == n by {
                assert(wb[i].len() == n);
            }
        }
    }
}

/// A builder needs a depot, and no more than one: a builder with depots
/// passes or fails the checks as it would with its first depot alone, and
/// the build fails for want of depots only where there is none.
pub proof fn lemma_any_number_of_depots<T>(b: BuilderModel<T>)
    ensures
        b.depots.len() >= 1 ==> spec_build_check(b) == spec_build_check(
            BuilderModel { depots: seq![b.depots[0]], ..b },
        ),
        spec_build_check(b) == Err::<(), ValidationError>(ValidationError::MissingDepots)
            ==> b.depots.len() == 0,
{
}

/// `w` is the matrix of `dist` over every ordered pair of the coordinates
/// `c`: entry `(i, j)` is a value that `dist(&c[i], &c[j])` may return.
pub open spec fn is_distance_matrix<T, F: Fn(&Coord, &Coord) -> T>(
    c: Seq<Coord>,
    w: Seq<Seq<T>>,
    dist: F,
) -> bool {
    &&& w.len() == c.len()
    &&& forall|i: int| 0 <= i < c.len() ==> (#[trigger] w[i]).len() == c.len()
    &&& forall|i: int, j: int|
        0 <= i < c.len() && 0 <= j < c.len() ==> call_ensures(dist, (&c[i], &c[j]), #[trigger] w[i][j])
}

/// The edge weights of an instance built from `b` are those its kind calls
/// for: the expansion of the lower triangle, the full matrix as given, or
/// the distance matrix of the instance's own coordinates.
pub open spec fn has_built_weights<T: Default, F: Fn(&Coord, &Coord) -> T>(
    b: BuilderModel<T>,
    inst: InstanceModel<T>,
    dist: F,
) -> bool {
    match b.edge_weight_kind {
        EdgeWeightKind::LowerRow => is_lower_row_expansion(b.edge_weights->0, inst.edge_weights),
        EdgeWeightKind::FullMatrix => inst.edge_weights == b.edge_weights->0,
        EdgeWeightKind::Euc2D => is_distance_matrix(inst.node_coords->0, inst.edge_weights, dist),
    }
}

/// Every field of the instance but the edge weights is the builder's.
pub open spec fn has_builder_fields<T>(b: BuilderModel<T>, inst: InstanceModel<T>) -> bool {
    &&& inst.name == b.name
    &&& inst.problem_type == b.problem_type
    &&& inst.dimension == b.dimension
    &&& inst.depots == b.depots
    &&& inst.capacity == b.capacity
    &&& inst.demands == b.demands
    &&& inst.node_coords == b.node_coords
    &&& inst.vehicle_count == b.vehicle_count
    &&& inst.time_windows == b.time_windows
    &&& inst.service_times == b.service_times
}

/// The texts of the coordinate rows of section data: the first two entries
/// of each row.
pub open spec fn section_coords_text<V>(d: SectionModel<V>) -> Seq<(Seq<char>, Seq<char>)> {
    Seq::new(d.node_coords.len(), |i: int| (d.node_coords[i][0], d.node_coords[i][1]))
}

/// The coordinates of an optional list, the empty list for none.
pub open spec fn coords_or_empty(c: Option<Seq<Coord>>) -> Seq<Coord> {
    match c {
        Some(c) => c,
        None => Seq::empty(),
    }
}

/// `n` coordinate pairs whose values are left open: coordinates of the
/// length that checks look at.
pub open spec fn coord_slots(n: nat) -> Seq<Coord> {
    Seq::new(n, |i: int| vstd::pervasive::arbitrary())
}

/// The builder that section data read from a VRPLib file describes, with
/// `coords` as its node coordinates where the data have coordinate rows, and
/// no coordinates where they have none.
pub open spec fn spec_make_from_vrplib<V>(d: SectionModel<V>, coords: Seq<Coord>) -> BuilderModel<V> {
    BuilderModel {
        name: d.name->0,
        problem_type: d.problem_type->0,
        edge_weight_kind: spec_edge_weight_kind(d.edge_weight_type->0, d.edge_weight_format)->0,
        dimension: d.dimension->0,
        depots: Seq::new(d.depots.len(), |i: int| d.depots[i][0]),
        capacity: d.capacity,
        demands: Some(Seq::new(d.demands.len(), |i: int| d.demands[i][1])),
        node_coords: if d.node_coords.len() == 0 {
            None
        } else {
            Some(coords)
        },
        edge_weights: Some(d.edge_weights),
        vehicle_count: None,
        time_windows: None,
        service_times: None,
    }
}

/// Section data that a builder can be made from: the header fields are all
/// given, the edge-weight type and format are a supported pair, and every
/// row has the entries that are taken from it.
pub open spec fn is_buildable_section_data<V>(d: SectionModel<V>) -> bool {
    &&& d.name is Some
    &&& d.problem_type is Some
    &&& d.dimension is Some
    &&& d.edge_weight_type is Some
    &&& spec_edge_weight_kind(d.edge_weight_type->0, d.edge_weight_format) is Some
    &&& forall|i: int| 0 <= i < d.depots.len() ==> (#[trigger] d.depots[i]).len() >= 1
    &&& forall|i: int| 0 <= i < d.demands.len() ==> (#[trigger] d.demands[i]).len() >= 2
    &&& forall|i: int| 0 <= i < d.node_coords.len() ==> (#[trigger] d.node_coords[i]).len() >= 2
}

impl<T> VRPInstanceBuilder<T> {
    /// A builder with the given header data and nothing else.
    pub fn new(
        name: String,
        problem_type: ProblemType,
        dimension: usize,
        edge_weight_kind: EdgeWeightKind,
    ) -> (r: Self)
        ensures
            r@ == (BuilderModel::<T> {
                name: name@,
                problem_type,
                edge_weight_kind,
                dimension,
                depots: Seq::empty(),
                capacity: None,
                demands: None,
                node_coords: None,
                edge_weights: None,
                vehicle_count: None,
                time_windows: None,
                service_times: None,
            }),
    {
        Self {
            name,
            problem_type,
            edge_weight_kind,
            dimension,
            depots: Vec::new(),
            capacity: None,
            demands: None,
            node_coords: None,
            edge_weights: None,
            vehicle_count: None,
            time_windows: None,
            service_times: None,
        }
    }

    /// The builder with its depot nodes set to `depots`.
    pub fn depots(self, depots: Vec<usize>) -> (r: Self)
        ensures
            r@ == (BuilderModel::<T> { depots: depots@, ..self@ }),
    {
        let mut b = self;
        b.depots = depots;
        b
    }

    /// The builder with its vehicle capacity set to `capacity`.
    pub fn capacity(self, capacity: Option<T>) -> (r: Self)
        ensures
            r@ == (BuilderModel::<T> { capacity, ..self@ }),
    {
        let mut b = self;
        b.capacity = capacity;
        b
    }

    /// The builder with its node demands set to `demands`.
    pub fn demands(self, demands: Option<Vec<T>>) -> (r: Self)
        ensures
            r@ == (BuilderModel::<T> { demands: opt_vec_view(demands), ..self@ }),
    {
        let mut b = self;
        b.demands = demands;
        b
    }

    /// The builder with its node coordinates set to `node_coords`.
    pub fn node_coords(self, node_coords: Option<Vec<Coord>>) -> (r: Self)
        ensures
            r@ == (BuilderModel::<T> { node_coords: opt_vec_view(node_coords), ..self@ }),
    {
        let mut b = self;
        b.node_coords = node_coords;
        b
    }

    /// The builder with its edge weights set to `edge_weights`.
    pub fn edge_weights(self, edge_weights: Option<Vec<Vec<T>>>) -> (r: Self)
        ensures
            r@ == (BuilderModel::<T> { edge_weights: opt_rows_view(edge_weights), ..self@ }),
    {
        let mut b = self;
        b.edge_weights = edge_weights;
        b
    }

    /// The builder with its vehicle count set to `vehicle_count`.
    pub fn vehicle_count(self, vehicle_count: Option<usize>) -> (r: Self)
        ensures
            r@ == (BuilderModel::<T> { vehicle_count, ..self@ }),
    {
        let mut b = self;
        b.vehicle_count = vehicle_count;
        b
    }

    /// The builder with its time windows set to `time_windows`.
    pub fn time_windows(self, time_windows: Option<Vec<(T, T)>>) -> (r: Self)
        ensures
            r@ == (BuilderModel::<T> { time_windows: opt_vec_view(time_windows), ..self@ }),
    {
        let mut b = self;
        b.time_windows = time_windows;
        b
    }

    /// The builder with its service times set to `service_times`.
    pub fn service_times(self, service_times: Option<Vec<T>>) -> (r: Self)
        ensures
            r@ == (BuilderModel::<T> { service_times: opt_vec_view(service_times), ..self@ }),
    {
        let mut b = self;
        b.service_times = service_times;
        b
    }

    /// Checks that demands, where given, number one per node.
    fn validate_demands(&self) -> (r: Result<(), ValidationError>)
        ensures
            r is Err <==> (self@.demands matches Some(d) && d.len() != self@.dimension),
            r is Err ==> r == Err::<(), ValidationError>(ValidationError::InvalidDemandsLength),
    {
        if let Some(demands) = &self.demands {
            if demands.len() != self.dimension {
                return Err(ValidationError::InvalidDemandsLength);
            }
        }
        Ok(())
    }
}

/// The node number of each depot row.
fn depot_nodes(depots: &Vec<Vec<usize>>) -> (r: Vec<usize>)
    requires
        forall|k: int| 0 <= k < depots@.len() ==> (#[trigger] depots@[k])@.len() >= 1,
    ensures
        r@ == Seq::new(depots@.len(), |k: int| depots@[k]@[0]),
{
    let mut out: Vec<usize> = Vec::new();
    let mut i: usize = 0;
    while i < depots.len()
        invariant
            forall|k: int| 0 <= k < depots@.len() ==> (#[trigger] depots@[k])@.len() >= 1,
            i <= depots@.len(),
            out@ == Seq::new(i as nat, |k: int| depots@[k]@[0]),
        decreases depots@.len() - i,
    {
        proof {
            assert(depots@[i as int]@.len() >= 1);
        }
        out.push(depots[i][0]);
        proof {
            assert(out@ =~= Seq::new((i + 1) as nat, |k: int| depots@[k]@[0]));
        }
        i = i + 1;
    }
    out
}

/// The coordinates of each coordinate row: its first two literals.
fn coords_of(rows: &Vec<Vec<FloatLiteral>>) -> (r: Vec<Coord>)
    requires
        forall|k: int| 0 <= k < rows@.len() ==> (#[trigger] rows@[k])@.len() >= 2,
    ensures
        coords_text(r@) == Seq::new(rows@.len(), |k: int| (rows@[k]@[0]@, rows@[k]@[1]@)),
{
    let ghost want = Seq::new(rows@.len(), |k: int| (rows@[k]@[0]@, rows@[k]@[1]@));
    let mut out: Vec<Coord> = Vec::new();
    let mut i: usize = 0;
    while i < rows.len()
        invariant
            forall|k: int| 0 <= k < rows@.len() ==> (#[trigger] rows@[k])@.len() >= 2,
            want == Seq::new(rows@.len(), |k: int| (rows@[k]@[0]@, rows@[k]@[1]@)),
            i <= rows@.len(),
            coords_text(out@) == want.take(i as int),
        decreases rows@.len() - i,
    {
        let row = &rows[i];
        proof {
            assert(row@.len() >= 2);
        }
        let p = (row[0].clone(), row[1].clone());
        let ghost old = out@;
        out.push(p);
        proof {
            assert(coords_text(out@) =~= coords_text(old).push((p.0@, p.1@)));
            assert(coords_text(out@) =~= want.take(i + 1));
        }
        i = i + 1;
    }
    proof {
        assert(want.take(i as int) =~= want);
    }
    out
}

impl VRPInstanceBuilder<u64> {
    /// The builder for section data read from a VRPLib file: the depots are
    /// the depot rows' node numbers, the demands the demand rows' second
    /// entries, the coordinates the first two entries of each coordinate row,
    /// and the edge weights the rows as read.
    pub fn make_from_vrplib(section_data: SectionData<u64>) -> (r: Self)
        requires
            is_buildable_section_data(section_data@),
        ensures
            r@ == spec_make_from_vrplib(section_data@, coords_or_empty(r@.node_coords)),
            coords_text(coords_or_empty(r@.node_coords)) == section_coords_text(section_data@),
    {
        let ghost d = section_data@;
        let name = section_data.name.unwrap();
        let edge_weight_kind = EdgeWeightKind::new(
            section_data.edge_weight_type.unwrap(),
            section_data.edge_weight_format,
        ).unwrap();
        proof {
            assert forall|k: int| 0 <= k < section_data.depots@.len() implies (
            #[trigger] section_data.depots@[k])@.len() >= 1 by {
                assert(d.depots[k] == section_data.depots@[k]@);
            }
            assert forall|k: int| 0 <= k < section_data.node_coords@.len() implies (
            #[trigger] section_data.node_coords@[k])@.len() >= 2 by {
                assert(d.node_coords[k] == literals_view(section_data.node_coords@[k]@));
            }
        }
        let depots = depot_nodes(&section_data.depots);
        let node_coords = coords_of(&section_data.node_coords);
        proof {
            assert(depots@ =~= Seq::new(d.depots.len(), |k: int| d.depots[k][0]));
            assert(coords_text(node_coords@) =~= section_coords_text(d));
        }
        let mut demands: Vec<u64> = Vec::new();
        let mut i: usize = 0;
        while i < section_data.demands.len()
            invariant
                d == section_data@,
                is_buildable_section_data(d),
                i <= section_data.demands@.len(),
                demands@ == Seq::new(i as nat, |k: int| d.demands[k][1]),
            decreases section_data.demands@.len() - i,
        {
            proof {
                assert(d.demands[i as int] == section_data.demands@[i as int]@);
                assert(d.demands[i as int].len() >= 2);
            }
            demands.push(section_data.demands[i][1]);
            proof {
                assert(demands@ =~= Seq::new((i + 1) as nat, |k: int| d.demands[k][1]));
            }
            i = i + 1;
        }
        proof {
            lemma_u64_views(section_data.edge_weights@);
            assert(d.capacity == section_data.capacity);
        }
        let coords = if section_data.node_coords.len() == 0 {
            None
        } else {
            Some(node_coords)
        };
        let b = Self::new(
            name,
            section_data.problem_type.unwrap(),
            section_data.dimension.unwrap(),
            edge_weight_kind,
        ).depots(depots).capacity(section_data.capacity).demands(Some(demands)).node_coords(
            coords,
        ).edge_weights(Some(section_data.edge_weights));
        b
    }
}

/// `b` is the builder that literal section data `d` describe, with every
/// number converted by `value`: as `spec_make_from_vrplib` gives it, but
/// with the capacity, the demands and the edge weights values that `value`
/// may return for the literals of `d`.
pub open spec fn is_vrplib_builder_by<T, V: Fn(&FloatLiteral) -> T>(
    d: SectionData<FloatLiteral>,
    b: BuilderModel<T>,
    value: V,
) -> bool {
    let m = spec_make_from_vrplib(d@, coords_or_empty(b.node_coords));
    &&& coords_text(coords_or_empty(b.node_coords)) == section_coords_text(d@)
    &&& b.node_coords == m.node_coords
    &&& b.name == m.name
    &&& b.problem_type == m.problem_type
    &&& b.edge_weight_kind == m.edge_weight_kind
    &&& b.dimension == m.dimension
    &&& b.depots == m.depots
    &&& match d.capacity {
        Some(c) => b.capacity matches Some(x) && call_ensures(value, (&c,), x),
        None => b.capacity is None,
    }
    &&& b.demands matches Some(dm) && dm.len() == d.demands@.len() && forall|i: int|
        0 <= i < d.demands@.len() ==> call_ensures(value, (&d.demands@[i]@[1],), #[trigger] dm[i])
    &&& b.edge_weights matches Some(w) && is_converted_rows(d.edge_weights@, w, value)
    &&& b.vehicle_count is None
    &&& b.time_windows is None
    &&& b.service_times is None
}

impl<T> VRPInstanceBuilder<T> {
    /// The builder for literal section data read from a VRPLib file, as
    /// `make_from_vrplib` makes it, with `value` converting the capacity,
    /// the demands and the edge weights.
    pub fn make_from_vrplib_values<V: Fn(&FloatLiteral) -> T>(
        section_data: SectionData<FloatLiteral>,
        value: V,
    ) -> (r: Self)
        requires
            is_buildable_section_data(section_data@),
            forall|l: &FloatLiteral| value.requires((l,)),
        ensures
            is_vrplib_builder_by(section_data, r@, value),
    {
        let ghost sd = section_data;
        let ghost d = section_data@;
        proof {
            assert forall|k: int| 0 <= k < section_data.depots@.len() implies (
            #[trigger] section_data.depots@[k])@.len() >= 1 by {
                assert(d.depots[k] == section_data.depots@[k]@);
            }
            assert forall|k: int| 0 <= k < section_data.node_coords@.len() implies (
            #[trigger] section_data.node_coords@[k])@.len() >= 2 by {
                assert(d.node_coords[k] == literals_view(section_data.node_coords@[k]@));
            }
        }
        let edge_weight_kind = EdgeWeightKind::new(
            section_data.edge_weight_type.unwrap(),
            section_data.edge_weight_format,
        ).unwrap();
        let depots = depot_nodes(&section_data.depots);
        let node_coords = coords_of(&section_data.node_coords);
        let capacity = match &section_data.capacity {
            Some(c) => Some(value(c)),
            None => None,
        };
        let mut demands: Vec<T> = Vec::new();
        let mut i: usize = 0;
        while i < section_data.demands.len()
            invariant
                d == section_data@,
                sd == section_data,
                is_buildable_section_data(d),
                forall|l: &FloatLiteral| value.requires((l,)),
                i <= section_data.demands@.len(),
                demands@.len() == i,
                forall|k: int|
                    0 <= k < i ==> call_ensures(
                        value,
                        (&section_data.demands@[k]@[1],),
                        #[trigger] demands@[k],
                    ),
            decreases section_data.demands@.len() - i,
        {
            proof {
                assert(d.demands[i as int] == values_view(section_data.demands@[i as int]@));
                assert(d.demands[i as int].len() >= 2);
            }
            let x = value(&section_data.demands[i][1]);
            demands.push(x);
            i = i + 1;
        }
        let edge_weights = convert_rows(&section_data.edge_weights, &value);
        proof {
            assert(depots@ =~= Seq::new(d.depots.len(), |k: int| d.depots[k][0]));
            assert(coords_text(node_coords@) =~= section_coords_text(d));
            assert(coords_text(Seq::<Coord>::empty()) =~= Seq::empty());
        }
        let coords = if section_data.node_coords.len() == 0 {
            None
        } else {
            Some(node_coords)
        };
        let b = Self::new(
            section_data.name.unwrap(),
            section_data.problem_type.unwrap(),
            section_data.dimension.unwrap(),
            edge_weight_kind,
        ).depots(depots).capacity(capacity).demands(Some(demands)).node_coords(coords).edge_weights(
            Some(edge_weights),
        );
        proof {
            let c = coords_or_empty(b@.node_coords);
            let m = spec_make_from_vrplib(d, c);
            assert(coords_text(c) == section_coords_text(d));
            assert(b@.node_coords == m.node_coords);
            assert(b@.depots == m.depots);
        }
        b
    }
}

impl<T: Copy + Default> VRPInstanceBuilder<T> {
    /// Builds the instance: the edge weights are expanded from the lower
    /// triangle, taken as the full matrix, or, for `EUC_2D`, computed with
    /// `euc2d` between every ordered pair of node coordinates; then the data
    /// is checked (see `spec_build_check`).
    pub fn build<F: Fn(&Coord, &Coord) -> T>(self, euc2d: F) -> (r: Result<
        VRPInstance<T>,
        ValidationError,
    >)
        requires
            forall|p: &Coord, q: &Coord| euc2d.requires((p, q)),
            self@.edge_weight_kind == EdgeWeightKind::LowerRow && self@.edge_weights is Some
                ==> is_lower_triangle(self@.edge_weights->0) && self@.edge_weights->0.len()
                < usize::MAX,
        ensures
            match r {
                Ok(inst) => {
                    &&& spec_build_check(self@) is Ok
                    &&& has_builder_fields(self@, inst@)
                    &&& has_built_weights(self@, inst@, euc2d)
                    &&& is_square(inst@.edge_weights, inst@.dimension as int)
                },
                Err(e) => spec_build_check(self@) == Err::<(), ValidationError>(e),
            },
    {
        match self.edge_weight_kind {
            EdgeWeightKind::Euc2D => {
                if self.node_coords.is_none() {
                    return Err(ValidationError::MissingNodeCoords);
                }
            },
            EdgeWeightKind::LowerRow | EdgeWeightKind::FullMatrix => {
                if self.edge_weights.is_none() {
                    return Err(ValidationError::MissingEdgeWeight);
                }
            },
        }
        match self.edge_weight_kind {
            EdgeWeightKind::LowerRow => {
                let lower_rows = self.edge_weights.as_ref().unwrap().len();
                if self.dimension == 0 || lower_rows != self.dimension - 1 {
                    return Err(ValidationError::InvalidEdgeWeightsShape);
                }
            },
            EdgeWeightKind::FullMatrix => {
                if !is_square_matrix(self.edge_weights.as_ref().unwrap(), self.dimension) {
                    return Err(ValidationError::InvalidEdgeWeightsShape);
                }
            },
            EdgeWeightKind::Euc2D => {
                if self.node_coords.as_ref().unwrap().len() != self.dimension {
                    return Err(ValidationError::InvalidNodeCoordsLength);
                }
            },
        }
        if self.depots.len() == 0 {
            return Err(ValidationError::MissingDepots);
        }
        match self.problem_type {
            ProblemType::Cvrp | ProblemType::Cvrptw => {
                if self.capacity.is_none() {
                    return Err(ValidationError::MissingCapacity);
                }
                if self.demands.is_none() {
                    return Err(ValidationError::MissingDemands);
                }
                self.validate_demands()?;
            },
        }
        let VRPInstanceBuilder {
            name,
            problem_type,
            edge_weight_kind,
            dimension,
            depots,
            capacity,
            demands,
            node_coords,
            edge_weights,
            vehicle_count,
            time_windows,
            service_times,
        } = self;
        let weights: Vec<Vec<T>> = match edge_weight_kind {
            EdgeWeightKind::LowerRow => {
                let lower = edge_weights.unwrap();
                proof {
                    assert(rows_view(lower@) == lower@.map_values(|v: Vec<T>| v@));
                }
                expand_lower_row(lower.as_slice())
            },
            EdgeWeightKind::FullMatrix => edge_weights.unwrap(),
            EdgeWeightKind::Euc2D => {
                let coords = node_coords.as_ref().unwrap();
                euc2d_matrix(coords, &euc2d)
            },
        };
        Ok(
            VRPInstance::new(
                name,
                problem_type,
                dimension,
                depots,
                weights,
                capacity,
                demands,
                node_coords,
                vehicle_count,
                time_windows,
                service_times,
            ),
        )
    }
}

/// Whether `w` is an `n × n` matrix.
fn is_square_matrix<T>(w: &Vec<Vec<T>>, n: usize) -> (r: bool)
    ensures
        r == is_square(rows_view(w@), n as int),
{
    let ghost m = rows_view(w@);
    if w.len() != n {
        return false;
    }
    let mut i: usize = 0;
    while i < w.len()
        invariant
            i <= w@.len(),
            m == rows_view(w@),
            w@.len() == n,
            forall|k: int| 0 <= k < i ==> (#[trigger] m[k]).len() == n,
        decreases w@.len() - i,
    {
        proof {
            assert(m[i as int] == w@[i as int]@);
        }
        if w[i].len() != n {
            return false;
        }
        i = i + 1;
    }
    true
}

/// The matrix of `dist` over every ordered pair of coordinates.
fn euc2d_matrix<T, F: Fn(&Coord, &Coord) -> T>(coords: &Vec<Coord>, dist: &F) -> (r: Vec<Vec<T>>)
    requires
        forall|p: &Coord, q: &Coord| dist.requires((p, q)),
    ensures
        is_distance_matrix(coords@, rows_view(r@), *dist),
{
    let n = coords.len();
    let mut rows: Vec<Vec<T>> = Vec::new();
    let mut i: usize = 0;
    while i < n
        invariant
            n == coords@.len(),
            forall|p: &Coord, q: &Coord| dist.requires((p, q)),
            i <= n,
            rows@.len() == i,
            forall|a: int| 0 <= a < i ==> (#[trigger] rows@[a])@.len() == n,
            forall|a: int, c: int|
                0 <= a < i && 0 <= c < n ==> call_ensures(
                    *dist,
                    (&coords@[a], &coords@[c]),
                    #[trigger] rows@[a]@[c],
                ),
        decreases n - i,
    {
        let mut row: Vec<T> = Vec::new();
        let mut j: usize = 0;
        while j < n
            invariant
                n == coords@.len(),
                forall|p: &Coord, q: &Coord| dist.requires((p, q)),
                i < n,
                j <= n,
                row@.len() == j,
                forall|c: int|
                    0 <= c < j ==> call_ensures(*dist, (&coords@[i as int], &coords@[c]), #[trigger] row@[c]),
            decreases n - j,
        {
            let w = dist(&coords[i], &coords[j]);
            row.push(w);
            j = j + 1;
        }
        rows.push(row);
        i = i + 1;
    }
    proof {
        let m = rows_view(rows@);
        assert forall|a: int| 0 <= a < n implies (#[trigger] m[a]).len() == n by {
            assert(m[a] == rows@[a]@);
        }
        assert forall|a: int, c: int|
            0 <= a < n && 0 <= c < n implies call_ensures(*dist, (&coords@[a], &coords@[c]), #[trigger] m[a][c]) by {
            assert(m[a] == rows@[a]@);
        }
    }
    rows
}

impl<T> VRPInstance<T> {
    /// An instance with exactly the given data.
    pub fn new(
        name: String,
        problem_type: ProblemType,
        dimension: usize,
        depots: Vec<usize>,
        edge_weights: Vec<Vec<T>>,
        capacity: Option<T>,
        demands: Option<Vec<T>>,
        node_coords: Option<Vec<Coord>>,
        vehicle_count: Option<usize>,
        time_windows: Option<Vec<(T, T)>>,
        service_times: Option<Vec<T>>,
    ) -> (r: Self)
        ensures
            r@ == (InstanceModel::<T> {
                name: name@,
                problem_type,
                dimension,
                depots: depots@,
                edge_weights: rows_view(edge_weights@),
                capacity,
                demands: opt_vec_view(demands),
                node_coords: opt_vec_view(node_coords),
                vehicle_count,
                time_windows: opt_vec_view(time_windows),
                service_times: opt_vec_view(service_times),
            }),
    {
        Self {
            name,
            problem_type,
            dimension,
            depots,
            edge_weights,
            capacity,
            demands,
            node_coords,
            vehicle_count,
            time_windows,
            service_times,
        }
    }

    /// The name of the instance.
    pub fn name(&self) -> (r: &str)
        ensures
            r@ == self@.name,
    {
        self.name.as_str()
    }

    /// The problem type of the instance.
    pub fn problem_type(&self) -> (r: ProblemType)
        ensures
            r == self@.problem_type,
    {
        self.problem_type
    }

    /// The number of nodes of the instance.
    pub fn dimension(&self) -> (r: usize)
        ensures
            r == self@.dimension,
    {
        self.dimension
    }

    /// The node coordinates, if the instance has them.
    pub fn node_coords(&self) -> (r: &Option<Vec<Coord>>)
        ensures
            opt_vec_view(*r) == self@.node_coords,
    {
        &self.node_coords
    }

    /// The coordinates of `node`, if the instance has coordinates and `node`
    /// is one of its nodes.
    pub fn get_node_coord(&self, node: usize) -> (r: Option<&Coord>)
        ensures
            match self@.node_coords {
                Some(c) => if node < c.len() {
                    r == Some(&c[node as int])
                } else {
                    r is None
                },
                None => r is None,
            },
    {
        match &self.node_coords {
            Some(c) => if node < c.len() {
                Some(&c[node])
            } else {
                None
            },
            None => None,
        }
    }

    /// The demand of each node, if the instance has demands.
    pub fn demands(&self) -> (r: &Option<Vec<T>>)
        ensures
            opt_vec_view(*r) == self@.demands,
    {
        &self.demands
    }

    /// The demand of `node`, if the instance has demands and `node` is one of
    /// its nodes.
    pub fn get_demand(&self, node: usize) -> (r: Option<&T>)
        ensures
            match self@.demands {
                Some(d) => if node < d.len() {
                    r == Some(&d[node as int])
                } else {
                    r is None
                },
                None => r is None,
            },
    {
        match &self.demands {
            Some(d) => if node < d.len() {
                Some(&d[node])
            } else {
                None
            },
            None => None,
        }
    }

    /// The vehicle capacity, if the instance has one.
    pub fn capacity(&self) -> (r: &Option<T>)
        ensures
            *r == self@.capacity,
    {
        &self.capacity
    }

    /// The depot nodes.
    pub fn depots(&self) -> (r: &[usize])
        ensures
            r@ == self@.depots,
    {
        self.depots.as_slice()
    }

    /// The full edge-weight matrix.
    pub fn edge_weights(&self) -> (r: &[Vec<T>])
        ensures
            rows_view(r@) == self@.edge_weights,
    {
        self.edge_weights.as_slice()
    }

    /// The weight of the edge from `from` to `to`, if both are within the
    /// matrix.
    pub fn get_edge_weight(&self, from: usize, to: usize) -> (r: Option<&T>)
        ensures
            if from < self@.edge_weights.len() && to < self@.edge_weights[from as int].len() {
                r == Some(&self@.edge_weights[from as int][to as int])
            } else {
                r is None
            },
    {
        if from < self.edge_weights.len() {
            let row = &self.edge_weights[from];
            proof {
                assert(self@.edge_weights[from as int] == row@);
            }
            if to < row.len() {
                Some(&row[to])
            } else {
                None
            }
        } else {
            None
        }
    }

    /// The number of vehicles, if the instance gives it.
    pub fn vehicle_count(&self) -> (r: Option<usize>)
        ensures
            r == self@.vehicle_count,
    {
        self.vehicle_count
    }

    /// The time window of each node, if the instance has them.
    pub fn time_windows(&self) -> (r: &Option<Vec<(T, T)>>)
        ensures
            opt_vec_view(*r) == self@.time_windows,
    {
        &self.time_windows
    }

    /// The service time of each node, if the instance has them.
    pub fn service_times(&self) -> (r: &Option<Vec<T>>)
        ensures
            opt_vec_view(*r) == self@.service_times,
    {
        &self.service_times
    }
}

} // verus!
