//! Reading a Solomon instance from the lines of its file.
use vstd::prelude::*;

use super::lexer::{spec_tokenize, tokenize};
use super::parser::{
    SolomonData, SolomonModel, lemma_one_entry_per_node, parse, spec_solomon_parse,
};
use crate::error::LoadError;
use crate::instance::{
    BuilderModel, Coord, InstanceModel, VRPInstance, VRPInstanceBuilder, coords_text,
    has_builder_fields, has_built_weights, is_distance_matrix, spec_build_check,
};
use crate::model::{EdgeWeightKind, ProblemType};
use crate::numeric::FloatLiteral;
use crate::text::strings_view;
use crate::vrplib::parser::literals_view;
use crate::convert::{convert_all, convert_pairs, is_converted, is_converted_pairs};

verus! {

/// The builder of a Solomon instance: a CVRPTW instance named as the file,
/// with one node per customer row, node 0 as its only depot, edge weights
/// computed from the node coordinates, and every number converted by
/// `value`.
pub open spec fn is_solomon_builder<T, V: Fn(&FloatLiteral) -> T>(
    data: SolomonData,
    b: BuilderModel<T>,
    value: V,
) -> bool {
    &&& b.name == data.name@
    &&& b.problem_type == ProblemType::Cvrptw
    &&& b.edge_weight_kind == EdgeWeightKind::Euc2D
    &&& b.dimension == data.node_coords@.len()
    &&& b.depots == seq![0usize]
    &&& b.capacity matches Some(c) && call_ensures(value, (&data.capacity,), c)
    &&& b.demands matches Some(d) && is_converted(data.demands@, d, value)
    &&& b.node_coords == Some(data.node_coords@)
    &&& b.edge_weights is None
    &&& b.vehicle_count == Some(data.vehicle_count)
    &&& b.time_windows matches Some(w) && is_converted_pairs(data.time_windows@, w, value)
    &&& b.service_times matches Some(s) && is_converted(data.service_times@, s, value)
}

/// The builder for the data of a Solomon file (see `is_solomon_builder`).
pub fn make_from_solomon<T, V: Fn(&FloatLiteral) -> T>(data: SolomonData, value: V) -> (r:
    VRPInstanceBuilder<T>)
    requires
        forall|l: &FloatLiteral| value.requires((l,)),
    ensures
        is_solomon_builder(data, r@, value),
{
    let ghost d = data;
    let capacity = value(&data.capacity);
    let demands = convert_all(&data.demands, &value);
    let time_windows = convert_pairs(&data.time_windows, &value);
    let service_times = convert_all(&data.service_times, &value);
    let dimension = data.node_coords.len();
    let b = VRPInstanceBuilder::new(
        data.name,
        ProblemType::Cvrptw,
        dimension,
        EdgeWeightKind::Euc2D,
    ).depots(vec![0]).capacity(Some(capacity)).demands(Some(demands)).vehicle_count(
        Some(data.vehicle_count),
    ).time_windows(Some(time_windows)).service_times(Some(service_times)).node_coords(
        Some(data.node_coords),
    );
    proof {
        assert(b@.depots =~= seq![0usize]);
    }
    b
}

/// `inst` is the instance that the data `m` of a Solomon file describe:
/// named as the file, CVRPTW, with one node per customer row whose
/// coordinates are the rows' texts, node 0 as the depot, every number
/// converted by `value`, and the distances by `dist` between the nodes'
/// coordinates as edge weights.
pub open spec fn is_solomon_instance_of<T, V: Fn(&FloatLiteral) -> T, F: Fn(&Coord, &Coord) -> T>(
    m: SolomonModel,
    inst: InstanceModel<T>,
    value: V,
    dist: F,
) -> bool {
    &&& inst.name == m.name
    &&& inst.problem_type == ProblemType::Cvrptw
    &&& inst.dimension == m.node_coords.len()
    &&& inst.depots == seq![0usize]
    &&& inst.vehicle_count == Some(m.vehicle_count)
    &&& inst.node_coords matches Some(c) && coords_text(c) == m.node_coords
    &&& inst.capacity matches Some(cap) && exists|l: FloatLiteral|
        l@ == m.capacity && call_ensures(value, (&l,), cap)
    &&& inst.demands matches Some(dm) && exists|s: Seq<FloatLiteral>|
        literals_view(s) == m.demands && is_converted(s, dm, value)
    &&& inst.time_windows matches Some(w) && exists|s: Seq<(FloatLiteral, FloatLiteral)>|
        coords_text(s) == m.time_windows && is_converted_pairs(s, w, value)
    &&& inst.service_times matches Some(st) && exists|s: Seq<FloatLiteral>|
        literals_view(s) == m.service_times && is_converted(s, st, value)
    &&& is_distance_matrix(inst.node_coords->0, inst.edge_weights, dist)
}

/// Reads a Solomon instance from the lines of its file: the lines become
/// tokens, the tokens the file's data, and the data the instance, with
/// `value` converting its numbers and `dist` giving the weight between two
/// nodes' coordinates. It fails only where the tokens are no Solomon data.
pub fn read_from_solomon<T: Copy + Default, V: Fn(&FloatLiteral) -> T, F: Fn(&Coord, &Coord) -> T>(
    lines: &[String],
    value: V,
    dist: F,
) -> (r: Result<VRPInstance<T>, LoadError>)
    requires
        forall|l: &FloatLiteral| value.requires((l,)),
        forall|p: &Coord, q: &Coord| dist.requires((p, q)),
    ensures
        match spec_solomon_parse(spec_tokenize(strings_view(lines@))) {
            Err(e) => r matches Err(LoadError::Solomon(e2)) && e2 == e,
            Ok(m) => r matches Ok(inst) && is_solomon_instance_of(m, inst@, value, dist),
        },
{
    let tokens = tokenize(lines);
    let data = match parse(tokens.as_slice()) {
        Ok(d) => d,
        Err(e) => {
            return Err(LoadError::Solomon(e));
        },
    };
    let ghost m = data@;
    proof {
        lemma_one_entry_per_node(spec_tokenize(strings_view(lines@)));
        assert(literals_view(data.demands@).len() == data.demands@.len());
        assert(coords_text(data.node_coords@).len() == data.node_coords@.len());
    }
    let ghost cap = data.capacity;
    let ghost dem = data.demands@;
    let ghost tw = data.time_windows@;
    let ghost st = data.service_times@;
    let builder = make_from_solomon(data, value);
    assert(spec_build_check(builder@) is Ok);
    match builder.build(dist) {
        Ok(inst) => {
            proof {
                assert(cap@ == m.capacity);
            }
            Ok(inst)
        },
        Err(e) => Err(LoadError::Validation(e)),
    }
}

} // verus!
