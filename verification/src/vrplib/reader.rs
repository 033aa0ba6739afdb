//! Reading a VRPLib instance from the lines of its file.
use vstd::prelude::*;

use super::error::VrplibError;
use super::lexer::{spec_tokenize_lines, tokenize_lines};
use super::parser::{
    ParseError, SectionData, SectionModel, is_demand_nodes_by, is_parse_result_by,
    is_text_of_numbers, lemma_u64_reading_reads_as_literals, parse, parse_with, spec_parse,
    spec_parse_tokens, spec_u64_demand_nodes, spec_validate_edge_weights, spec_validate_format,
    values_view,
};
use super::token::tokens_view;
use super::token::TokenError;
use super::types::{EdgeWeightFormat, EdgeWeightType};
use crate::error::LoadError;
use crate::instance::{
    BuilderModel, Coord, InstanceModel, VRPInstance, VRPInstanceBuilder, coords_text,
    ValidationError, coord_slots, coords_or_empty, has_builder_fields, lemma_same_build_check, has_built_weights,
    is_buildable_section_data, is_square, is_vrplib_builder_by, section_coords_text,
    spec_build_check, spec_make_from_vrplib,
};
use crate::numeric::{FloatLiteral, spec_parse_u64};
use crate::convert::is_converted;
use crate::matrix::is_lower_triangle;
use crate::model::{EdgeWeightKind, spec_edge_weight_kind};
use crate::text::strings_view;

verus! {

/// `inst` is the instance that section data `d` describe: its coordinates
/// are the texts of `d`'s coordinate rows (none where `d` has no coordinate
/// row), its other fields those of the builder made from `d`, and its edge
/// weights those its kind calls for, the distances by `dist` for `EUC_2D`.
pub open spec fn is_vrplib_instance_of<F: Fn(&Coord, &Coord) -> u64>(
    d: SectionModel<u64>,
    inst: InstanceModel<u64>,
    dist: F,
) -> bool {
    let c = coords_or_empty(inst.node_coords);
    &&& coords_text(c) == section_coords_text(d)
    &&& has_builder_fields(spec_make_from_vrplib(d, c), inst)
    &&& has_built_weights(spec_make_from_vrplib(d, c), inst, dist)
}

/// The first check that the builder made from section data `d` fails, if
/// any.
pub open spec fn spec_vrplib_build_check<V>(d: SectionModel<V>) -> Result<(), ValidationError> {
    spec_build_check(spec_make_from_vrplib(d, coord_slots(d.node_coords.len())))
}

/// What reading the lines of a VRPLib file gives: the first line that is no
/// token, else the first error of the token stream, else the first check the
/// data fail, else the instance they describe.
pub open spec fn is_vrplib_read_result<F: Fn(&Coord, &Coord) -> u64>(
    lines: Seq<Seq<char>>,
    r: Result<VRPInstance<u64>, LoadError>,
    dist: F,
) -> bool {
    match spec_tokenize_lines(lines) {
        Err(k) => r matches Err(LoadError::Vrplib(VrplibError::Token(TokenError::UnknownKey(s))))
            && s@ == k,
        Ok(toks) => match spec_parse(toks) {
            Err(e) => r matches Err(LoadError::Vrplib(VrplibError::Parse(e2))) && e2 == e,
            Ok(d) => match spec_vrplib_build_check(d) {
                Err(e) => r matches Err(LoadError::Validation(e2)) && e2 == e,
                Ok(_) => r matches Ok(inst) && is_vrplib_instance_of(d, inst@, dist),
            },
        },
    }
}

proof fn lemma_tokenize_lines_len(ls: Seq<Seq<char>>)
    ensures
        spec_tokenize_lines(ls) matches Ok(ts) ==> ts.len() == ls.len(),
    decreases ls.len(),
{
    if ls.len() > 0 {
        lemma_tokenize_lines_len(ls.drop_last());
    }
}

/// Section data that pass the checks can be made into a builder, and that
/// builder can be built, its weights and coordinates fitting the dimension;
/// `nodes` are the node numbers of the demand rows, given only for rows of
/// two entries.
proof fn lemma_valid_data_buildable<V>(d: SectionModel<V>, nodes: Seq<Option<usize>>)
    requires
        spec_validate_format(d, nodes) is Ok,
        nodes.len() == d.demands.len(),
        forall|i: int| 0 <= i < nodes.len() && (#[trigger] nodes[i]) is Some ==> d.demands[i].len() == 2,
    ensures
        is_buildable_section_data(d),
        spec_edge_weight_kind(d.edge_weight_type->0, d.edge_weight_format) == Some(
            EdgeWeightKind::LowerRow,
        ) ==> is_lower_triangle(d.edge_weights) && d.edge_weights.len() < usize::MAX
            && d.edge_weights.len() + 1 == d.dimension->0,
        spec_edge_weight_kind(d.edge_weight_type->0, d.edge_weight_format) == Some(
            EdgeWeightKind::FullMatrix,
        ) ==> is_square(d.edge_weights, d.dimension->0 as int),
        spec_edge_weight_kind(d.edge_weight_type->0, d.edge_weight_format) == Some(
            EdgeWeightKind::Euc2D,
        ) ==> d.node_coords.len() == d.dimension->0,
        d.node_coords.len() != 0 ==> d.node_coords.len() == d.dimension->0,
{
    assert forall|i: int| 0 <= i < d.depots.len() implies (#[trigger] d.depots[i]).len() >= 1 by {
        assert(d.depots[i].len() == 1);
    }
    assert forall|i: int| 0 <= i < d.demands.len() implies (#[trigger] d.demands[i]).len() >= 2 by {
        assert(nodes[i] is Some);
    }
    assert forall|i: int| 0 <= i < d.node_coords.len() implies (#[trigger] d.node_coords[i]).len()
        >= 2 by {
        assert(d.node_coords[i].len() == 2);
    }
}

/// Reads a VRPLib instance from the lines of its file: each line becomes a
/// token, the tokens become checked section data, the data a builder, and
/// the builder the instance, with `euc2d` giving the weights of an `EUC_2D`
/// instance from its node coordinates.
pub fn read_from_vrplib<F: Fn(&Coord, &Coord) -> u64>(lines: &Vec<String>, euc2d: F) -> (r: Result<
    VRPInstance<u64>,
    LoadError,
>)
    requires
        lines@.len() < usize::MAX,
        forall|p: &Coord, q: &Coord| euc2d.requires((p, q)),
    ensures
        is_vrplib_read_result(strings_view(lines@), r, euc2d),
{
    let ghost ls = strings_view(lines@);
    let tokens = match tokenize_lines(lines) {
        Ok(t) => t,
        Err(e) => {
            return Err(LoadError::Vrplib(VrplibError::Token(e)));
        },
    };
    proof {
        lemma_tokenize_lines_len(ls);
    }
    let parsed = match parse(tokens.as_slice()) {
        Ok(d) => d,
        Err(e) => {
            return Err(LoadError::Vrplib(VrplibError::Parse(e)));
        },
    };
    let ghost d = parsed@;
    proof {
        let nodes = spec_u64_demand_nodes(d.demands);
        assert forall|i: int| 0 <= i < nodes.len() && (#[trigger] nodes[i]) is Some implies d.demands[i].len() == 2 by {}
        lemma_valid_data_buildable(d, nodes);
    }
    let builder = VRPInstanceBuilder::make_from_vrplib(parsed);
    let ghost b = builder@;
    proof {
        let c = coords_or_empty(b.node_coords);
        assert(coords_text(c).len() == c.len());
        lemma_same_build_check(b, spec_make_from_vrplib(d, coord_slots(d.node_coords.len())));
    }
    match builder.build(euc2d) {
        Ok(instance) => Ok(instance),
        Err(e) => Err(LoadError::Validation(e)),
    }
}

/// What reading the lines of a VRPLib file with literal numbers gives: the
/// first line that is no token; else, for a result of reading the token
/// stream with node numbers that `node_of` may give, its error, or the first
/// check that the builder of its data fails, or an instance built from a
/// builder of its data whose numbers `value` converted, with `dist` giving
/// the weights of an `EUC_2D` instance.
pub open spec fn is_vrplib_values_read_result<
    T: Default,
    V: Fn(&FloatLiteral) -> T,
    K: Fn(&FloatLiteral) -> usize,
    D: Fn(&Coord, &Coord) -> T,
>(
    lines: Seq<Seq<char>>,
    r: Result<VRPInstance<T>, LoadError>,
    value: V,
    node_of: K,
    dist: D,
) -> bool {
    match spec_tokenize_lines(lines) {
        Err(k) => r matches Err(LoadError::Vrplib(VrplibError::Token(TokenError::UnknownKey(s))))
            && s@ == k,
        Ok(toks) => exists|p: Result<SectionData<FloatLiteral>, ParseError>|
            #[trigger] is_parse_result_by(toks, p, node_of) && match p {
                Err(e) => r matches Err(LoadError::Vrplib(VrplibError::Parse(e2))) && e2 == e,
                Ok(d) => match spec_vrplib_build_check(d@) {
                    Err(e) => r matches Err(LoadError::Validation(e2)) && e2 == e,
                    Ok(_) => r matches Ok(inst) && exists|b: BuilderModel<T>|
                        #[trigger] is_vrplib_builder_by(d, b, value) && has_builder_fields(
                            b,
                            inst@,
                        ) && has_built_weights(b, inst@, dist),
                },
            },
    }
}

/// Reads a VRPLib instance from the lines of its file with its numbers kept
/// as literals: each line becomes a token, the tokens become section data
/// checked with `node_of` giving the node number of a demand row, the data a
/// builder whose numbers `value` converts, and the builder the instance,
/// with `dist` giving the weights of an `EUC_2D` instance.
pub fn read_from_vrplib_values<
    T: Copy + Default,
    V: Fn(&FloatLiteral) -> T,
    K: Fn(&FloatLiteral) -> usize,
    D: Fn(&Coord, &Coord) -> T,
>(lines: &Vec<String>, value: V, node_of: K, dist: D) -> (r: Result<VRPInstance<T>, LoadError>)
    requires
        lines@.len() < usize::MAX,
        forall|l: &FloatLiteral| value.requires((l,)),
        forall|l: &FloatLiteral| node_of.requires((l,)),
        forall|p: &Coord, q: &Coord| dist.requires((p, q)),
    ensures
        is_vrplib_values_read_result(strings_view(lines@), r, value, node_of, dist),
{
    let ghost ls = strings_view(lines@);
    let tokens = match tokenize_lines(lines) {
        Ok(t) => t,
        Err(e) => {
            return Err(LoadError::Vrplib(VrplibError::Token(e)));
        },
    };
    let ghost toks = tokens_view(tokens@);
    proof {
        lemma_tokenize_lines_len(ls);
    }
    let parsed = parse_with::<FloatLiteral, K>(tokens.as_slice(), node_of);
    let ghost p = parsed;
    let data = match parsed {
        Ok(d) => d,
        Err(e) => {
            proof {
                assert(is_parse_result_by(toks, p, node_of));
            }
            return Err(LoadError::Vrplib(VrplibError::Parse(e)));
        },
    };
    let ghost sd = data;
    proof {
        assert(is_parse_result_by(toks, p, node_of));
        let m = spec_parse_tokens::<FloatLiteral>(toks)->Ok_0;
        let (d2, nodes) = choose|d2: SectionData<FloatLiteral>, nodes: Seq<Option<usize>>|
            #![trigger is_demand_nodes_by(d2.demands@, nodes, node_of)]
            d2@ == m && is_demand_nodes_by(d2.demands@, nodes, node_of) && match spec_validate_format(
                m,
                nodes,
            ) {
                Err(e) => p == Err::<SectionData<FloatLiteral>, ParseError>(e),
                Ok(_) => p == Ok::<SectionData<FloatLiteral>, ParseError>(d2),
            };
        assert(d2 == sd);
        assert forall|i: int| 0 <= i < nodes.len() && (#[trigger] nodes[i]) is Some implies sd@.demands[i].len() == 2 by {
            assert(sd@.demands[i] == values_view(sd.demands@[i]@));
        }
        lemma_valid_data_buildable(sd@, nodes);
    }
    let builder = VRPInstanceBuilder::make_from_vrplib_values(data, value);
    let ghost b = builder@;
    proof {
        let c = coords_or_empty(b.node_coords);
        assert(coords_text(c).len() == c.len());
        let w = b.edge_weights->0;
        assert forall|k: int| 0 <= k < w.len() implies (#[trigger] w[k]).len()
            == sd@.edge_weights[k].len() by {
            assert(sd@.edge_weights[k] == values_view(sd.edge_weights@[k]@));
            assert(is_converted(sd.edge_weights@[k]@, w[k], value));
        }
        lemma_same_build_check(b, spec_make_from_vrplib(sd@, coord_slots(sd@.node_coords.len())));
        if b.edge_weight_kind == EdgeWeightKind::LowerRow {
            let w = b.edge_weights->0;
            assert forall|k: int| 0 <= k < w.len() implies #[trigger] w[k].len() >= k + 1 by {
                assert(sd@.edge_weights[k] == values_view(sd.edge_weights@[k]@));
                assert(w[k].len() == sd.edge_weights@[k]@.len());
            }
        }
    }
    match builder.build(dist) {
        Ok(instance) => {
            proof {
                assert(is_vrplib_builder_by(sd, b, value));
            }
            Ok(instance)
        },
        Err(e) => Err(LoadError::Validation(e)),
    }
}

/// An instance read from a VRPLib file is complete: its edge-weight matrix
/// is `dimension × dimension` whatever form the file gave it in; it has a
/// capacity and one demand per node; it has at least one depot, and every
/// depot is a node number from 1 to `dimension`; and it has either no
/// coordinates (the file has no coordinate row) or one pair per node.
pub proof fn lemma_read_instance_is_complete<F: Fn(&Coord, &Coord) -> u64>(
    lines: Seq<Seq<char>>,
    instance: VRPInstance<u64>,
    dist: F,
)
    requires
        is_vrplib_read_result(lines, Ok(instance), dist),
    ensures
        ({
            let inst = instance@;
            &&& inst.edge_weights.len() == inst.dimension
            &&& forall|i: int|
                0 <= i < inst.dimension ==> (#[trigger] inst.edge_weights[i]).len() == inst.dimension
            &&& inst.capacity is Some
            &&& inst.demands matches Some(dm) && dm.len() == inst.dimension
            &&& inst.depots.len() > 0
            &&& forall|i: int|
                0 <= i < inst.depots.len() ==> 1 <= #[trigger] inst.depots[i] <= inst.dimension
            &&& inst.node_coords matches Some(c) ==> c.len() == inst.dimension
        }),
{
    let toks = spec_tokenize_lines(lines)->Ok_0;
    let d = spec_parse(toks)->Ok_0;
    let inst = instance@;
    let c = coords_or_empty(inst.node_coords);
    let b = spec_make_from_vrplib(d, c);
    let nodes = spec_u64_demand_nodes(d.demands);
    assert(spec_validate_format(d, nodes) is Ok);
    assert forall|i: int| 0 <= i < nodes.len() && (#[trigger] nodes[i]) is Some implies d.demands[i].len() == 2 by {}
    lemma_valid_data_buildable(d, nodes);
    assert(coords_text(c).len() == c.len());
    lemma_same_build_check(b, spec_make_from_vrplib(d, coord_slots(d.node_coords.len())));
    let n = d.dimension->0;
    assert forall|i: int| 0 <= i < inst.depots.len() implies 1 <= #[trigger] inst.depots[i] <= n by {
        assert(inst.depots[i] == d.depots[i][0]);
        assert(d.depots[i].len() == 1);
    }
    assert(coords_text(c).len() == c.len());
    assert(section_coords_text(d).len() == d.node_coords.len());
    match b.edge_weight_kind {
        EdgeWeightKind::LowerRow => {
            assert(d.edge_weight_type->0 == EdgeWeightType::Explicit);
            assert(d.edge_weight_format == Some(EdgeWeightFormat::LowerRow));
        },
        EdgeWeightKind::FullMatrix => {
            assert(d.edge_weight_type->0 == EdgeWeightType::Explicit);
            assert(d.edge_weight_format == Some(EdgeWeightFormat::FullMatrix));
        },
        EdgeWeightKind::Euc2D => {
            assert(d.edge_weight_type->0 == EdgeWeightType::Euc2D);
        },
    }
}

/// `v` is a value that `value` may return for a literal whose text reads as
/// the `u64` `x`.
pub open spec fn is_value_of_number<T, V: Fn(&FloatLiteral) -> T>(value: V, x: u64, v: T) -> bool {
    exists|l: FloatLiteral| spec_parse_u64(l@) == Some(x) && #[trigger] call_ensures(value, (&l,), v)
}

/// `j`, an instance read with literal numbers that `value` converted, is
/// `i`, the instance read from the same file with `u64` numbers, but for how
/// its numbers are held: the name, problem type, dimension, depots and
/// coordinate texts are `i`'s, its capacity and each demand are values of
/// literals that read as `i`'s, and its edge-weight matrix has `i`'s shape.
pub open spec fn is_values_instance_of<T, V: Fn(&FloatLiteral) -> T>(
    j: InstanceModel<T>,
    i: InstanceModel<u64>,
    value: V,
) -> bool {
    &&& j.name == i.name
    &&& j.problem_type == i.problem_type
    &&& j.dimension == i.dimension
    &&& j.depots == i.depots
    &&& (j.node_coords is Some <==> i.node_coords is Some)
    &&& coords_text(coords_or_empty(j.node_coords)) == coords_text(coords_or_empty(i.node_coords))
    &&& j.capacity matches Some(cj) && i.capacity matches Some(ci) && is_value_of_number(
        value,
        ci,
        cj,
    )
    &&& j.demands matches Some(dj) && i.demands matches Some(di) && dj.len() == di.len() && forall|
        k: int,
    | 0 <= k < dj.len() ==> is_value_of_number(value, di[k], #[trigger] dj[k])
    &&& j.edge_weights.len() == i.edge_weights.len()
    &&& forall|k: int|
        0 <= k < j.edge_weights.len() ==> (#[trigger] j.edge_weights[k]).len()
            == i.edge_weights[k].len()
}

/// A VRPLib file that reads with `u64` numbers reads with literal numbers
/// too, into the same instance but for how its numbers are held (see
/// `is_values_instance_of`; where the file gives the edge weights
/// explicitly, each weight off the diagonal is a value of the literal that
/// reads as the `u64` weight at its place), wherever `node_of` takes a
/// literal that reads as a `u64` to that `u64` as a `usize`: loading the
/// numbers of a file as values of another type changes nothing else of the
/// instance.
pub proof fn lemma_u64_read_reads_as_values<
    T: Default,
    V: Fn(&FloatLiteral) -> T,
    K: Fn(&FloatLiteral) -> usize,
    Du: Fn(&Coord, &Coord) -> u64,
    Dv: Fn(&Coord, &Coord) -> T,
>(
    lines: Seq<Seq<char>>,
    i: VRPInstance<u64>,
    r: Result<VRPInstance<T>, LoadError>,
    dist_u: Du,
    value: V,
    node_of: K,
    dist_v: Dv,
)
    requires
        is_vrplib_read_result(lines, Ok(i), dist_u),
        is_vrplib_values_read_result(lines, r, value, node_of, dist_v),
        forall|l: FloatLiteral, n: usize|
            #[trigger] call_ensures(node_of, (&l,), n) && spec_parse_u64(l@) is Some ==> n == (
            #[verifier::truncate] (spec_parse_u64(l@)->0 as usize)),
    ensures
        r matches Ok(j) && is_values_instance_of(j@, i@, value),
        spec_parse(spec_tokenize_lines(lines)->Ok_0)->Ok_0.edge_weight_type == Some(
            EdgeWeightType::Explicit,
        ) ==> forall|row: int, col: int|
            0 <= row < i@.edge_weights.len() && 0 <= col < i@.edge_weights.len() && row != col
                ==> is_value_of_number(
                value,
                i@.edge_weights[row][col],
                #[trigger] (r->Ok_0)@.edge_weights[row][col],
            ),
{
    let toks = spec_tokenize_lines(lines)->Ok_0;
    let a = spec_parse(toks)->Ok_0;
    let u_nodes = spec_u64_demand_nodes(a.demands);
    lemma_u64_reading_reads_as_literals(toks, u_nodes);
    let b = spec_parse_tokens::<FloatLiteral>(toks)->Ok_0;
    let p = choose|p: Result<SectionData<FloatLiteral>, ParseError>|
        #[trigger] is_parse_result_by(toks, p, node_of) && match p {
            Err(e) => r matches Err(LoadError::Vrplib(VrplibError::Parse(e2))) && e2 == e,
            Ok(d) => match spec_vrplib_build_check(d@) {
                Err(e) => r matches Err(LoadError::Validation(e2)) && e2 == e,
                Ok(_) => r matches Ok(inst) && exists|bb: BuilderModel<T>|
                    #[trigger] is_vrplib_builder_by(d, bb, value) && has_builder_fields(
                        bb,
                        inst@,
                    ) && has_built_weights(bb, inst@, dist_v),
            },
        };
    let (d, nodes) = choose|d: SectionData<FloatLiteral>, nodes: Seq<Option<usize>>|
        #![trigger is_demand_nodes_by(d.demands@, nodes, node_of)]
        d@ == b && is_demand_nodes_by(d.demands@, nodes, node_of) && match spec_validate_format(
            b,
            nodes,
        ) {
            Err(e) => p == Err::<SectionData<FloatLiteral>, ParseError>(e),
            Ok(_) => p == Ok::<SectionData<FloatLiteral>, ParseError>(d),
        };
    assert forall|k: int| 0 <= k < nodes.len() implies #[trigger] nodes[k] == u_nodes[k] by {
        assert(b.demands[k] == values_view(d.demands@[k]@));
        assert(is_text_of_numbers(b.demands[k], a.demands[k]));
        if nodes[k] is Some {
            let l = d.demands@[k]@[0];
            assert(l@ == b.demands[k][0]);
            assert(spec_parse_u64(b.demands[k][0]) == Some(a.demands[k][0]));
        }
    }
    assert(nodes =~= u_nodes);
    assert(p == Ok::<SectionData<FloatLiteral>, ParseError>(d));
    let mb = spec_make_from_vrplib(b, coord_slots(b.node_coords.len()));
    let ma = spec_make_from_vrplib(a, coord_slots(a.node_coords.len()));
    lemma_same_build_check(mb, ma);
    let j = r->Ok_0;
    let bb = choose|bb: BuilderModel<T>|
        #[trigger] is_vrplib_builder_by(d, bb, value) && has_builder_fields(bb, j@)
            && has_built_weights(bb, j@, dist_v);
    let ci = coords_or_empty(i@.node_coords);
    let cj = coords_or_empty(j@.node_coords);
    assert(j@.depots =~= i@.depots);
    assert(is_value_of_number(value, i@.capacity->0, j@.capacity->0)) by {
        let l = d.capacity->0;
        assert(spec_parse_u64(l@) == a.capacity);
    }
    assert forall|k: int| 0 <= k < j@.demands->0.len() implies is_value_of_number(
        value,
        i@.demands->0[k],
        #[trigger] j@.demands->0[k],
    ) by {
        assert(u_nodes[k] matches Some(n) && n == k + 1);
        let l = d.demands@[k]@[1];
        assert(b.demands[k] == values_view(d.demands@[k]@));
        assert(is_text_of_numbers(b.demands[k], a.demands[k]));
        assert(l@ == b.demands[k][1]);
        assert(spec_parse_u64(l@) == Some(a.demands[k][1]));
        assert(call_ensures(value, (&l,), j@.demands->0[k]));
    }
    assert(j@.name == i@.name);
    assert(j@.problem_type == i@.problem_type);
    assert(j@.dimension == i@.dimension);
    assert(coords_text(cj) == coords_text(ci));
    assert(j@.node_coords is Some <==> i@.node_coords is Some);
    assert(j@.demands->0.len() == i@.demands->0.len());
    let wj = j@.edge_weights;
    let wi = i@.edge_weights;
    assert(cj.len() == coords_text(cj).len());
    assert(ci.len() == coords_text(ci).len());
    match bb.edge_weight_kind {
        EdgeWeightKind::LowerRow => {
            let w = bb.edge_weights->0;
            assert(w.len() == d.edge_weights@.len());
            assert forall|row: int, col: int|
                0 <= row < wi.len() && 0 <= col < wi.len() && row != col implies is_value_of_number(
                value,
                wi[row][col],
                #[trigger] wj[row][col],
            ) by {
                let (x, y) = if row < col { (col - 1, row) } else { (row - 1, col) };
                assert(wj[row][col] == w[x][y]);
                assert(wi[row][col] == a.edge_weights[x][y]);
                assert(spec_validate_format(a, u_nodes) is Ok);
                assert(a.edge_weight_format == Some(EdgeWeightFormat::LowerRow));
                assert(spec_validate_edge_weights(
                    a.dimension->0,
                    a.edge_weight_type->0,
                    a.edge_weight_format,
                    a.edge_weights,
                ) is Ok);
                assert(wi.len() == a.edge_weights.len() + 1);
                assert(a.edge_weights[x].len() == x + 1);
                assert(b.edge_weights[x] == values_view(d.edge_weights@[x]@));
                assert(is_text_of_numbers(b.edge_weights[x], a.edge_weights[x]));
                assert(is_converted(d.edge_weights@[x]@, w[x], value));
                let l = d.edge_weights@[x]@[y];
                assert(l@ == b.edge_weights[x][y]);
                assert(call_ensures(value, (&l,), w[x][y]));
            }
        },
        EdgeWeightKind::FullMatrix => {
            let w = bb.edge_weights->0;
            assert(w.len() == d.edge_weights@.len());
            assert forall|k: int| 0 <= k < wj.len() implies (#[trigger] wj[k]).len()
                == wi[k].len() by {
                assert(b.edge_weights[k] == values_view(d.edge_weights@[k]@));
                assert(is_text_of_numbers(b.edge_weights[k], a.edge_weights[k]));
                assert(is_converted(d.edge_weights@[k]@, w[k], value));
            }
            assert forall|row: int, col: int|
                0 <= row < wi.len() && 0 <= col < wi.len() && row != col implies is_value_of_number(
                value,
                wi[row][col],
                #[trigger] wj[row][col],
            ) by {
                assert(b.edge_weights[row] == values_view(d.edge_weights@[row]@));
                assert(is_text_of_numbers(b.edge_weights[row], a.edge_weights[row]));
                assert(is_converted(d.edge_weights@[row]@, w[row], value));
                assert(spec_validate_format(a, u_nodes) is Ok);
                assert(a.edge_weight_format == Some(EdgeWeightFormat::FullMatrix));
                assert(spec_validate_edge_weights(
                    a.dimension->0,
                    a.edge_weight_type->0,
                    a.edge_weight_format,
                    a.edge_weights,
                ) is Ok);
                assert(wi == a.edge_weights);
                assert(a.edge_weights[row].len() == a.dimension->0);
                let l = d.edge_weights@[row]@[col];
                assert(l@ == b.edge_weights[row][col]);
                assert(call_ensures(value, (&l,), w[row][col]));
            }
        },
        EdgeWeightKind::Euc2D => {},
    }
    assert(wj.len() == wi.len());
}

/// The depots of an instance read from a VRPLib file are its depot rows,
/// all of them, in order: one depot per row, the row's node number.
pub proof fn lemma_read_depots_are_the_depot_rows<F: Fn(&Coord, &Coord) -> u64>(
    lines: Seq<Seq<char>>,
    instance: VRPInstance<u64>,
    dist: F,
)
    requires
        is_vrplib_read_result(lines, Ok(instance), dist),
    ensures
        spec_tokenize_lines(lines) matches Ok(toks) && spec_parse(toks) matches Ok(d) && {
            &&& instance@.depots.len() == d.depots.len()
            &&& forall|k: int|
                0 <= k < d.depots.len() ==> (#[trigger] d.depots[k]).len() == 1
                    && instance@.depots[k] == d.depots[k][0]
        },
{
    let toks = spec_tokenize_lines(lines)->Ok_0;
    let d = spec_parse(toks)->Ok_0;
    assert(spec_validate_format(d, spec_u64_demand_nodes(d.demands)) is Ok);
    let c = coords_or_empty(instance@.node_coords);
    assert(instance@.depots == spec_make_from_vrplib(d, c).depots);
}

/// The depots of an instance read from a VRPLib file with literal numbers
/// are its depot rows, all of them, in order: one depot per row, the row's
/// node number.
pub proof fn lemma_values_read_depots_are_the_depot_rows<
    T: Default,
    V: Fn(&FloatLiteral) -> T,
    K: Fn(&FloatLiteral) -> usize,
    D: Fn(&Coord, &Coord) -> T,
>(
    lines: Seq<Seq<char>>,
    instance: VRPInstance<T>,
    value: V,
    node_of: K,
    dist: D,
)
    requires
        is_vrplib_values_read_result(lines, Ok(instance), value, node_of, dist),
    ensures
        spec_tokenize_lines(lines) matches Ok(toks) && spec_parse_tokens::<FloatLiteral>(toks) matches Ok(d) && {
            &&& instance@.depots.len() == d.depots.len()
            &&& forall|k: int|
                0 <= k < d.depots.len() ==> (#[trigger] d.depots[k]).len() == 1
                    && instance@.depots[k] == d.depots[k][0]
        },
{
    let toks = spec_tokenize_lines(lines)->Ok_0;
    let r = Ok::<VRPInstance<T>, LoadError>(instance);
    let p = choose|p: Result<SectionData<FloatLiteral>, ParseError>|
        #[trigger] is_parse_result_by(toks, p, node_of) && match p {
            Err(e) => r matches Err(LoadError::Vrplib(VrplibError::Parse(e2))) && e2 == e,
            Ok(d) => match spec_vrplib_build_check(d@) {
                Err(e) => r matches Err(LoadError::Validation(e2)) && e2 == e,
                Ok(_) => r matches Ok(inst) && exists|bb: BuilderModel<T>|
                    #[trigger] is_vrplib_builder_by(d, bb, value) && has_builder_fields(
                        bb,
                        inst@,
                    ) && has_built_weights(bb, inst@, dist),
            },
        };
    let m = spec_parse_tokens::<FloatLiteral>(toks)->Ok_0;
    let (sd, nodes) = choose|sd: SectionData<FloatLiteral>, nodes: Seq<Option<usize>>|
        #![trigger is_demand_nodes_by(sd.demands@, nodes, node_of)]
        sd@ == m && is_demand_nodes_by(sd.demands@, nodes, node_of) && match spec_validate_format(
            m,
            nodes,
        ) {
            Err(e) => p == Err::<SectionData<FloatLiteral>, ParseError>(e),
            Ok(_) => p == Ok::<SectionData<FloatLiteral>, ParseError>(sd),
        };
    assert(spec_validate_format(m, nodes) is Ok);
    let bb = choose|bb: BuilderModel<T>|
        #[trigger] is_vrplib_builder_by(sd, bb, value) && has_builder_fields(bb, instance@)
            && has_built_weights(bb, instance@, dist);
    assert(instance@.depots == bb.depots);
}

} // verus!
