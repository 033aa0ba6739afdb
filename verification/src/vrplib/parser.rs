//! Reading the tokens of a VRPLib file into section data, and checking that
//! the data is consistent.
use vstd::prelude::*;

use super::token::{SpecToken, Token, tokens_view};
use super::types::{
    EdgeWeightFormat, EdgeWeightType, NodeCoordType, ParseProblemTypeError, spec_edge_weight_format,
    spec_edge_weight_type, spec_node_coord_type, spec_problem_type,
};
use crate::model::ProblemType;
use crate::numeric::{
    FloatLiteral, Numeric, is_float_literal, lemma_unsigned_literal_is_float_literal, parse_u64,
    parse_usize, spec_parse_u64, spec_parse_usize,
};
use crate::text::strings_view;

verus! {

/// The section of a VRPLib file that data rows belong to.
#[derive(Clone, Copy, Debug, PartialEq, Eq, Structural)]
pub enum Section {
    Header,
    EdgeWeight,
    NodeCoord,
    Demand,
    Depot,
}

/// The fields and sections read from a VRPLib file, before they are
/// assembled into an instance. Data rows are kept as they were read: an
/// edge-weight row, a node-coordinate row without its leading node number,
/// a demand row `node demand`, a depot row.
#[derive(Debug, PartialEq)]
pub struct SectionData<T> {
    pub name: Option<String>,
    pub problem_type: Option<ProblemType>,
    pub dimension: Option<usize>,
    pub capacity: Option<T>,
    pub edge_weight_type: Option<EdgeWeightType>,
    pub edge_weight_format: Option<EdgeWeightFormat>,
    pub edge_weights: Vec<Vec<T>>,
    pub node_coord_type: Option<NodeCoordType>,
    pub node_coords: Vec<Vec<FloatLiteral>>,
    pub demands: Vec<Vec<T>>,
    pub depots: Vec<Vec<usize>>,
}

/// Section data with texts as character sequences, rows as sequences, and
/// numbers by their views (`V`).
pub ghost struct SectionModel<V> {
    pub name: Option<Seq<char>>,
    pub problem_type: Option<ProblemType>,
    pub dimension: Option<usize>,
    pub capacity: Option<V>,
    pub edge_weight_type: Option<EdgeWeightType>,
    pub edge_weight_format: Option<EdgeWeightFormat>,
    pub edge_weights: Seq<Seq<V>>,
    pub node_coord_type: Option<NodeCoordType>,
    pub node_coords: Seq<Seq<Seq<char>>>,
    pub demands: Seq<Seq<V>>,
    pub depots: Seq<Seq<usize>>,
}

/// The rows of a table of vectors, as sequences.
pub open spec fn rows_view<T>(v: Seq<Vec<T>>) -> Seq<Seq<T>> {
    v.map_values(|r: Vec<T>| r@)
}

/// The views of a sequence of values.
pub open spec fn values_view<T: View>(v: Seq<T>) -> Seq<T::V> {
    v.map_values(|x: T| x@)
}

/// The rows of a table of values, as sequences of their views.
pub open spec fn value_rows_view<T: View>(v: Seq<Vec<T>>) -> Seq<Seq<T::V>> {
    v.map_values(|r: Vec<T>| values_view(r@))
}

/// The view of an optional value.
pub open spec fn opt_value_view<T: View>(x: Option<T>) -> Option<T::V> {
    match x {
        Some(x) => Some(x@),
        None => None,
    }
}

/// The texts of a sequence of literals.
pub open spec fn literals_view(v: Seq<FloatLiteral>) -> Seq<Seq<char>> {
    v.map_values(|f: FloatLiteral| f@)
}

/// The texts of a table of literals.
pub open spec fn literal_rows_view(v: Seq<Vec<FloatLiteral>>) -> Seq<Seq<Seq<char>>> {
    v.map_values(|r: Vec<FloatLiteral>| literals_view(r@))
}

/// The text of an optional string.
pub open spec fn opt_string_view(s: Option<String>) -> Option<Seq<char>> {
    match s {
        Some(s) => Some(s@),
        None => None,
    }
}

impl<T: View> View for SectionData<T> {
    type V = SectionModel<T::V>;

    open spec fn view(&self) -> SectionModel<T::V> {
        SectionModel {
            name: opt_string_view(self.name),
            problem_type: self.problem_type,
            dimension: self.dimension,
            capacity: opt_value_view(self.capacity),
            edge_weight_type: self.edge_weight_type,
            edge_weight_format: self.edge_weight_format,
            edge_weights: value_rows_view(self.edge_weights@),
            node_coord_type: self.node_coord_type,
            node_coords: literal_rows_view(self.node_coords@),
            demands: value_rows_view(self.demands@),
            depots: rows_view(self.depots@),
        }
    }
}

/// Numbers of type `u64` are their own views.
pub proof fn lemma_u64_views(v: Seq<Vec<u64>>)
    ensures
        value_rows_view(v) == rows_view(v),
        forall|r: Seq<u64>| #[trigger] values_view(r) == r,
{
    assert forall|r: Seq<u64>| #[trigger] values_view(r) == r by {
        assert(values_view(r) =~= r);
    }
    assert(value_rows_view(v) =~= rows_view(v));
}

/// Why a VRPLib token stream does not describe an instance.
#[derive(Clone, Copy, Debug, PartialEq, Eq, Structural)]
pub enum ParseError {
    MissingName,
    MissingProblemType,
    MissingDimension,
    MissingEdgeWeightType,
    MissingEdgeWeightFormat,
    MissingNodeCoordType,
    /// An edge-weight row that is not all numbers, or edge weights that do
    /// not fit the dimension and format.
    EdgeWeight,
    /// A node-coordinate row that is not a node number in sequence followed
    /// by numbers, or coordinates that are not 2D for every node.
    NodeCoord,
    /// A demand row that is not all numbers, or demands that are not one
    /// `node demand` row per node, in node order.
    Demand,
    /// A depot row that is not all node numbers, or a depot row that is not
    /// a single node of the instance.
    Depot,
    /// A `TYPE` value that names no problem type.
    InvalidProblemType,
    /// A `TYPE` value naming a problem type that a VRPLib file cannot hold.
    UnsupportedProblemType,
    /// A `DIMENSION` value that is not a node count.
    InvalidDimension,
    /// A `CAPACITY` value that is not a number.
    InvalidCapacity,
    /// An `EDGE_WEIGHT_TYPE` value that names no known type.
    InvalidEdgeWeightType,
    /// An `EDGE_WEIGHT_FORMAT` value that names no known format.
    InvalidEdgeWeightFormat,
    /// A `NODE_COORD_TYPE` value that names no known type.
    InvalidNodeCoordType,
    /// An `EDGE_WEIGHT_FORMAT` given with an edge-weight type that takes
    /// none (`EUC_2D`).
    UnexpectedEdgeWeightFormat,
}

/// Where the reading of tokens stands: the data so far, the current
/// section, and the node number the next coordinate row must carry.
pub ghost struct ParseState<V> {
    pub data: SectionModel<V>,
    pub section: Section,
    pub next_coord: int,
}

/// Section data with no field given and no row read.
pub open spec fn empty_section_model<V>() -> SectionModel<V> {
    SectionModel {
        name: None,
        problem_type: None,
        dimension: None,
        capacity: None,
        edge_weight_type: None,
        edge_weight_format: None,
        edge_weights: Seq::empty(),
        node_coord_type: None,
        node_coords: Seq::empty(),
        demands: Seq::empty(),
        depots: Seq::empty(),
    }
}

/// The state before the first token: in the header, expecting node 1.
pub open spec fn initial_parse_state<V>() -> ParseState<V> {
    ParseState { data: empty_section_model(), section: Section::Header, next_coord: 1 }
}

/// The numbers of a row, by their views, if every word of it is a number of
/// type `T`.
pub open spec fn spec_number_row<T: Numeric>(row: Seq<Seq<char>>) -> Option<Seq<T::V>> {
    if forall|i: int| 0 <= i < row.len() ==> (#[trigger] T::spec_read(row[i])) is Some {
        Some(Seq::new(row.len(), |i: int| T::spec_read(row[i])->0))
    } else {
        None
    }
}

/// The numbers of a row, if every word of it is a `usize`.
pub open spec fn spec_usize_row(row: Seq<Seq<char>>) -> Option<Seq<usize>> {
    if forall|i: int| 0 <= i < row.len() ==> (#[trigger] spec_parse_usize(row[i])) is Some {
        Some(Seq::new(row.len(), |i: int| spec_parse_usize(row[i])->0))
    } else {
        None
    }
}

/// The row itself, if every word of it is a floating-point literal.
pub open spec fn spec_float_row(row: Seq<Seq<char>>) -> Option<Seq<Seq<char>>> {
    if forall|i: int| 0 <= i < row.len() ==> is_float_literal(#[trigger] row[i]) {
        Some(row)
    } else {
        None
    }
}

/// The state after one data row, in the current section.
pub open spec fn spec_data_step<T: Numeric>(st: ParseState<T::V>, d: Seq<Seq<char>>) -> Result<
    ParseState<T::V>,
    ParseError,
> {
    let data = st.data;
    match st.section {
        Section::Header => Ok(st),
        Section::EdgeWeight => match spec_number_row::<T>(d) {
            Some(w) => Ok(
                ParseState { data: SectionModel { edge_weights: data.edge_weights.push(w), ..data }, ..st },
            ),
            None => Err(ParseError::EdgeWeight),
        },
        Section::NodeCoord => {
            if d.len() == 0 {
                Err(ParseError::NodeCoord)
            } else if !(spec_parse_usize(d[0]) matches Some(n) && n == st.next_coord) {
                Err(ParseError::NodeCoord)
            } else {
                match spec_float_row(d.drop_first()) {
                    Some(c) => Ok(
                        ParseState {
                            data: SectionModel { node_coords: data.node_coords.push(c), ..data },
                            section: st.section,
                            next_coord: st.next_coord + 1,
                        },
                    ),
                    None => Err(ParseError::NodeCoord),
                }
            }
        },
        Section::Demand => match spec_number_row::<T>(d) {
            Some(w) => Ok(
                ParseState { data: SectionModel { demands: data.demands.push(w), ..data }, ..st },
            ),
            None => Err(ParseError::Demand),
        },
        Section::Depot => match spec_usize_row(d) {
            Some(w) => Ok(
                ParseState { data: SectionModel { depots: data.depots.push(w), ..data }, ..st },
            ),
            None => Err(ParseError::Depot),
        },
    }
}

/// The state after one token.
pub open spec fn spec_parse_step<T: Numeric>(st: ParseState<T::V>, tok: SpecToken) -> Result<
    ParseState<T::V>,
    ParseError,
> {
    let data = st.data;
    match tok {
        SpecToken::Name(s) => Ok(ParseState { data: SectionModel { name: Some(s), ..data }, ..st }),
        SpecToken::Comment(_) => Ok(st),
        SpecToken::Type(t) => match spec_problem_type(t) {
            Ok(p) => Ok(
                ParseState { data: SectionModel { problem_type: Some(p), ..data }, ..st },
            ),
            Err(true) => Err(ParseError::UnsupportedProblemType),
            Err(false) => Err(ParseError::InvalidProblemType),
        },
        SpecToken::Dimension(t) => match spec_parse_usize(t) {
            Some(n) => Ok(ParseState { data: SectionModel { dimension: Some(n), ..data }, ..st }),
            None => Err(ParseError::InvalidDimension),
        },
        SpecToken::Capacity(t) => if spec_parse_u64(t) is None {
            Err(ParseError::InvalidCapacity)
        } else {
            match T::spec_read(t) {
                Some(c) => Ok(
                    ParseState { data: SectionModel { capacity: Some(c), ..data }, ..st },
                ),
                None => Err(ParseError::InvalidCapacity),
            }
        },
        SpecToken::EdgeWeightType(t) => match spec_edge_weight_type(t) {
            Some(x) => Ok(
                ParseState { data: SectionModel { edge_weight_type: Some(x), ..data }, ..st },
            ),
            None => Err(ParseError::InvalidEdgeWeightType),
        },
        SpecToken::EdgeWeightFormat(t) => match spec_edge_weight_format(t) {
            Some(x) => Ok(
                ParseState { data: SectionModel { edge_weight_format: Some(x), ..data }, ..st },
            ),
            None => Err(ParseError::InvalidEdgeWeightFormat),
        },
        SpecToken::NodeCoordType(t) => match spec_node_coord_type(t) {
            Some(x) => Ok(
                ParseState { data: SectionModel { node_coord_type: Some(x), ..data }, ..st },
            ),
            None => Err(ParseError::InvalidNodeCoordType),
        },
        SpecToken::EdgeWeightSection => Ok(ParseState { section: Section::EdgeWeight, ..st }),
        SpecToken::NodeCoordSection => Ok(ParseState { section: Section::NodeCoord, ..st }),
        SpecToken::DemandSection => Ok(ParseState { section: Section::Demand, ..st }),
        SpecToken::DepotSection => Ok(ParseState { section: Section::Depot, ..st }),
        SpecToken::Eof => Ok(st),
        SpecToken::Data(d) => spec_data_step::<T>(st, d),
    }
}

/// The state after a sequence of tokens, or the first error.
pub open spec fn spec_parse_run<T: Numeric>(toks: Seq<SpecToken>) -> Result<ParseState<T::V>, ParseError>
    decreases toks.len(),
{
    if toks.len() == 0 {
        Ok(initial_parse_state())
    } else {
        match spec_parse_run::<T>(toks.drop_last()) {
            Ok(st) => spec_parse_step::<T>(st, toks.last()),
            Err(e) => Err(e),
        }
    }
}

/// The section data that a token stream holds, or the first token that
/// cannot be read.
pub open spec fn spec_parse_tokens<T: Numeric>(toks: Seq<SpecToken>) -> Result<
    SectionModel<T::V>,
    ParseError,
> {
    match spec_parse_run::<T>(toks) {
        Ok(st) => Ok(st.data),
        Err(e) => Err(e),
    }
}

/// Coordinate rows are numbered in order: after any prefix of a token stream
/// that reads, the next coordinate row must carry one more than the number
/// of coordinate rows read, so the `k`-th row read carried the number `k`.
pub proof fn lemma_coord_rows_numbered<T: Numeric>(toks: Seq<SpecToken>)
    ensures
        spec_parse_run::<T>(toks) matches Ok(st) ==> st.next_coord == st.data.node_coords.len()
            + 1,
    decreases toks.len(),
{
    if toks.len() > 0 {
        lemma_coord_rows_numbered::<T>(toks.drop_last());
    }
}

/// Once a token fails to read, the reading of the whole stream fails with it.
proof fn lemma_parse_run_error<T: Numeric>(toks: Seq<SpecToken>, i: int)
    requires
        0 <= i < toks.len(),
        spec_parse_run::<T>(toks.take(i + 1)) is Err,
    ensures
        spec_parse_run::<T>(toks) == spec_parse_run::<T>(toks.take(i + 1)),
    decreases toks.len() - i,
{
    if i + 1 == toks.len() {
        assert(toks.take(i + 1) =~= toks);
    } else {
        assert(toks.drop_last().take(i + 1) =~= toks.take(i + 1));
        lemma_parse_run_error::<T>(toks.drop_last(), i);
    }
}

/// Each word of `texts` reads as the `u64` at its place in `nums`.
pub open spec fn is_text_of_numbers(texts: Seq<Seq<char>>, nums: Seq<u64>) -> bool {
    &&& texts.len() == nums.len()
    &&& forall|j: int| 0 <= j < texts.len() ==> spec_parse_u64(#[trigger] texts[j]) == Some(nums[j])
}

/// Each row of `texts` holds the words of the row of `u64`s at its place in
/// `nums`.
pub open spec fn is_text_of_rows(texts: Seq<Seq<Seq<char>>>, nums: Seq<Seq<u64>>) -> bool {
    &&& texts.len() == nums.len()
    &&& forall|i: int| 0 <= i < texts.len() ==> is_text_of_numbers(#[trigger] texts[i], nums[i])
}

/// `b`, section data read with literal numbers, is `a`, section data read
/// with `u64` numbers, but that each number is kept as its text.
pub open spec fn is_literal_reading_of(b: SectionModel<Seq<char>>, a: SectionModel<u64>) -> bool {
    &&& b.name == a.name
    &&& b.problem_type == a.problem_type
    &&& b.dimension == a.dimension
    &&& b.edge_weight_type == a.edge_weight_type
    &&& b.edge_weight_format == a.edge_weight_format
    &&& b.node_coord_type == a.node_coord_type
    &&& b.node_coords == a.node_coords
    &&& b.depots == a.depots
    &&& (b.capacity is Some <==> a.capacity is Some)
    &&& (b.capacity matches Some(t) ==> spec_parse_u64(t) == a.capacity)
    &&& is_text_of_rows(b.edge_weights, a.edge_weights)
    &&& is_text_of_rows(b.demands, a.demands)
}

/// Reading states that differ only as `is_literal_reading_of` allows.
pub open spec fn is_literal_state_of(b: ParseState<Seq<char>>, a: ParseState<u64>) -> bool {
    &&& is_literal_reading_of(b.data, a.data)
    &&& b.section == a.section
    &&& b.next_coord == a.next_coord
}

/// A row of words that all read as `u64`s reads as literals: the words
/// themselves.
proof fn lemma_u64_row_is_literal_row(d: Seq<Seq<char>>)
    requires
        spec_number_row::<u64>(d) is Some,
    ensures
        spec_number_row::<FloatLiteral>(d) == Some(d),
        is_text_of_numbers(d, spec_number_row::<u64>(d)->0),
{
    assert forall|j: int| 0 <= j < d.len() implies (#[trigger] FloatLiteral::spec_read(d[j])) is Some by {
        assert(u64::spec_read(d[j]) is Some);
        lemma_unsigned_literal_is_float_literal(d[j], u64::MAX as nat);
    }
    assert(Seq::new(d.len(), |j: int| FloatLiteral::spec_read(d[j])->0) =~= d);
    let w = spec_number_row::<u64>(d)->0;
    assert forall|j: int| 0 <= j < d.len() implies spec_parse_u64(#[trigger] d[j]) == Some(w[j]) by {
        assert(u64::spec_read(d[j]) is Some);
    }
}

/// One token read from related states gives related states, where reading
/// it with `u64` numbers succeeds.
proof fn lemma_literal_step(b: ParseState<Seq<char>>, a: ParseState<u64>, tok: SpecToken)
    requires
        is_literal_state_of(b, a),
        spec_parse_step::<u64>(a, tok) is Ok,
    ensures
        spec_parse_step::<FloatLiteral>(b, tok) matches Ok(b2) && is_literal_state_of(
            b2,
            spec_parse_step::<u64>(a, tok)->Ok_0,
        ),
{
    match tok {
        SpecToken::Capacity(t) => {
            assert(u64::spec_read(t) is Some);
            lemma_unsigned_literal_is_float_literal(t, u64::MAX as nat);
        },
        SpecToken::Data(d) => {
            match a.section {
                Section::EdgeWeight => {
                    lemma_u64_row_is_literal_row(d);
                    let a2 = spec_parse_step::<u64>(a, tok)->Ok_0;
                    let b2 = spec_parse_step::<FloatLiteral>(b, tok)->Ok_0;
                    assert forall|i: int| 0 <= i < b2.data.edge_weights.len() implies is_text_of_numbers(
                        #[trigger] b2.data.edge_weights[i],
                        a2.data.edge_weights[i],
                    ) by {
                        if i < b.data.edge_weights.len() {
                            assert(is_text_of_numbers(b.data.edge_weights[i], a.data.edge_weights[i]));
                        }
                    }
                },
                Section::Demand => {
                    lemma_u64_row_is_literal_row(d);
                    let a2 = spec_parse_step::<u64>(a, tok)->Ok_0;
                    let b2 = spec_parse_step::<FloatLiteral>(b, tok)->Ok_0;
                    assert forall|i: int| 0 <= i < b2.data.demands.len() implies is_text_of_numbers(
                        #[trigger] b2.data.demands[i],
                        a2.data.demands[i],
                    ) by {
                        if i < b.data.demands.len() {
                            assert(is_text_of_numbers(b.data.demands[i], a.data.demands[i]));
                        }
                    }
                },
                _ => {},
            }
        },
        _ => {},
    }
}

/// Reading a token stream with `u64` numbers and with literal numbers keeps
/// related states, token by token.
proof fn lemma_literal_run(toks: Seq<SpecToken>)
    requires
        spec_parse_run::<u64>(toks) is Ok,
    ensures
        spec_parse_run::<FloatLiteral>(toks) matches Ok(b) && is_literal_state_of(
            b,
            spec_parse_run::<u64>(toks)->Ok_0,
        ),
    decreases toks.len(),
{
    if toks.len() == 0 {
        let b = initial_parse_state::<Seq<char>>();
        let a = initial_parse_state::<u64>();
        assert(is_literal_reading_of(b.data, a.data));
    } else {
        lemma_literal_run(toks.drop_last());
        lemma_literal_step(
            spec_parse_run::<FloatLiteral>(toks.drop_last())->Ok_0,
            spec_parse_run::<u64>(toks.drop_last())->Ok_0,
            toks.last(),
        );
    }
}

/// A token stream that reads with `u64` numbers reads with literal numbers
/// too, into the same section data but that each number is kept as its
/// text; and the two readings pass or fail the checks alike, given the same
/// node numbers for their demand rows: reading numbers as literals differs
/// from reading them as `u64`s only in how the numbers are held.
pub proof fn lemma_u64_reading_reads_as_literals(toks: Seq<SpecToken>, nodes: Seq<Option<usize>>)
    requires
        spec_parse_tokens::<u64>(toks) is Ok,
    ensures
        spec_parse_tokens::<FloatLiteral>(toks) matches Ok(b) && is_literal_reading_of(
            b,
            spec_parse_tokens::<u64>(toks)->Ok_0,
        ) && spec_validate_format(b, nodes) == spec_validate_format(
            spec_parse_tokens::<u64>(toks)->Ok_0,
            nodes,
        ),
{
    lemma_literal_run(toks);
    let a = spec_parse_tokens::<u64>(toks)->Ok_0;
    let b = spec_parse_tokens::<FloatLiteral>(toks)->Ok_0;
    assert forall|i: int| 0 <= i < b.edge_weights.len() implies #[trigger] b.edge_weights[i].len()
        == a.edge_weights[i].len() by {
        assert(is_text_of_numbers(b.edge_weights[i], a.edge_weights[i]));
    }
    if a.dimension is Some && a.edge_weight_type is Some {
        lemma_same_shape(
            a.dimension->0,
            a.edge_weight_type->0,
            a.edge_weight_format,
            b.edge_weights,
            a.edge_weights,
        );
    }
}

/// Reads every word of a row as a number of type `T`.
fn number_row<T: Numeric>(d: &Vec<String>) -> (r: Option<Vec<T>>)
    ensures
        match r {
            Some(v) => spec_number_row::<T>(strings_view(d@)) == Some(values_view(v@)),
            None => spec_number_row::<T>(strings_view(d@)) is None,
        },
{
    let ghost row = strings_view(d@);
    let mut out: Vec<T> = Vec::new();
    let mut i: usize = 0;
    while i < d.len()
        invariant
            i <= d.len(),
            row == strings_view(d@),
            out@.len() == i,
            forall|k: int| 0 <= k < i ==> (#[trigger] T::spec_read(row[k])) is Some,
            forall|k: int| 0 <= k < i ==> out@[k]@ == T::spec_read(row[k])->0,
        decreases d.len() - i,
    {
        proof {
            assert(row[i as int] == d@[i as int]@);
        }
        match T::read(d[i].as_str()) {
            Some(x) => {
                out.push(x);
            },
            None => {
                return None;
            },
        }
        i = i + 1;
    }
    proof {
        assert(values_view(out@) =~= Seq::new(row.len(), |k: int| T::spec_read(row[k])->0));
    }
    Some(out)
}

/// Reads every word of a row as a `usize`.
fn usize_row(d: &Vec<String>) -> (r: Option<Vec<usize>>)
    ensures
        match r {
            Some(v) => spec_usize_row(strings_view(d@)) == Some(v@),
            None => spec_usize_row(strings_view(d@)) is None,
        },
{
    let ghost row = strings_view(d@);
    let mut out: Vec<usize> = Vec::new();
    let mut i: usize = 0;
    while i < d.len()
        invariant
            i <= d.len(),
            row == strings_view(d@),
            out@.len() == i,
            forall|k: int| 0 <= k < i ==> (#[trigger] spec_parse_usize(row[k])) is Some,
            forall|k: int| 0 <= k < i ==> out@[k] == spec_parse_usize(row[k])->0,
        decreases d.len() - i,
    {
        match parse_usize(d[i].as_str()) {
            Some(x) => {
                out.push(x);
            },
            None => {
                proof {
                    assert(spec_parse_usize(row[i as int]) is None);
                }
                return None;
            },
        }
        i = i + 1;
    }
    proof {
        assert(out@ =~= Seq::new(row.len(), |k: int| spec_parse_usize(row[k])->0));
    }
    Some(out)
}

/// Reads the words of `d` from index `start` on as floating-point literals.
fn float_row(d: &Vec<String>, start: usize) -> (r: Option<Vec<FloatLiteral>>)
    requires
        start <= d.len(),
    ensures
        match r {
            Some(v) => spec_float_row(strings_view(d@).skip(start as int)) == Some(
                literals_view(v@),
            ),
            None => spec_float_row(strings_view(d@).skip(start as int)) is None,
        },
{
    let ghost row = strings_view(d@).skip(start as int);
    let mut out: Vec<FloatLiteral> = Vec::new();
    let mut i: usize = start;
    while i < d.len()
        invariant
            start <= i <= d.len(),
            row == strings_view(d@).skip(start as int),
            literals_view(out@) == row.take(i - start),
            forall|k: int| 0 <= k < i - start ==> is_float_literal(#[trigger] row[k]),
        decreases d.len() - i,
    {
        proof {
            assert(row[i - start] == d@[i as int]@);
        }
        match FloatLiteral::parse(d[i].as_str()) {
            Some(x) => {
                let ghost old_out = out@;
                out.push(x);
                proof {
                    assert(literals_view(out@) =~= literals_view(old_out).push(x@));
                    assert(row.take(i + 1 - start) =~= row.take(i - start).push(x@));
                }
            },
            None => {
                return None;
            },
        }
        i = i + 1;
    }
    proof {
        assert(row.take(i - start) =~= row);
    }
    Some(out)
}

/// Reads a sequence of tokens into section data, field by field and row by
/// row, stopping at the first token that cannot be read.
pub fn parse_tokens<T: Numeric>(tokens: &[Token]) -> (r: Result<SectionData<T>, ParseError>)
    requires
        tokens@.len() < usize::MAX,
    ensures
        match r {
            Ok(d) => spec_parse_tokens::<T>(tokens_view(tokens@)) == Ok::<
                SectionModel<T::V>,
                ParseError,
            >(d@),
            Err(e) => spec_parse_tokens::<T>(tokens_view(tokens@)) == Err::<
                SectionModel<T::V>,
                ParseError,
            >(e),
        },
{
    let mut data = SectionData::<T> {
        name: None,
        problem_type: None,
        dimension: None,
        capacity: None,
        edge_weight_type: None,
        edge_weight_format: None,
        edge_weights: Vec::new(),
        node_coord_type: None,
        node_coords: Vec::new(),
        demands: Vec::new(),
        depots: Vec::new(),
    };
    let mut section = Section::Header;
    let mut node_coord_index: usize = 1;
    let ghost toks = tokens_view(tokens@);
    proof {
        assert(toks.take(0) =~= Seq::<SpecToken>::empty());
        assert(value_rows_view(data.edge_weights@) =~= Seq::<Seq<T::V>>::empty());
        assert(value_rows_view(data.demands@) =~= Seq::<Seq<T::V>>::empty());
        assert(rows_view(data.depots@) =~= Seq::<Seq<usize>>::empty());
        assert(literal_rows_view(data.node_coords@) =~= Seq::<Seq<Seq<char>>>::empty());
        assert(data@ == empty_section_model::<T::V>());
    }
    let mut i: usize = 0;
    while i < tokens.len()
        invariant
            i <= tokens@.len() < usize::MAX,
            toks == tokens_view(tokens@),
            1 <= node_coord_index <= i + 1,
            spec_parse_run::<T>(toks.take(i as int)) == Ok::<ParseState<T::V>, ParseError>(
                ParseState { data: data@, section, next_coord: node_coord_index as int },
            ),
        decreases tokens@.len() - i,
    {
        let ghost st = ParseState::<T::V> {
            data: data@,
            section,
            next_coord: node_coord_index as int,
        };
        proof {
            assert(toks.take(i + 1).drop_last() =~= toks.take(i as int));
            assert(toks.take(i + 1).last() == tokens@[i as int]@);
        }
        let step: Result<(), ParseError> = match &tokens[i] {
            Token::Name(s) => {
                data.name = Some(s.clone());
                Ok(())
            },
            Token::Comment(_) => Ok(()),
            Token::Type(t) => match ProblemType::try_from(t.as_str()) {
                Ok(p) => {
                    data.problem_type = Some(p);
                    Ok(())
                },
                Err(ParseProblemTypeError::NotSupportedInVrplib(_)) => Err(
                    ParseError::UnsupportedProblemType,
                ),
                Err(ParseProblemTypeError::UnknownType(_)) => Err(ParseError::InvalidProblemType),
            },
            Token::Dimension(t) => match parse_usize(t.as_str()) {
                Some(n) => {
                    data.dimension = Some(n);
                    Ok(())
                },
                None => Err(ParseError::InvalidDimension),
            },
            Token::Capacity(t) => if parse_u64(t.as_str()).is_none() {
                Err(ParseError::InvalidCapacity)
            } else {
                match T::read(t.as_str()) {
                    Some(c) => {
                        data.capacity = Some(c);
                        Ok(())
                    },
                    None => Err(ParseError::InvalidCapacity),
                }
            },
            Token::EdgeWeightType(t) => match EdgeWeightType::try_from(t.as_str()) {
                Ok(x) => {
                    data.edge_weight_type = Some(x);
                    Ok(())
                },
                Err(_) => Err(ParseError::InvalidEdgeWeightType),
            },
            Token::EdgeWeightFormat(t) => match EdgeWeightFormat::try_from(t.as_str()) {
                Ok(x) => {
                    data.edge_weight_format = Some(x);
                    Ok(())
                },
                Err(_) => Err(ParseError::InvalidEdgeWeightFormat),
            },
            Token::NodeCoordType(t) => match NodeCoordType::try_from(t.as_str()) {
                Ok(x) => {
                    data.node_coord_type = Some(x);
                    Ok(())
                },
                Err(_) => Err(ParseError::InvalidNodeCoordType),
            },
            Token::EdgeWeightSection => {
                section = Section::EdgeWeight;
                Ok(())
            },
            Token::NodeCoordSection => {
                section = Section::NodeCoord;
                Ok(())
            },
            Token::DemandSection => {
                section = Section::Demand;
                Ok(())
            },
            Token::DepotSection => {
                section = Section::Depot;
                Ok(())
            },
            Token::Eof => Ok(()),
            Token::Data(d) => match section {
                Section::Header => Ok(()),
                Section::EdgeWeight => match number_row::<T>(d) {
                    Some(w) => {
                        let ghost old = data.edge_weights@;
                        data.edge_weights.push(w);
                        proof {
                            assert(value_rows_view(data.edge_weights@) =~= value_rows_view(
                                old,
                            ).push(values_view(data.edge_weights@.last()@)));
                        }
                        Ok(())
                    },
                    None => Err(ParseError::EdgeWeight),
                },
                Section::NodeCoord => {
                    if d.len() == 0 {
                        Err(ParseError::NodeCoord)
                    } else {
                        let first_ok = match parse_usize(d[0].as_str()) {
                            Some(val) => val == node_coord_index,
                            None => false,
                        };
                        proof {
                            assert(strings_view(d@)[0] == d@[0]@);
                        }
                        if !first_ok {
                            Err(ParseError::NodeCoord)
                        } else {
                            match float_row(d, 1) {
                                Some(coords) => {
                                    let ghost old = data.node_coords@;
                                    data.node_coords.push(coords);
                                    proof {
                                        assert(strings_view(d@).skip(1) =~= strings_view(
                                            d@,
                                        ).drop_first());
                                        assert(literal_rows_view(data.node_coords@)
                                            =~= literal_rows_view(old).push(
                                            literals_view(data.node_coords@.last()@),
                                        ));
                                    }
                                    node_coord_index = node_coord_index + 1;
                                    Ok(())
                                },
                                None => {
                                    proof {
                                        assert(strings_view(d@).skip(1) =~= strings_view(
                                            d@,
                                        ).drop_first());
                                    }
                                    Err(ParseError::NodeCoord)
                                },
                            }
                        }
                    }
                },
                Section::Demand => match number_row::<T>(d) {
                    Some(w) => {
                        let ghost old = data.demands@;
                        data.demands.push(w);
                        proof {
                            assert(value_rows_view(data.demands@) =~= value_rows_view(old).push(
                                values_view(data.demands@.last()@),
                            ));
                        }
                        Ok(())
                    },
                    None => Err(ParseError::Demand),
                },
                Section::Depot => match usize_row(d) {
                    Some(w) => {
                        let ghost old = data.depots@;
                        data.depots.push(w);
                        proof {
                            assert(rows_view(data.depots@) =~= rows_view(old).push(
                                data.depots@.last()@,
                            ));
                        }
                        Ok(())
                    },
                    None => Err(ParseError::Depot),
                },
            },
        };
        match step {
            Ok(()) => {
                proof {
                    assert(spec_parse_step::<T>(st, toks[i as int]) == Ok::<
                        ParseState<T::V>,
                        ParseError,
                    >(
                        ParseState {
                            data: data@,
                            section,
                            next_coord: node_coord_index as int,
                        },
                    ));
                }
            },
            Err(e) => {
                proof {
                    assert(spec_parse_step::<T>(st, toks[i as int]) == Err::<
                        ParseState<T::V>,
                        ParseError,
                    >(e));
                    lemma_parse_run_error::<T>(toks, i as int);
                }
                return Err(e);
            },
        }
        i = i + 1;
    }
    proof {
        assert(toks.take(i as int) =~= toks);
    }
    Ok(data)
}

/// The first error of two checks made in turn.
pub open spec fn first_error(a: Result<(), ParseError>, b: Result<(), ParseError>) -> Result<(), ParseError> {
    match a {
        Err(e) => Err(e),
        Ok(_) => b,
    }
}

/// Whether the edge weights fit the dimension and the edge-weight type and
/// format: an explicit matrix needs a format; a lower-row matrix has
/// `dimension - 1` rows, row `i` of length `i + 1`; a full matrix has
/// `dimension` rows of length `dimension`; `EUC_2D` needs no weights and takes
/// no format.
pub open spec fn spec_validate_edge_weights<T>(
    dimension: usize,
    edge_weight_type: EdgeWeightType,
    edge_weight_format: Option<EdgeWeightFormat>,
    edge_weights: Seq<Seq<T>>,
) -> Result<(), ParseError> {
    match edge_weight_type {
        EdgeWeightType::Explicit => match edge_weight_format {
            None => Err(ParseError::MissingEdgeWeightFormat),
            Some(EdgeWeightFormat::LowerRow) => {
                if dimension >= 1 && dimension - 1 == edge_weights.len() && forall|i: int|
                    0 <= i < edge_weights.len() ==> #[trigger] edge_weights[i].len() == i + 1 {
                    Ok(())
                } else {
                    Err(ParseError::EdgeWeight)
                }
            },
            Some(EdgeWeightFormat::FullMatrix) => {
                if dimension == edge_weights.len() && forall|i: int|
                    0 <= i < edge_weights.len() ==> #[trigger] edge_weights[i].len() == dimension {
                    Ok(())
                } else {
                    Err(ParseError::EdgeWeight)
                }
            },
        },
        EdgeWeightType::Euc2D => match edge_weight_format {
            None => Ok(()),
            Some(_) => Err(ParseError::UnexpectedEdgeWeightFormat),
        },
    }
}

/// Checks that the edge weights fit the dimension, type and format.
///
/// A lower-row matrix with dimension 0 is refused as having the wrong number
/// of rows.
pub fn validate_edge_weights<T>(
    dimension: usize,
    edge_weight_type: EdgeWeightType,
    edge_weight_format: Option<EdgeWeightFormat>,
    edge_weights: &[Vec<T>],
) -> (r: Result<(), ParseError>)
    ensures
        r == spec_validate_edge_weights(
            dimension,
            edge_weight_type,
            edge_weight_format,
            rows_view(edge_weights@),
        ),
{
    let ghost ew = rows_view(edge_weights@);
    match edge_weight_type {
        EdgeWeightType::Explicit => {
            if let Some(fmt) = edge_weight_format {
                match fmt {
                    EdgeWeightFormat::LowerRow => {
                        if dimension < 1 || dimension - 1 != edge_weights.len() {
                            return Err(ParseError::EdgeWeight);
                        }
                        let mut i: usize = 0;
                        while i < edge_weights.len()
                            invariant
                                i <= edge_weights@.len(),
                                ew == rows_view(edge_weights@),
                                edge_weight_type == EdgeWeightType::Explicit,
                                edge_weight_format == Some(EdgeWeightFormat::LowerRow),
                                dimension >= 1,
                                dimension - 1 == edge_weights@.len(),
                                forall|k: int| 0 <= k < i ==> #[trigger] ew[k].len() == k + 1,
                            decreases edge_weights@.len() - i,
                        {
                            proof {
                                assert(ew[i as int] == edge_weights@[i as int]@);
                            }
                            if edge_weights[i].len() != i + 1 {
                                proof {
                                    assert(ew[i as int].len() != i + 1);
                                }
                                return Err(ParseError::EdgeWeight);
                            }
                            i = i + 1;
                        }
                        Ok(())
                    },
                    EdgeWeightFormat::FullMatrix => {
                        if dimension != edge_weights.len() {
                            return Err(ParseError::EdgeWeight);
                        }
                        let mut i: usize = 0;
                        while i < edge_weights.len()
                            invariant
                                i <= edge_weights@.len(),
                                ew == rows_view(edge_weights@),
                                edge_weight_type == EdgeWeightType::Explicit,
                                edge_weight_format == Some(EdgeWeightFormat::FullMatrix),
                                dimension == edge_weights@.len(),
                                forall|k: int| 0 <= k < i ==> #[trigger] ew[k].len() == dimension,
                            decreases edge_weights@.len() - i,
                        {
                            proof {
                                assert(ew[i as int] == edge_weights@[i as int]@);
                            }
                            if edge_weights[i].len() != dimension {
                                proof {
                                    assert(ew[i as int].len() != dimension);
                                }
                                return Err(ParseError::EdgeWeight);
                            }
                            i = i + 1;
                        }
                        Ok(())
                    },
                }
            } else {
                Err(ParseError::MissingEdgeWeightFormat)
            }
        },
        EdgeWeightType::Euc2D => {
            if edge_weight_format.is_some() {
                return Err(ParseError::UnexpectedEdgeWeightFormat);
            }
            Ok(())
        },
    }
}

/// One row of two coordinates for each of the `dimension` nodes.
pub open spec fn spec_is_2d_coords<X>(dimension: usize, node_coords: Seq<Seq<X>>) -> bool {
    dimension == node_coords.len() && forall|i: int|
        0 <= i < node_coords.len() ==> #[trigger] node_coords[i].len() == 2
}

/// Whether there is one row of two coordinates for each node.
pub fn is_2d_coords<X>(dimension: usize, node_coords: &[Vec<X>]) -> (r: bool)
    ensures
        r == spec_is_2d_coords(dimension, rows_view(node_coords@)),
{
    let ghost c = rows_view(node_coords@);
    if dimension != node_coords.len() {
        return false;
    }
    let mut i: usize = 0;
    while i < node_coords.len()
        invariant
            i <= node_coords@.len(),
            c == rows_view(node_coords@),
            forall|k: int| 0 <= k < i ==> #[trigger] c[k].len() == 2,
        decreases node_coords@.len() - i,
    {
        proof {
            assert(c[i as int] == node_coords@[i as int]@);
        }
        if node_coords[i].len() != 2 {
            return false;
        }
        i = i + 1;
    }
    true
}

/// Whether the node coordinates fit the edge-weight type and the coordinate
/// type: coordinates given with an explicit matrix need a coordinate type;
/// `EUC_2D`, and the coordinate type `TWOD_COORDS`, need 2D coordinates for
/// every node.
pub open spec fn spec_validate_node_coords<X>(
    dimension: usize,
    edge_weight_type: EdgeWeightType,
    node_coord_type: Option<NodeCoordType>,
    node_coords: Seq<Seq<X>>,
) -> Result<(), ParseError> {
    if edge_weight_type == EdgeWeightType::Explicit && node_coord_type is None
        && node_coords.len() != 0 {
        Err(ParseError::MissingNodeCoordType)
    } else if edge_weight_type == EdgeWeightType::Euc2D && !spec_is_2d_coords(
        dimension,
        node_coords,
    ) {
        Err(ParseError::NodeCoord)
    } else if node_coord_type is Some && !spec_is_2d_coords(dimension, node_coords) {
        Err(ParseError::NodeCoord)
    } else {
        Ok(())
    }
}

/// Two tables whose rows have the same lengths pass the same shape checks.
proof fn lemma_same_shape<X, Y>(
    dimension: usize,
    edge_weight_type: EdgeWeightType,
    edge_weight_format: Option<EdgeWeightFormat>,
    a: Seq<Seq<X>>,
    b: Seq<Seq<Y>>,
)
    requires
        a.len() == b.len(),
        forall|i: int| 0 <= i < a.len() ==> #[trigger] a[i].len() == b[i].len(),
    ensures
        spec_is_2d_coords(dimension, a) == spec_is_2d_coords(dimension, b),
        spec_validate_edge_weights(dimension, edge_weight_type, edge_weight_format, a)
            == spec_validate_edge_weights(dimension, edge_weight_type, edge_weight_format, b),
{
    if spec_is_2d_coords(dimension, a) {
        assert forall|i: int| 0 <= i < b.len() implies #[trigger] b[i].len() == 2 by {
            assert(a[i].len() == 2);
        }
    }
    if spec_is_2d_coords(dimension, b) {
        assert forall|i: int| 0 <= i < a.len() implies #[trigger] a[i].len() == 2 by {
            assert(b[i].len() == 2);
        }
    }
    if forall|i: int| 0 <= i < a.len() ==> #[trigger] a[i].len() == i + 1 {
        assert forall|i: int| 0 <= i < b.len() implies #[trigger] b[i].len() == i + 1 by {
            assert(a[i].len() == i + 1);
        }
    }
    if forall|i: int| 0 <= i < b.len() ==> #[trigger] b[i].len() == i + 1 {
        assert forall|i: int| 0 <= i < a.len() implies #[trigger] a[i].len() == i + 1 by {
            assert(b[i].len() == i + 1);
        }
    }
    if forall|i: int| 0 <= i < a.len() ==> #[trigger] a[i].len() == dimension {
        assert forall|i: int| 0 <= i < b.len() implies #[trigger] b[i].len() == dimension by {
            assert(a[i].len() == dimension);
        }
    }
    if forall|i: int| 0 <= i < b.len() ==> #[trigger] b[i].len() == dimension {
        assert forall|i: int| 0 <= i < a.len() implies #[trigger] a[i].len() == dimension by {
            assert(b[i].len() == dimension);
        }
    }
}

/// Checks that the node coordinates fit the edge-weight and coordinate types.
pub fn validate_node_coords<X>(
    dimension: usize,
    edge_weight_type: EdgeWeightType,
    node_coord_type: &Option<NodeCoordType>,
    node_coords: &[Vec<X>],
) -> (r: Result<(), ParseError>)
    ensures
        r == spec_validate_node_coords(
            dimension,
            edge_weight_type,
            *node_coord_type,
            rows_view(node_coords@),
        ),
{
    match edge_weight_type {
        EdgeWeightType::Explicit => match node_coord_type {
            Some(_) => {},
            None => {
                if node_coords.len() != 0 {
                    return Err(ParseError::MissingNodeCoordType);
                }
            },
        },
        EdgeWeightType::Euc2D => {
            if !is_2d_coords(dimension, node_coords) {
                return Err(ParseError::NodeCoord);
            }
        },
    }
    if let Some(coord_type) = node_coord_type {
        match coord_type {
            NodeCoordType::TwodCoords => {
                if !is_2d_coords(dimension, node_coords) {
                    return Err(ParseError::NodeCoord);
                }
            },
        }
    }
    Ok(())
}

/// `nodes` holds, for each demand row of two entries, a node number that
/// `node_of` may give for the row's first entry, and `None` for every other
/// row.
pub open spec fn is_demand_nodes_by<T, F: Fn(&T) -> usize>(
    demands: Seq<Vec<T>>,
    nodes: Seq<Option<usize>>,
    node_of: F,
) -> bool {
    &&& nodes.len() == demands.len()
    &&& forall|i: int|
        0 <= i < demands.len() ==> match #[trigger] nodes[i] {
            Some(n) => demands[i]@.len() == 2 && call_ensures(node_of, (&demands[i]@[0],), n),
            None => demands[i]@.len() != 2,
        }
}

/// The node number that a demand row of two entries gives, by `node_of`,
/// and `None` for every other row.
pub fn demand_nodes<T, F: Fn(&T) -> usize>(demands: &[Vec<T>], node_of: &F) -> (r: Vec<
    Option<usize>,
>)
    requires
        forall|x: &T| node_of.requires((x,)),
    ensures
        is_demand_nodes_by(demands@, r@, *node_of),
{
    let mut out: Vec<Option<usize>> = Vec::new();
    let mut i: usize = 0;
    while i < demands.len()
        invariant
            forall|x: &T| node_of.requires((x,)),
            i <= demands@.len(),
            out@.len() == i,
            forall|k: int|
                0 <= k < i ==> match #[trigger] out@[k] {
                    Some(n) => demands@[k]@.len() == 2 && call_ensures(
                        *node_of,
                        (&demands@[k]@[0],),
                        n,
                    ),
                    None => demands@[k]@.len() != 2,
                },
        decreases demands@.len() - i,
    {
        let demand = &demands[i];
        if demand.len() == 2 {
            let n = node_of(&demand[0]);
            out.push(Some(n));
        } else {
            out.push(None);
        }
        i = i + 1;
    }
    out
}

/// The node number of a demand row whose first entry is `x`: `x` truncated
/// to a `usize`, as `x as usize` gives it.
pub fn node_number(x: &u64) -> (r: usize)
    ensures
        r == (#[verifier::truncate] (*x as usize)),
{
    #[verifier::truncate]
    (*x as usize)
}

/// The node numbers of `u64` demand rows (see `node_number`).
pub open spec fn spec_u64_demand_nodes(demands: Seq<Seq<u64>>) -> Seq<Option<usize>> {
    Seq::new(
        demands.len(),
        |i: int|
            if demands[i].len() == 2 {
                Some(#[verifier::truncate] (demands[i][0] as usize))
            } else {
                None
            },
    )
}

/// Whether there is one demand row per node, each a `node demand` pair
/// whose node number (`nodes[i]`) is `1, 2, ...` in order.
pub open spec fn spec_validate_demand_nodes(dimension: usize, nodes: Seq<Option<usize>>) -> Result<
    (),
    ParseError,
> {
    if dimension == nodes.len() && forall|i: int|
        0 <= i < nodes.len() ==> ((#[trigger] nodes[i]) matches Some(n) && n == i + 1) {
        Ok(())
    } else {
        Err(ParseError::Demand)
    }
}

/// The demand check on `u64` rows: there is one row per node, each of two
/// entries whose first, as a `usize`, is the row's node number `1, 2, ...`.
pub proof fn lemma_u64_demand_check(dimension: usize, demands: Seq<Seq<u64>>)
    ensures
        spec_validate_demand_nodes(dimension, spec_u64_demand_nodes(demands)) == if dimension
            == demands.len() && forall|i: int|
            0 <= i < demands.len() ==> (#[trigger] demands[i]).len() == 2 && (
            #[verifier::truncate] (demands[i][0] as usize)) == i + 1 {
            Ok::<(), ParseError>(())
        } else {
            Err(ParseError::Demand)
        },
{
    let nodes = spec_u64_demand_nodes(demands);
    if dimension == demands.len() && forall|i: int|
        0 <= i < demands.len() ==> (#[trigger] demands[i]).len() == 2 && (
        #[verifier::truncate] (demands[i][0] as usize)) == i + 1 {
        assert forall|i: int| 0 <= i < nodes.len() implies ((#[trigger] nodes[i]) matches Some(n)
            && n == i + 1) by {
            assert(demands[i].len() == 2);
        }
    }
    if spec_validate_demand_nodes(dimension, nodes) is Ok {
        assert forall|i: int| 0 <= i < demands.len() implies (#[trigger] demands[i]).len() == 2 && (
        #[verifier::truncate] (demands[i][0] as usize)) == i + 1 by {
            assert(nodes[i] matches Some(n) && n == i + 1);
        }
    }
}

/// Checks the node numbers of the demand rows against the dimension.
pub fn validate_demand_nodes(dimension: usize, nodes: &[Option<usize>]) -> (r: Result<
    (),
    ParseError,
>)
    ensures
        r == spec_validate_demand_nodes(dimension, nodes@),
{
    if dimension != nodes.len() {
        return Err(ParseError::Demand);
    }
    let mut i: usize = 0;
    while i < nodes.len()
        invariant
            i <= nodes@.len(),
            dimension == nodes@.len(),
            forall|k: int| 0 <= k < i ==> ((#[trigger] nodes@[k]) matches Some(n) && n == k + 1),
        decreases nodes@.len() - i,
    {
        match nodes[i] {
            Some(n) => {
                if n != i + 1 {
                    return Err(ParseError::Demand);
                }
            },
            None => {
                return Err(ParseError::Demand);
            },
        }
        i = i + 1;
    }
    Ok(())
}

/// Whether every depot row is a single node number between 1 and
/// `dimension`.
pub open spec fn spec_validate_depots(dimension: usize, depots: Seq<Seq<usize>>) -> Result<
    (),
    ParseError,
> {
    if forall|i: int|
        0 <= i < depots.len() ==> #[trigger] depots[i].len() == 1 && 1 <= depots[i][0]
            <= dimension {
        Ok(())
    } else {
        Err(ParseError::Depot)
    }
}

/// Checks the depot rows against the dimension.
pub fn validate_depots(dimension: usize, depots: &[Vec<usize>]) -> (r: Result<(), ParseError>)
    ensures
        r == spec_validate_depots(dimension, rows_view(depots@)),
{
    let ghost d = rows_view(depots@);
    let mut i: usize = 0;
    while i < depots.len()
        invariant
            i <= depots@.len(),
            d == rows_view(depots@),
            forall|k: int| 0 <= k < i ==> #[trigger] d[k].len() == 1,
            forall|k: int| 0 <= k < i ==> 1 <= #[trigger] d[k][0] <= dimension,
        decreases depots@.len() - i,
    {
        proof {
            assert(d[i as int] == depots@[i as int]@);
        }
        let depot = &depots[i];
        assert(depot@ == d[i as int]);
        if !(depot.len() == 1 && 1 <= depot[0] && depot[0] <= dimension) {
            return Err(ParseError::Depot);
        }
        i = i + 1;
    }
    Ok(())
}

/// Whether section data is complete and consistent: the name, problem type,
/// dimension and edge-weight type are given (checked in that order), then
/// the edge weights, node coordinates, demands (their rows giving the node
/// numbers `nodes`) and depots fit.
pub open spec fn spec_validate_format<V>(d: SectionModel<V>, nodes: Seq<Option<usize>>) -> Result<
    (),
    ParseError,
> {
    if d.name is None {
        Err(ParseError::MissingName)
    } else if d.problem_type is None {
        Err(ParseError::MissingProblemType)
    } else if d.dimension is None {
        Err(ParseError::MissingDimension)
    } else if d.edge_weight_type is None {
        Err(ParseError::MissingEdgeWeightType)
    } else {
        let dimension = d.dimension->0;
        let edge_weight_type = d.edge_weight_type->0;
        first_error(
            spec_validate_edge_weights(
                dimension,
                edge_weight_type,
                d.edge_weight_format,
                d.edge_weights,
            ),
            first_error(
                spec_validate_node_coords(
                    dimension,
                    edge_weight_type,
                    d.node_coord_type,
                    d.node_coords,
                ),
                first_error(
                    spec_validate_demand_nodes(dimension, nodes),
                    spec_validate_depots(dimension, d.depots),
                ),
            ),
        )
    }
}

/// For `EUC_2D` data with one 2D coordinate row per node, a
/// `NODE_COORD_TYPE` line changes nothing: the data pass or fail the checks
/// alike with any coordinate type or none.
pub proof fn lemma_euc2d_coord_type_is_optional<V>(
    d: SectionModel<V>,
    nodes: Seq<Option<usize>>,
    coord_type: Option<NodeCoordType>,
)
    requires
        d.edge_weight_type == Some(EdgeWeightType::Euc2D),
        d.dimension matches Some(n) && d.node_coords.len() == n,
        forall|i: int| 0 <= i < d.node_coords.len() ==> (#[trigger] d.node_coords[i]).len() == 2,
    ensures
        spec_validate_format(d, nodes) == spec_validate_format(
            SectionModel { node_coord_type: coord_type, ..d },
            nodes,
        ),
{
}

/// Checks that section data is complete and consistent, where `nodes` are
/// the node numbers that its demand rows give.
pub fn validate_format_with<T: View>(section_data: &SectionData<T>, nodes: &[Option<usize>]) -> (r:
    Result<(), ParseError>)
    ensures
        r == spec_validate_format(section_data@, nodes@),
{
    if section_data.name.is_none() {
        return Err(ParseError::MissingName);
    }
    if section_data.problem_type.is_none() {
        return Err(ParseError::MissingProblemType);
    }
    let dimension = match section_data.dimension {
        Some(d) => d,
        None => {
            return Err(ParseError::MissingDimension);
        },
    };
    let edge_weight_type = match section_data.edge_weight_type {
        Some(t) => t,
        None => {
            return Err(ParseError::MissingEdgeWeightType);
        },
    };
    let ghost w = section_data.edge_weights@;
    proof {
        assert forall|i: int| 0 <= i < w.len() implies #[trigger] rows_view(w)[i].len()
            == value_rows_view(w)[i].len() by {
            assert(rows_view(w)[i] == w[i]@);
            assert(value_rows_view(w)[i] == values_view(w[i]@));
        }
        lemma_same_shape(dimension, edge_weight_type, section_data.edge_weight_format, rows_view(w), value_rows_view(w));
    }
    validate_edge_weights(
        dimension,
        edge_weight_type,
        section_data.edge_weight_format,
        section_data.edge_weights.as_slice(),
    )?;
    let ghost a = rows_view(section_data.node_coords@);
    let ghost b = literal_rows_view(section_data.node_coords@);
    proof {
        assert forall|i: int| 0 <= i < a.len() implies #[trigger] a[i].len() == b[i].len() by {
            assert(a[i] == section_data.node_coords@[i]@);
            assert(b[i] == literals_view(section_data.node_coords@[i]@));
        }
        lemma_same_shape(dimension, edge_weight_type, section_data.edge_weight_format, a, b);
    }
    validate_node_coords(
        dimension,
        edge_weight_type,
        &section_data.node_coord_type,
        section_data.node_coords.as_slice(),
    )?;
    validate_demand_nodes(dimension, nodes)?;
    validate_depots(dimension, section_data.depots.as_slice())?;
    Ok(())
}

/// Checks that `u64` section data is complete and consistent, the node
/// number of a demand row being its first entry as a `usize`.
pub fn validate_format(section_data: &SectionData<u64>) -> (r: Result<(), ParseError>)
    ensures
        r == spec_validate_format(section_data@, spec_u64_demand_nodes(section_data@.demands)),
{
    let nodes = demand_nodes(section_data.demands.as_slice(), &node_number);
    proof {
        let d = section_data.demands@;
        lemma_u64_views(d);
        assert forall|i: int| 0 <= i < d.len() implies #[trigger] nodes@[i]
            == spec_u64_demand_nodes(section_data@.demands)[i] by {
            assert(section_data@.demands[i] == d[i]@);
        }
        assert(nodes@ =~= spec_u64_demand_nodes(section_data@.demands));
    }
    validate_format_with(section_data, nodes.as_slice())
}

/// The section data of a token stream of `u64` numbers, if it can be read
/// and is complete and consistent; else the first error.
pub open spec fn spec_parse(toks: Seq<SpecToken>) -> Result<SectionModel<u64>, ParseError> {
    match spec_parse_tokens::<u64>(toks) {
        Err(e) => Err(e),
        Ok(d) => match spec_validate_format(d, spec_u64_demand_nodes(d.demands)) {
            Err(e) => Err(e),
            Ok(_) => Ok(d),
        },
    }
}

/// Reads a VRPLib token stream of `u64` numbers into section data and checks
/// it.
pub fn parse(tokens: &[Token]) -> (r: Result<SectionData<u64>, ParseError>)
    requires
        tokens@.len() < usize::MAX,
    ensures
        match r {
            Ok(d) => spec_parse(tokens_view(tokens@)) == Ok::<SectionModel<u64>, ParseError>(d@),
            Err(e) => spec_parse(tokens_view(tokens@)) == Err::<SectionModel<u64>, ParseError>(e),
        },
{
    let section_data = parse_tokens::<u64>(tokens)?;
    validate_format(&section_data)?;
    Ok(section_data)
}

/// What reading a token stream gives where `node_of` gives the node numbers
/// of demand rows: the first token that cannot be read; else, for section
/// data read and node numbers that `node_of` may give for its demand rows,
/// the first check that fails, or the data.
pub open spec fn is_parse_result_by<T: Numeric, F: Fn(&T) -> usize>(
    toks: Seq<SpecToken>,
    r: Result<SectionData<T>, ParseError>,
    node_of: F,
) -> bool {
    match spec_parse_tokens::<T>(toks) {
        Err(e) => r == Err::<SectionData<T>, ParseError>(e),
        Ok(m) => exists|d: SectionData<T>, nodes: Seq<Option<usize>>|
            #![trigger is_demand_nodes_by(d.demands@, nodes, node_of)]
            d@ == m && is_demand_nodes_by(d.demands@, nodes, node_of) && match spec_validate_format(
                m,
                nodes,
            ) {
                Err(e) => r == Err::<SectionData<T>, ParseError>(e),
                Ok(_) => r == Ok::<SectionData<T>, ParseError>(d),
            },
    }
}

/// Reads a VRPLib token stream into section data and checks it, with
/// `node_of` giving the node number of a demand row from its first entry.
pub fn parse_with<T: Numeric, F: Fn(&T) -> usize>(tokens: &[Token], node_of: F) -> (r: Result<
    SectionData<T>,
    ParseError,
>)
    requires
        tokens@.len() < usize::MAX,
        forall|x: &T| node_of.requires((x,)),
    ensures
        is_parse_result_by(tokens_view(tokens@), r, node_of),
{
    let section_data = match parse_tokens::<T>(tokens) {
        Ok(d) => d,
        Err(e) => {
            return Err(e);
        },
    };
    let nodes = demand_nodes(section_data.demands.as_slice(), &node_of);
    proof {
        assert(is_demand_nodes_by(section_data.demands@, nodes@, node_of));
    }
    match validate_format_with(&section_data, nodes.as_slice()) {
        Ok(()) => Ok(section_data),
        Err(e) => Err(e),
    }
}

} // verus!
