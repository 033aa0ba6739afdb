//! Reading the tokens of a Solomon file into instance data.
use vstd::prelude::*;

use super::lexer::{SpecToken, Token, tokens_view};
use crate::instance::{Coord, coords_text};
use crate::numeric::{FloatLiteral, is_float_literal, parse_usize, spec_parse_usize};
use crate::text::strings_view;
use crate::vrplib::parser::literals_view;

verus! {

/// The data of a Solomon file: the instance name, the vehicle count and
/// capacity, and for each node (the depot first) its coordinates, demand,
/// time window and service time.
#[derive(Debug, PartialEq)]
pub struct SolomonData {
    pub name: String,
    pub vehicle_count: usize,
    pub capacity: FloatLiteral,
    pub node_coords: Vec<Coord>,
    pub demands: Vec<FloatLiteral>,
    pub time_windows: Vec<(FloatLiteral, FloatLiteral)>,
    pub service_times: Vec<FloatLiteral>,
}

/// Why a Solomon token stream does not describe an instance.
#[derive(Clone, Copy, Debug, PartialEq, Eq, Structural)]
pub enum SolomonParseError {
    /// The stream ends where a line is still needed, or does not start with
    /// the instance name.
    UnexpectedEof,
    MissingVehicleSection,
    MissingCustomerSection,
    /// The line after the vehicle header is not a vehicle count and a
    /// capacity.
    InvalidVehicleLine,
    /// A line of the customer section is not a customer number and six
    /// numbers.
    InvalidCustomerRow,
    NoCustomers,
}

/// Solomon data with texts as character sequences.
pub ghost struct SolomonModel {
    pub name: Seq<char>,
    pub vehicle_count: usize,
    pub capacity: Seq<char>,
    pub node_coords: Seq<(Seq<char>, Seq<char>)>,
    pub demands: Seq<Seq<char>>,
    pub time_windows: Seq<(Seq<char>, Seq<char>)>,
    pub service_times: Seq<Seq<char>>,
}

impl View for SolomonData {
    type V = SolomonModel;

    open spec fn view(&self) -> SolomonModel {
        SolomonModel {
            name: self.name@,
            vehicle_count: self.vehicle_count,
            capacity: self.capacity@,
            node_coords: coords_text(self.node_coords@),
            demands: literals_view(self.demands@),
            time_windows: coords_text(self.time_windows@),
            service_times: literals_view(self.service_times@),
        }
    }
}

/// The index of the first `VEHICLE` (or, if `customer`, `CUSTOMER`) keyword
/// at or after `from`.
pub open spec fn find_section(toks: Seq<SpecToken>, from: int, customer: bool) -> Option<int>
    decreases toks.len() - from,
{
    if from < 0 || from >= toks.len() {
        None
    } else if (customer && toks[from] is CustomerSection) || (!customer
        && toks[from] is VehicleSection) {
        Some(from)
    } else {
        find_section(toks, from + 1, customer)
    }
}

/// The vehicle count and capacity text of a vehicle row.
pub open spec fn spec_vehicle(parts: Seq<Seq<char>>) -> Result<(usize, Seq<char>), SolomonParseError> {
    if parts.len() < 2 {
        Err(SolomonParseError::InvalidVehicleLine)
    } else if spec_parse_usize(parts[0]) is None {
        Err(SolomonParseError::InvalidVehicleLine)
    } else if !is_float_literal(parts[1]) {
        Err(SolomonParseError::InvalidVehicleLine)
    } else {
        Ok((spec_parse_usize(parts[0])->0, parts[1]))
    }
}

/// The six number texts (x, y, demand, ready time, due date, service time)
/// of a customer row `number x y demand ready due service`; the customer
/// number itself is not read.
pub open spec fn spec_customer(parts: Seq<Seq<char>>) -> Result<Seq<Seq<char>>, SolomonParseError> {
    if parts.len() != 7 {
        Err(SolomonParseError::InvalidCustomerRow)
    } else if forall|i: int| 1 <= i < 7 ==> is_float_literal(#[trigger] parts[i]) {
        Ok(parts.skip(1))
    } else {
        Err(SolomonParseError::InvalidCustomerRow)
    }
}

/// The customer rows of the tokens after the customer header, or the first
/// one that fails.
pub open spec fn spec_customers(toks: Seq<SpecToken>) -> Result<Seq<Seq<Seq<char>>>, SolomonParseError>
    decreases toks.len(),
{
    if toks.len() == 0 {
        Ok(Seq::empty())
    } else {
        match toks[0] {
            SpecToken::Data(p) => match spec_customer(p) {
                Err(e) => Err(e),
                Ok(row) => match spec_customers(toks.drop_first()) {
                    Err(e) => Err(e),
                    Ok(rows) => Ok(seq![row] + rows),
                },
            },
            _ => Err(SolomonParseError::InvalidCustomerRow),
        }
    }
}

/// The data of a token stream: the instance name first; then, after the
/// `VEHICLE` keyword, a header line and the vehicle row; then, after the
/// `CUSTOMER` keyword, a header line and one or more customer rows.
pub open spec fn spec_solomon_parse(toks: Seq<SpecToken>) -> Result<SolomonModel, SolomonParseError> {
    if toks.len() == 0 || !(toks[0] is InstanceName) {
        Err(SolomonParseError::UnexpectedEof)
    } else {
        match find_section(toks, 1, false) {
            None => Err(SolomonParseError::MissingVehicleSection),
            Some(v) => {
                if v + 1 >= toks.len() {
                    Err(SolomonParseError::UnexpectedEof)
                } else if v + 2 >= toks.len() || !(toks[v + 2] is Data) {
                    Err(SolomonParseError::InvalidVehicleLine)
                } else {
                    match spec_vehicle(toks[v + 2]->Data_0) {
                        Err(e) => Err(e),
                        Ok((count, capacity)) => match find_section(toks, v + 3, true) {
                            None => Err(SolomonParseError::MissingCustomerSection),
                            Some(c) => {
                                if c + 1 >= toks.len() {
                                    Err(SolomonParseError::UnexpectedEof)
                                } else {
                                    match spec_customers(toks.skip(c + 2)) {
                                        Err(e) => Err(e),
                                        Ok(rows) => {
                                            if rows.len() == 0 {
                                                Err(SolomonParseError::NoCustomers)
                                            } else {
                                                Ok(
                                                    SolomonModel {
                                                        name: toks[0]->InstanceName_0,
                                                        vehicle_count: count,
                                                        capacity,
                                                        node_coords: rows.map_values(
                                                            |r: Seq<Seq<char>>| (r[0], r[1]),
                                                        ),
                                                        demands: rows.map_values(
                                                            |r: Seq<Seq<char>>| r[2],
                                                        ),
                                                        time_windows: rows.map_values(
                                                            |r: Seq<Seq<char>>| (r[3], r[4]),
                                                        ),
                                                        service_times: rows.map_values(
                                                            |r: Seq<Seq<char>>| r[5],
                                                        ),
                                                    },
                                                )
                                            }
                                        },
                                    }
                                }
                            },
                        },
                    }
                }
            },
        }
    }
}

/// Reads the vehicle row: a vehicle count and a capacity.
pub fn parse_vehicle_data(parts: &[String]) -> (r: Result<(usize, FloatLiteral), SolomonParseError>)
    ensures
        match r {
            Ok((n, c)) => spec_vehicle(strings_view(parts@)) == Ok::<
                (usize, Seq<char>),
                SolomonParseError,
            >((n, c@)),
            Err(e) => spec_vehicle(strings_view(parts@)) == Err::<(usize, Seq<char>), SolomonParseError>(
                e,
            ),
        },
{
    let ghost p = strings_view(parts@);
    if parts.len() < 2 {
        return Err(SolomonParseError::InvalidVehicleLine);
    }
    proof {
        assert(p[0] == parts@[0]@);
        assert(p[1] == parts@[1]@);
    }
    let count = match parse_usize(parts[0].as_str()) {
        Some(n) => n,
        None => {
            return Err(SolomonParseError::InvalidVehicleLine);
        },
    };
    let cap = match FloatLiteral::parse(parts[1].as_str()) {
        Some(c) => c,
        None => {
            return Err(SolomonParseError::InvalidVehicleLine);
        },
    };
    Ok((count, cap))
}

/// The literal of a customer-row word, or the row error.
fn customer_field(s: &String) -> (r: Result<FloatLiteral, SolomonParseError>)
    ensures
        match r {
            Ok(f) => is_float_literal(s@) && f@ == s@,
            Err(e) => !is_float_literal(s@) && e == SolomonParseError::InvalidCustomerRow,
        },
{
    match FloatLiteral::parse(s.as_str()) {
        Some(f) => Ok(f),
        None => Err(SolomonParseError::InvalidCustomerRow),
    }
}

/// Reads a customer row: the customer number (not read), coordinates x and
/// y, demand, ready time, due date and service time.
pub fn parse_customer_data(parts: &[String]) -> (r: Result<
    (FloatLiteral, FloatLiteral, FloatLiteral, FloatLiteral, FloatLiteral, FloatLiteral),
    SolomonParseError,
>)
    ensures
        match r {
            Ok((x, y, demand, ready, due, svc)) => spec_customer(strings_view(parts@)) == Ok::<
                Seq<Seq<char>>,
                SolomonParseError,
            >(seq![x@, y@, demand@, ready@, due@, svc@]),
            Err(e) => spec_customer(strings_view(parts@)) == Err::<
                Seq<Seq<char>>,
                SolomonParseError,
            >(e),
        },
{
    let ghost p = strings_view(parts@);
    if parts.len() != 7 {
        return Err(SolomonParseError::InvalidCustomerRow);
    }
    proof {
        assert forall|i: int| 0 <= i < 7 implies p[i] == parts@[i]@ by {}
    }
    let x = match customer_field(&parts[1]) {
        Ok(f) => f,
        Err(e) => {
            proof {
                assert(!is_float_literal(p[1]));
            }
            return Err(e);
        },
    };
    let y = match customer_field(&parts[2]) {
        Ok(f) => f,
        Err(e) => {
            proof {
                assert(!is_float_literal(p[2]));
            }
            return Err(e);
        },
    };
    let demand = match customer_field(&parts[3]) {
        Ok(f) => f,
        Err(e) => {
            proof {
                assert(!is_float_literal(p[3]));
            }
            return Err(e);
        },
    };
    let ready = match customer_field(&parts[4]) {
        Ok(f) => f,
        Err(e) => {
            proof {
                assert(!is_float_literal(p[4]));
            }
            return Err(e);
        },
    };
    let due = match customer_field(&parts[5]) {
        Ok(f) => f,
        Err(e) => {
            proof {
                assert(!is_float_literal(p[5]));
            }
            return Err(e);
        },
    };
    let svc = match customer_field(&parts[6]) {
        Ok(f) => f,
        Err(e) => {
            proof {
                assert(!is_float_literal(p[6]));
            }
            return Err(e);
        },
    };
    proof {
        assert(p.skip(1) =~= seq![x@, y@, demand@, ready@, due@, svc@]);
    }
    Ok((x, y, demand, ready, due, svc))
}

/// The rows `acc`, then those of `rest`, or the error of `rest`.
pub open spec fn prepend_rows(
    acc: Seq<Seq<Seq<char>>>,
    rest: Result<Seq<Seq<Seq<char>>>, SolomonParseError>,
) -> Result<Seq<Seq<Seq<char>>>, SolomonParseError> {
    match rest {
        Ok(rows) => Ok(acc + rows),
        Err(e) => Err(e),
    }
}

/// Whether `toks[k]` is the `VEHICLE` (or, if `customer`, `CUSTOMER`)
/// keyword.
fn is_section(tokens: &[Token], k: usize, customer: bool) -> (r: bool)
    requires
        k < tokens@.len(),
    ensures
        r == ((customer && tokens_view(tokens@)[k as int] is CustomerSection) || (!customer
            && tokens_view(tokens@)[k as int] is VehicleSection)),
{
    match &tokens[k] {
        Token::VehicleSection => !customer,
        Token::CustomerSection => customer,
        _ => false,
    }
}

/// The index of the first `VEHICLE` (or `CUSTOMER`) keyword at or after
/// `from`, or the length of the stream if there is none.
fn find_section_index(tokens: &[Token], from: usize, customer: bool) -> (r: usize)
    requires
        from <= tokens@.len(),
    ensures
        from <= r <= tokens@.len(),
        r < tokens@.len() ==> find_section(tokens_view(tokens@), from as int, customer) == Some(
            r as int,
        ),
        r == tokens@.len() ==> find_section(tokens_view(tokens@), from as int, customer) is None,
{
    let ghost toks = tokens_view(tokens@);
    let mut k = from;
    while k < tokens.len() && !is_section(tokens, k, customer)
        invariant
            from <= k <= tokens@.len(),
            toks == tokens_view(tokens@),
            find_section(toks, from as int, customer) == find_section(toks, k as int, customer),
        decreases tokens@.len() - k,
    {
        k = k + 1;
    }
    k
}

/// Reads a Solomon token stream into instance data (see
/// `spec_solomon_parse`).
pub fn parse(tokens: &[Token]) -> (r: Result<SolomonData, SolomonParseError>)
    ensures
        match r {
            Ok(d) => spec_solomon_parse(tokens_view(tokens@)) == Ok::<SolomonModel, SolomonParseError>(
                d@,
            ),
            Err(e) => spec_solomon_parse(tokens_view(tokens@)) == Err::<
                SolomonModel,
                SolomonParseError,
            >(e),
        },
{
    let ghost toks = tokens_view(tokens@);
    let n = tokens.len();
    if n == 0 {
        return Err(SolomonParseError::UnexpectedEof);
    }
    let name = match &tokens[0] {
        Token::InstanceName(s) => s.clone(),
        _ => {
            return Err(SolomonParseError::UnexpectedEof);
        },
    };
    let v = find_section_index(tokens, 1, false);
    if v == n {
        return Err(SolomonParseError::MissingVehicleSection);
    }
    // The header line of the vehicle section is skipped.
    if v + 1 >= n {
        return Err(SolomonParseError::UnexpectedEof);
    }
    if v + 2 >= n {
        return Err(SolomonParseError::InvalidVehicleLine);
    }
    let (vehicle_count, capacity) = match &tokens[v + 2] {
        Token::Data(parts) => parse_vehicle_data(parts.as_slice())?,
        _ => {
            return Err(SolomonParseError::InvalidVehicleLine);
        },
    };
    let c = find_section_index(tokens, v + 3, true);
    if c == n {
        return Err(SolomonParseError::MissingCustomerSection);
    }
    // The header line of the customer section is skipped.
    if c + 1 >= n {
        return Err(SolomonParseError::UnexpectedEof);
    }
    let mut node_coords: Vec<Coord> = Vec::new();
    let mut demands: Vec<FloatLiteral> = Vec::new();
    let mut time_windows: Vec<(FloatLiteral, FloatLiteral)> = Vec::new();
    let mut service_times: Vec<FloatLiteral> = Vec::new();
    let ghost mut acc: Seq<Seq<Seq<char>>> = Seq::empty();
    let mut k = c + 2;
    proof {
        assert(prepend_rows(acc, spec_customers(toks.skip(k as int))) =~= spec_customers(
            toks.skip(k as int),
        )) by {
            match spec_customers(toks.skip(k as int)) {
                Ok(rows) => {
                    assert(acc + rows =~= rows);
                },
                Err(_) => {},
            }
        }
    }
    #[verifier::loop_isolation(false)]
    while k < n
        invariant
            n == tokens@.len(),
            toks == tokens_view(tokens@),
            c + 2 <= k <= n,
            spec_customers(toks.skip(c + 2)) == prepend_rows(acc, spec_customers(toks.skip(k as int))),
            forall|i: int| 0 <= i < acc.len() ==> (#[trigger] acc[i]).len() == 6,
            coords_text(node_coords@) == acc.map_values(|r: Seq<Seq<char>>| (r[0], r[1])),
            literals_view(demands@) == acc.map_values(|r: Seq<Seq<char>>| r[2]),
            coords_text(time_windows@) == acc.map_values(|r: Seq<Seq<char>>| (r[3], r[4])),
            literals_view(service_times@) == acc.map_values(|r: Seq<Seq<char>>| r[5]),
        decreases n - k,
    {
        let ghost s = toks.skip(k as int);
        proof {
            assert(s[0] == tokens@[k as int]@);
            assert(s.drop_first() =~= toks.skip(k + 1));
        }
        match &tokens[k] {
            Token::Data(parts) => {
                match parse_customer_data(parts.as_slice()) {
                    Ok((x, y, demand, ready, due, svc)) => {
                        let ghost row = seq![x@, y@, demand@, ready@, due@, svc@];
                        let ghost old_c = node_coords@;
                        let ghost old_d = demands@;
                        let ghost old_t = time_windows@;
                        let ghost old_s = service_times@;
                        node_coords.push((x, y));
                        demands.push(demand);
                        time_windows.push((ready, due));
                        service_times.push(svc);
                        proof {
                            let new_acc = acc.push(row);
                            match spec_customers(toks.skip(k + 1)) {
                                Ok(rows) => {
                                    assert(acc + (seq![row] + rows) =~= new_acc + rows);
                                },
                                Err(_) => {},
                            }
                            assert(coords_text(node_coords@) =~= coords_text(old_c).push(
                                (row[0], row[1]),
                            ));
                            assert(new_acc.map_values(|r: Seq<Seq<char>>| (r[0], r[1]))
                                =~= acc.map_values(|r: Seq<Seq<char>>| (r[0], r[1])).push(
                                (row[0], row[1]),
                            ));
                            assert(literals_view(demands@) =~= literals_view(old_d).push(row[2]));
                            assert(new_acc.map_values(|r: Seq<Seq<char>>| r[2]) =~= acc.map_values(
                                |r: Seq<Seq<char>>| r[2],
                            ).push(row[2]));
                            assert(coords_text(time_windows@) =~= coords_text(old_t).push(
                                (row[3], row[4]),
                            ));
                            assert(new_acc.map_values(|r: Seq<Seq<char>>| (r[3], r[4]))
                                =~= acc.map_values(|r: Seq<Seq<char>>| (r[3], r[4])).push(
                                (row[3], row[4]),
                            ));
                            assert(literals_view(service_times@) =~= literals_view(old_s).push(
                                row[5],
                            ));
                            assert(new_acc.map_values(|r: Seq<Seq<char>>| r[5]) =~= acc.map_values(
                                |r: Seq<Seq<char>>| r[5],
                            ).push(row[5]));
                            acc = new_acc;
                        }
                    },
                    Err(e) => {
                        return Err(e);
                    },
                }
            },
            _ => {
                return Err(SolomonParseError::InvalidCustomerRow);
            },
        }
        k = k + 1;
    }
    proof {
        assert(toks.skip(k as int) =~= Seq::<SpecToken>::empty());
        assert(acc + Seq::<Seq<Seq<char>>>::empty() =~= acc);
    }
    if node_coords.len() == 0 {
        return Err(SolomonParseError::NoCustomers);
    }
    let data = SolomonData {
        name,
        vehicle_count,
        capacity,
        node_coords,
        demands,
        time_windows,
        service_times,
    };
    Ok(data)
}

/// The data of a Solomon file hold at least one node, and one coordinate
/// pair, demand, time window and service time for each node.
pub proof fn lemma_one_entry_per_node(toks: Seq<SpecToken>)
    requires
        spec_solomon_parse(toks) is Ok,
    ensures
        ({
            let m = spec_solomon_parse(toks)->Ok_0;
            &&& m.node_coords.len() >= 1
            &&& m.demands.len() == m.node_coords.len()
            &&& m.time_windows.len() == m.node_coords.len()
            &&& m.service_times.len() == m.node_coords.len()
        }),
{
}

/// The customer rows read from tokens are the tokens themselves, one per
/// token, in order: each a customer line of seven words, without its first.
proof fn lemma_customer_rows(toks: Seq<SpecToken>)
    requires
        spec_customers(toks) is Ok,
    ensures
        spec_customers(toks)->Ok_0.len() == toks.len(),
        forall|k: int|
            0 <= k < toks.len() ==> ((#[trigger] toks[k]) matches SpecToken::Data(p) && p.len() == 7
                && spec_customers(toks)->Ok_0[k] == p.skip(1)),
    decreases toks.len(),
{
    if toks.len() > 0 {
        let rest = toks.drop_first();
        lemma_customer_rows(rest);
        let rows = spec_customers(toks)->Ok_0;
        assert forall|k: int| 0 <= k < toks.len() implies (#[trigger] toks[k]) matches SpecToken::Data(
            p,
        ) && p.len() == 7 && rows[k] == p.skip(1) by {
            if k > 0 {
                assert(toks[k] == rest[k - 1]);
            }
        }
    }
}

/// A Solomon file has one node per customer row: the rows are every token
/// after the `CUSTOMER` keyword and the header line that follows it, and
/// node `k` takes its coordinates, demand, time window and service time
/// from the fields of the `k`-th row (`number x y demand ready due
/// service`).
pub proof fn lemma_one_node_per_customer_row(toks: Seq<SpecToken>)
    requires
        spec_solomon_parse(toks) is Ok,
    ensures
        ({
            let m = spec_solomon_parse(toks)->Ok_0;
            exists|c: int|
                0 <= c && c + 2 <= toks.len() && #[trigger] toks[c] is CustomerSection
                    && m.node_coords.len() == toks.len() - (c + 2) && forall|k: int|
                    0 <= k < m.node_coords.len() ==> ((#[trigger] toks[c + 2 + k]) matches SpecToken::Data(
                        p,
                    ) && p.len() == 7 && m.node_coords[k] == (p[1], p[2]) && m.demands[k] == p[3]
                        && m.time_windows[k] == (p[4], p[5]) && m.service_times[k] == p[6])
        }),
{
    let m = spec_solomon_parse(toks)->Ok_0;
    let v = find_section(toks, 1, false)->0;
    let c = find_section(toks, v + 3, true)->0;
    lemma_find_section_found(toks, v + 3, true);
    let tail = toks.skip(c + 2);
    lemma_customer_rows(tail);
    let rows = spec_customers(tail)->Ok_0;
    assert forall|k: int| 0 <= k < m.node_coords.len() implies (#[trigger] toks[c + 2 + k]) matches SpecToken::Data(
        p,
    ) && p.len() == 7 && m.node_coords[k] == (p[1], p[2]) && m.demands[k] == p[3]
        && m.time_windows[k] == (p[4], p[5]) && m.service_times[k] == p[6] by {
        assert(toks[c + 2 + k] == tail[k]);
        let p = tail[k]->Data_0;
        assert(rows[k] == p.skip(1));
    }
    assert(toks[c] is CustomerSection);
}

/// Where `find_section` finds a keyword, the keyword is there.
proof fn lemma_find_section_found(toks: Seq<SpecToken>, from: int, customer: bool)
    requires
        find_section(toks, from, customer) is Some,
    ensures
        ({
            let i = find_section(toks, from, customer)->0;
            &&& from <= i < toks.len()
            &&& customer ==> toks[i] is CustomerSection
            &&& !customer ==> toks[i] is VehicleSection
        }),
    decreases toks.len() - from,
{
    if !(from < 0 || from >= toks.len()) && !((customer && toks[from] is CustomerSection) || (
    !customer && toks[from] is VehicleSection)) {
        lemma_find_section_found(toks, from + 1, customer);
    }
}

} // verus!
