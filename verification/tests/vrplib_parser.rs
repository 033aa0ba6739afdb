use vrp_parser::vrplib::parser::{
    demand_nodes, node_number, parse, parse_tokens, parse_with, validate_demand_nodes,
    validate_format, validate_format_with, SectionData,
};
use vrp_parser::vrplib::token::Token;
use vrp_parser::vrplib::types::{EdgeWeightFormat, EdgeWeightType, NodeCoordType};
use vrp_parser::{FloatLiteral, ParseError, ProblemType};

fn lit(s: &str) -> FloatLiteral {
    FloatLiteral::parse(s).unwrap()
}

fn data(words: &[&str]) -> Token {
    Token::Data(words.iter().map(|w| w.to_string()).collect())
}

fn coords(rows: &[[&str; 2]]) -> Vec<Vec<FloatLiteral>> {
    rows.iter().map(|r| vec![lit(r[0]), lit(r[1])]).collect()
}

fn header() -> Vec<Token> {
    vec![
        Token::Name("This is a name.".to_string()),
        Token::Comment("This is a comment.".to_string()),
        Token::Type("CVRP".to_string()),
        Token::Dimension("3".to_string()),
        Token::EdgeWeightType("EXPLICIT".to_string()),
        Token::EdgeWeightFormat("LOWER_ROW".to_string()),
        Token::NodeCoordType("TWOD_COORDS".to_string()),
        Token::Capacity("2".to_string()),
    ]
}

fn tokens_with(ew: &[&[&str]], nc: &[&[&str]], dm: &[&[&str]], dp: &[&[&str]]) -> Vec<Token> {
    let mut t = header();
    t.push(Token::EdgeWeightSection);
    t.extend(ew.iter().map(|r| data(r)));
    t.push(Token::NodeCoordSection);
    t.extend(nc.iter().map(|r| data(r)));
    t.push(Token::DemandSection);
    t.extend(dm.iter().map(|r| data(r)));
    t.push(Token::DepotSection);
    t.extend(dp.iter().map(|r| data(r)));
    t
}

fn valid_section_data() -> SectionData<u64> {
    SectionData::<u64> {
        name: Some("This is a name.".to_string()),
        problem_type: Some(ProblemType::Cvrp),
        dimension: Some(3),
        edge_weight_type: Some(EdgeWeightType::Explicit),
        edge_weight_format: Some(EdgeWeightFormat::LowerRow),
        node_coord_type: Some(NodeCoordType::TwodCoords),
        capacity: Some(2),
        edge_weights: vec![vec![4], vec![5, 6]],
        node_coords: coords(&[["0.0", "0.0"], ["7.0", "8.0"], ["9.0", "10.0"]]),
        demands: vec![vec![1, 0], vec![2, 11], vec![3, 12]],
        depots: vec![vec![1]],
    }
}

#[test]
fn test_parse_tokens_succeeds() {
    let sut = tokens_with(
        &[&["4"], &["5", "6"]],
        &[&["1", "0", "0"], &["2", "7", "8"], &["3", "9", "10"]],
        &[&["1", "0"], &["2", "11"], &["3", "12"]],
        &[&["1"]],
    );

    let value: SectionData<u64> = parse_tokens(&sut).unwrap();

    let expected = SectionData::<u64> {
        node_coords: coords(&[["0", "0"], ["7", "8"], ["9", "10"]]),
        ..valid_section_data()
    };
    assert_eq!(value, expected);
}

#[test]
fn test_parse_tokens_fails_when_edge_weight_section_is_invalid() {
    let sut = tokens_with(
        &[&["A"], &["5", "6"]],
        &[&["1", "0", "0"], &["2", "7", "8"], &["3", "9", "10"]],
        &[&["1", "0"], &["2", "11"], &["3", "12"]],
        &[&["1"]],
    );

    let value: Result<SectionData<u64>, _> = parse_tokens(&sut);
    let value = value.unwrap_err();

    let expected = ParseError::EdgeWeight;
    assert_eq!(value, expected);
}

#[test]
fn test_parse_tokens_fails_when_edge_node_coord_section_is_invalid() {
    let sut = tokens_with(
        &[&["4"], &["5", "6"]],
        &[&["1", "ABC", "0"], &["2", "7", "8"], &["3", "9", "10"]],
        &[&["1", "0"], &["2", "11"], &["3", "12"]],
        &[&["1"]],
    );

    let value: Result<SectionData<u64>, _> = parse_tokens(&sut);
    let value = value.unwrap_err();

    let expected = ParseError::NodeCoord;
    assert_eq!(value, expected);
}

#[test]
fn test_parse_tokens_fails_when_edge_node_demand_section_is_invalid() {
    let sut = tokens_with(
        &[&["4"], &["5", "6"]],
        &[&["1", "0", "0"], &["2", "7", "8"], &["3", "9", "10"]],
        &[&["1", "0"], &["2", "1A"], &["3", "12"]],
        &[&["1"]],
    );

    let value: Result<SectionData<u64>, _> = parse_tokens(&sut);
    let value = value.unwrap_err();

    let expected = ParseError::Demand;
    assert_eq!(value, expected);
}

#[test]
fn test_parse_tokens_fails_when_edge_node_depot_section_is_invalid() {
    let sut = tokens_with(
        &[&["4"], &["5", "6"]],
        &[&["1", "0", "0"], &["2", "7", "8"], &["3", "9", "10"]],
        &[&["1", "0"], &["2", "1"], &["3", "12"]],
        &[&["A1"]],
    );

    let value: Result<SectionData<u64>, _> = parse_tokens(&sut);
    let value = value.unwrap_err();

    let expected = ParseError::Depot;
    assert_eq!(value, expected);
}

#[test]
fn test_validate_format_succeeds() {
    let sut = valid_section_data();

    let value = validate_format(&sut);

    let expected = Ok(());
    assert_eq!(value, expected);
}

#[test]
fn test_validate_format_fails_if_missing_name() {
    let sut = SectionData::<u64> {
        name: None,
        ..valid_section_data()
    };

    let value = validate_format(&sut);

    let expected = Err(ParseError::MissingName);
    assert_eq!(value, expected);
}

#[test]
fn test_validate_format_fails_if_missing_problem_type() {
    let sut = SectionData::<u64> {
        problem_type: None,
        ..valid_section_data()
    };

    let value = validate_format(&sut);

    let expected = Err(ParseError::MissingProblemType);
    assert_eq!(value, expected);
}

#[test]
fn test_validate_format_fails_if_missing_dimension() {
    let sut = SectionData::<u64> {
        dimension: None,
        ..valid_section_data()
    };

    let value = validate_format(&sut);

    let expected = Err(ParseError::MissingDimension);
    assert_eq!(value, expected);
}

#[test]
fn test_validate_format_fails_if_missing_edge_weight_type() {
    let sut = SectionData::<u64> {
        edge_weight_type: None,
        ..valid_section_data()
    };

    let value = validate_format(&sut);

    let expected = Err(ParseError::MissingEdgeWeightType);
    assert_eq!(value, expected);
}

#[test]
fn test_validate_format_fails_if_missing_edge_weight_format() {
    let sut = SectionData::<u64> {
        edge_weight_format: None,
        ..valid_section_data()
    };

    let value = validate_format(&sut);

    let expected = Err(ParseError::MissingEdgeWeightFormat);
    assert_eq!(value, expected);
}

#[test]
fn test_validate_format_fails_if_edge_weights_are_invalid() {
    let sut = SectionData::<u64> {
        edge_weights: vec![vec![4, 5], vec![6]], // not lower row
        ..valid_section_data()
    };

    let value = validate_format(&sut);

    let expected = Err(ParseError::EdgeWeight);
    assert_eq!(value, expected);
}

#[test]
fn test_validate_format_fails_if_node_coords_are_invalid() {
    let sut = SectionData::<u64> {
        node_coords: vec![
            vec![lit("0.0"), lit("0.0"), lit("0.0")],
            vec![lit("7.0"), lit("8.0"), lit("0.0")],
            vec![lit("9.0"), lit("10.0"), lit("0.0")],
        ], // 3D coords
        ..valid_section_data()
    };

    let value = validate_format(&sut);

    let expected = Err(ParseError::NodeCoord);
    assert_eq!(value, expected);
}

#[test]
fn test_validate_format_fails_if_node_coords_type_not_given() {
    let sut = SectionData::<u64> {
        node_coord_type: None,
        ..valid_section_data()
    };

    let value = validate_format(&sut);

    let expected = Err(ParseError::MissingNodeCoordType);
    assert_eq!(value, expected);
}

#[test]
fn test_validate_format_fails_if_node_coords_are_invalid_euc2d() {
    let sut = SectionData::<u64> {
        edge_weight_type: Some(EdgeWeightType::Euc2D),
        edge_weight_format: None,
        node_coord_type: None,
        node_coords: vec![
            vec![lit("0.0"), lit("0.0"), lit("0.0")],
            vec![lit("7.0"), lit("8.0"), lit("0.0")],
            vec![lit("9.0"), lit("10.0"), lit("0.0")],
        ], // 3D coords
        ..valid_section_data()
    };

    let value = validate_format(&sut);

    let expected = Err(ParseError::NodeCoord);
    assert_eq!(value, expected);
}

#[test]
fn test_validate_format_fails_if_demands_are_invalid() {
    let sut = SectionData::<u64> {
        demands: vec![vec![1, 0], vec![2, 11], vec![3, 12, 0]], // len != 2
        ..valid_section_data()
    };

    let value = validate_format(&sut);

    let expected = Err(ParseError::Demand);
    assert_eq!(value, expected);
}

#[test]
fn test_validate_format_fails_if_depots_are_invalid() {
    let sut = SectionData::<u64> {
        depots: vec![vec![]], // is empty
        ..valid_section_data()
    };

    let value = validate_format(&sut);

    let expected = Err(ParseError::Depot);
    assert_eq!(value, expected);
}

#[test]
fn parse_tokens_reads_header_values() {
    let sut = vec![
        Token::Type("CVRPTW".to_string()),
    ];
    assert_eq!(parse_tokens::<u64>(&sut).unwrap_err(), ParseError::UnsupportedProblemType);
    let sut = vec![Token::Type("VRP".to_string())];
    assert_eq!(parse_tokens::<u64>(&sut).unwrap_err(), ParseError::InvalidProblemType);
    let sut = vec![Token::Dimension("three".to_string())];
    assert_eq!(parse_tokens::<u64>(&sut).unwrap_err(), ParseError::InvalidDimension);
    let sut = vec![Token::Capacity("-2".to_string())];
    assert_eq!(parse_tokens::<u64>(&sut).unwrap_err(), ParseError::InvalidCapacity);
    let sut = vec![Token::EdgeWeightType("GEO".to_string())];
    assert_eq!(parse_tokens::<u64>(&sut).unwrap_err(), ParseError::InvalidEdgeWeightType);
    let sut = vec![Token::EdgeWeightFormat("UPPER_ROW".to_string())];
    assert_eq!(parse_tokens::<u64>(&sut).unwrap_err(), ParseError::InvalidEdgeWeightFormat);
    let sut = vec![Token::NodeCoordType("THREED_COORDS".to_string())];
    assert_eq!(parse_tokens::<u64>(&sut).unwrap_err(), ParseError::InvalidNodeCoordType);
}

#[test]
fn parse_tokens_ignores_data_in_the_header_and_comments() {
    let sut = vec![
        data(&["junk", "words"]),
        Token::Comment("c".to_string()),
        Token::Eof,
    ];
    let value = parse_tokens::<u64>(&sut).unwrap();
    assert_eq!(value.edge_weights, Vec::<Vec<u64>>::new());
    assert_eq!(value.name, None);
}

#[test]
fn parse_tokens_node_rows_must_be_numbered_in_order() {
    let sut = vec![Token::NodeCoordSection, data(&["2", "0", "0"])];
    assert_eq!(parse_tokens::<u64>(&sut).unwrap_err(), ParseError::NodeCoord);
    let sut = vec![Token::NodeCoordSection, data(&[])];
    assert_eq!(parse_tokens::<u64>(&sut).unwrap_err(), ParseError::NodeCoord);
    let sut = vec![Token::NodeCoordSection, data(&["1", "0"]), data(&["2", "1e1", "-inf"])];
    let value = parse_tokens::<u64>(&sut).unwrap();
    assert_eq!(value.node_coords, vec![vec![lit("0")], vec![lit("1e1"), lit("-inf")]]);
}

#[test]
fn parse_later_header_value_wins() {
    let sut = vec![Token::Name("a".to_string()), Token::Name("b".to_string())];
    assert_eq!(parse_tokens::<u64>(&sut).unwrap().name, Some("b".to_string()));
}

#[test]
fn parse_checks_after_reading() {
    let sut = tokens_with(
        &[&["4"], &["5", "6"]],
        &[&["1", "0", "0"], &["2", "7", "8"], &["3", "9", "10"]],
        &[&["1", "0"], &["2", "11"], &["3", "12"]],
        &[&["4"]],
    );
    assert_eq!(parse(&sut).unwrap_err(), ParseError::Depot);
    let sut = tokens_with(
        &[&["4"], &["5", "6"]],
        &[&["1", "0", "0"], &["2", "7", "8"], &["3", "9", "10"]],
        &[&["1", "0"], &["2", "11"], &["3", "12"]],
        &[&["3"]],
    );
    assert!(parse(&sut).is_ok());
}

#[test]
fn validate_format_full_matrix_and_zero_dimension() {
    let sut = SectionData::<u64> {
        edge_weight_format: Some(EdgeWeightFormat::FullMatrix),
        edge_weights: vec![vec![0, 1, 2], vec![1, 0, 3], vec![2, 3, 0]],
        ..valid_section_data()
    };
    assert_eq!(validate_format(&sut), Ok(()));
    let sut = SectionData::<u64> {
        edge_weight_format: Some(EdgeWeightFormat::FullMatrix),
        edge_weights: vec![vec![0, 1], vec![1, 0, 3], vec![2, 3, 0]],
        ..valid_section_data()
    };
    assert_eq!(validate_format(&sut), Err(ParseError::EdgeWeight));
    let sut = SectionData::<u64> {
        dimension: Some(0),
        edge_weights: vec![],
        node_coords: vec![],
        node_coord_type: None,
        demands: vec![],
        depots: vec![],
        ..valid_section_data()
    };
    assert_eq!(validate_format(&sut), Err(ParseError::EdgeWeight));
}

#[test]
fn validate_format_demand_rows_are_numbered() {
    let sut = SectionData::<u64> {
        demands: vec![vec![1, 0], vec![3, 11], vec![2, 12]],
        ..valid_section_data()
    };
    assert_eq!(validate_format(&sut), Err(ParseError::Demand));
}

fn first_as_node(l: &FloatLiteral) -> usize {
    l.as_str().parse::<f64>().unwrap() as usize
}

#[test]
fn parse_tokens_reads_numbers_as_literals() {
    let mut sut = tokens_with(
        &[&["4.5"], &["5", "6e1"]],
        &[&["1", "0", "0"], &["2", "7", "8"], &["3", "9", "10"]],
        &[&["1", "0.5"], &["2", "11"], &["3", "12"]],
        &[&["1"]],
    );
    sut[7] = Token::Capacity("02".to_string());
    let value = parse_tokens::<FloatLiteral>(&sut).unwrap();
    assert_eq!(value.capacity, Some(lit("02")));
    assert_eq!(value.edge_weights, vec![vec![lit("4.5")], vec![lit("5"), lit("6e1")]]);
    assert_eq!(value.demands[0], vec![lit("1"), lit("0.5")]);
    // As `u64` numbers the same tokens do not read.
    assert_eq!(parse_tokens::<u64>(&sut).unwrap_err(), ParseError::EdgeWeight);
    // The capacity is read as an integer whatever the number type.
    sut[7] = Token::Capacity("2.5".to_string());
    assert_eq!(parse_tokens::<FloatLiteral>(&sut).unwrap_err(), ParseError::InvalidCapacity);
    let bad = tokens_with(&[&["4"], &["5", "x"]], &[], &[], &[]);
    assert_eq!(parse_tokens::<FloatLiteral>(&bad).unwrap_err(), ParseError::EdgeWeight);
}

#[test]
fn demand_nodes_are_taken_from_rows_of_two() {
    let demands = vec![vec![lit("1.7"), lit("0")], vec![lit("2")], vec![lit("3"), lit("1"), lit("2")]];
    assert_eq!(demand_nodes(&demands, &first_as_node), vec![Some(1), None, None]);
    let demands: Vec<Vec<u64>> = vec![vec![1, 0], vec![5, 11]];
    assert_eq!(demand_nodes(&demands, &node_number), vec![Some(1), Some(5)]);
    assert_eq!(node_number(&7), 7);
}

#[test]
fn validate_demand_nodes_wants_one_numbered_row_per_node() {
    assert_eq!(validate_demand_nodes(2, &[Some(1), Some(2)]), Ok(()));
    assert_eq!(validate_demand_nodes(3, &[Some(1), Some(2)]), Err(ParseError::Demand));
    assert_eq!(validate_demand_nodes(2, &[Some(1), None]), Err(ParseError::Demand));
    assert_eq!(validate_demand_nodes(2, &[Some(2), Some(1)]), Err(ParseError::Demand));
    assert_eq!(validate_demand_nodes(0, &[]), Ok(()));
}

#[test]
fn validate_format_with_takes_the_node_numbers_given() {
    let sut = valid_section_data();
    assert_eq!(validate_format_with(&sut, &[Some(1), Some(2), Some(3)]), Ok(()));
    assert_eq!(
        validate_format_with(&sut, &[Some(1), Some(3), Some(3)]),
        Err(ParseError::Demand)
    );
    let no_name = SectionData::<u64> { name: None, ..valid_section_data() };
    assert_eq!(
        validate_format_with(&no_name, &[Some(1), Some(2), Some(3)]),
        Err(ParseError::MissingName)
    );
}

#[test]
fn parse_with_checks_demand_rows_by_node_of() {
    let sut = tokens_with(
        &[&["4"], &["5", "6"]],
        &[&["1", "0", "0"], &["2", "7", "8"], &["3", "9", "10"]],
        &[&["1.2", "0"], &["2.9", "11"], &["3", "12"]],
        &[&["1"]],
    );
    let value = parse_with::<FloatLiteral, _>(&sut, first_as_node).unwrap();
    assert_eq!(value.demands[1], vec![lit("2.9"), lit("11")]);
    // `u64` numbers refuse the same demand rows.
    assert_eq!(parse(&sut).unwrap_err(), ParseError::Demand);
    let sut = tokens_with(
        &[&["4"], &["5", "6"]],
        &[&["1", "0", "0"], &["2", "7", "8"], &["3", "9", "10"]],
        &[&["1", "0"], &["3", "11"], &["3", "12"]],
        &[&["1"]],
    );
    assert_eq!(
        parse_with::<FloatLiteral, _>(&sut, first_as_node).unwrap_err(),
        ParseError::Demand
    );
}

#[test]
fn u64_reading_reads_as_literals_law_example() {
    let sut = tokens_with(
        &[&["4"], &["5", "06"]],
        &[&["1", "0", "0"], &["2", "7", "8"], &["3", "9", "10"]],
        &[&["1", "0"], &["2", "+11"], &["3", "12"]],
        &[&["1"]],
    );
    let a = parse_tokens::<u64>(&sut).unwrap();
    let b = parse_tokens::<FloatLiteral>(&sut).unwrap();
    assert_eq!(b.name, a.name);
    assert_eq!(b.dimension, a.dimension);
    assert_eq!(b.node_coords, a.node_coords);
    assert_eq!(b.depots, a.depots);
    assert_eq!(b.capacity.as_ref().map(|t| t.as_str().parse::<u64>().unwrap()), a.capacity);
    let as_u64 = |rows: &Vec<Vec<FloatLiteral>>| -> Vec<Vec<u64>> {
        rows.iter().map(|r| r.iter().map(|t| t.as_str().parse::<u64>().unwrap()).collect()).collect()
    };
    assert_eq!(as_u64(&b.edge_weights), a.edge_weights);
    assert_eq!(as_u64(&b.demands), a.demands);
    assert_eq!(b.edge_weights[1][1].as_str(), "06");
    let nodes = [Some(1), Some(2), Some(3)];
    assert_eq!(validate_format_with(&b, &nodes), validate_format_with(&a, &nodes));
}

#[test]
fn u64_demand_check_law_example() {
    let rows: Vec<Vec<u64>> = vec![vec![1, 0], vec![2, 11], vec![3, 12, 0]];
    let nodes = demand_nodes(&rows, &node_number);
    assert_eq!(validate_demand_nodes(3, &nodes), Err(ParseError::Demand));
    let rows: Vec<Vec<u64>> = vec![vec![1, 0], vec![2, 11], vec![3, 12]];
    let nodes = demand_nodes(&rows, &node_number);
    assert_eq!(validate_demand_nodes(3, &nodes), Ok(()));
}

#[test]
fn coord_rows_numbered_law_example() {
    let sut = vec![
        Token::NodeCoordSection,
        data(&["1", "0", "0"]),
        data(&["3", "9", "10"]),
    ];
    assert_eq!(parse_tokens::<u64>(&sut).unwrap_err(), ParseError::NodeCoord);
    let sut = vec![Token::NodeCoordSection, data(&["1", "0", "0"]), data(&["2", "9", "10"])];
    assert_eq!(parse_tokens::<u64>(&sut).unwrap().node_coords.len(), 2);
}
