use vrp_parser::solomon::lexer::{tokenize, Token};
use vrp_parser::solomon::parser::{parse, parse_customer_data, parse_vehicle_data};
use vrp_parser::{FloatLiteral, SolomonParseError};

fn sample_lines() -> Vec<String> {
    vec![
        "TestInstance".to_string(),
        "".to_string(),
        "VEHICLE".to_string(),
        "NUMBER     CAPACITY".to_string(),
        "  3          200".to_string(),
        "".to_string(),
        "CUSTOMER".to_string(),
        "CUST NO.  XCOORD.   YCOORD.    DEMAND   READY TIME  DUE DATE   SERVICE TIME"
            .to_string(),
        "".to_string(),
        "    0      40         50          0          0       1000         0".to_string(),
        "    1      45         68         10        912        967        90".to_string(),
    ]
}

#[test]
fn test_tokenize_produces_instance_name_first() {
    let tokens = tokenize(&sample_lines());
    assert_eq!(tokens[0], Token::InstanceName("TestInstance".to_string()));
}

#[test]
fn test_tokenize_produces_vehicle_section() {
    let tokens = tokenize(&sample_lines());
    assert_eq!(tokens[1], Token::VehicleSection);
}

#[test]
fn test_tokenize_produces_customer_section() {
    let tokens = tokenize(&sample_lines());
    assert_eq!(tokens[4], Token::CustomerSection);
}

#[test]
fn test_tokenize_produces_data_for_non_keyword_lines() {
    let tokens = tokenize(&sample_lines());
    assert_eq!(
        tokens[2],
        Token::Data(vec!["NUMBER".to_string(), "CAPACITY".to_string()])
    );
    assert_eq!(
        tokens[3],
        Token::Data(vec!["3".to_string(), "200".to_string()])
    );
}

#[test]
fn test_tokenize_skips_blank_lines() {
    let tokens = tokenize(&sample_lines());
    assert!(
        !tokens
            .iter()
            .any(|t| matches!(t, Token::Data(d) if d.is_empty()))
    );
}

#[test]
fn test_tokenize_empty_input_produces_no_tokens() {
    let tokens = tokenize(&[]);
    assert!(tokens.is_empty());
}

#[test]
fn test_tokenize_numeric_instance_name_is_not_confused_with_data() {
    let lines = vec!["101".to_string(), "VEHICLE".to_string()];
    let tokens = tokenize(&lines);
    assert_eq!(tokens[0], Token::InstanceName("101".to_string()));
    assert_eq!(tokens[1], Token::VehicleSection);
}

#[test]
fn tokenize_gives_one_token_per_non_blank_line() {
    let tokens = tokenize(&sample_lines());
    assert_eq!(tokens.len(), 8);
    let lines = vec!["  ".to_string(), "\t".to_string(), " name  with spaces ".to_string()];
    assert_eq!(
        tokenize(&lines),
        vec![Token::InstanceName("name  with spaces".to_string())]
    );
}

#[test]
fn tokenize_keyword_as_first_line_is_the_name() {
    let lines = vec!["VEHICLE".to_string(), "VEHICLE".to_string()];
    assert_eq!(
        tokenize(&lines),
        vec![Token::InstanceName("VEHICLE".to_string()), Token::VehicleSection]
    );
}

fn s(v: &str) -> String {
    v.to_string()
}

fn value(l: &FloatLiteral) -> f64 {
    l.as_str().parse::<f64>().unwrap()
}

fn sample_tokens() -> Vec<Token> {
    vec![
        Token::InstanceName(s("TestInstance")),
        Token::VehicleSection,
        Token::Data(vec![s("NUMBER"), s("CAPACITY")]),
        Token::Data(vec![s("3"), s("200")]),
        Token::CustomerSection,
        Token::Data(vec![
            s("CUST"),
            s("NO."),
            s("XCOORD."),
            s("YCOORD."),
            s("DEMAND"),
            s("READY"),
            s("TIME"),
            s("DUE"),
            s("DATE"),
            s("SERVICE"),
            s("TIME"),
        ]),
        Token::Data(vec![
            s("0"),
            s("40"),
            s("50"),
            s("0"),
            s("0"),
            s("1000"),
            s("0"),
        ]),
        Token::Data(vec![
            s("1"),
            s("45"),
            s("68"),
            s("10"),
            s("912"),
            s("967"),
            s("90"),
        ]),
        Token::Data(vec![
            s("2"),
            s("45"),
            s("70"),
            s("30"),
            s("825"),
            s("870"),
            s("90"),
        ]),
    ]
}

#[test]
fn test_parse_succeeds() {
    let value_ = parse(&sample_tokens()).unwrap();
    assert_eq!(value_.name, "TestInstance");
    assert_eq!(value_.vehicle_count, 3);
    assert_eq!(value(&value_.capacity), 200.0);
    assert_eq!(
        value_
            .node_coords
            .iter()
            .map(|(x, y)| (value(x), value(y)))
            .collect::<Vec<_>>(),
        vec![(40.0, 50.0), (45.0, 68.0), (45.0, 70.0)]
    );
    assert_eq!(
        value_.demands.iter().map(value).collect::<Vec<_>>(),
        vec![0.0, 10.0, 30.0]
    );
    assert_eq!(
        value_
            .time_windows
            .iter()
            .map(|(a, b)| (value(a), value(b)))
            .collect::<Vec<_>>(),
        vec![(0.0, 1000.0), (912.0, 967.0), (825.0, 870.0)]
    );
    assert_eq!(
        value_.service_times.iter().map(value).collect::<Vec<_>>(),
        vec![0.0, 90.0, 90.0]
    );
}

#[test]
fn test_parse_fails_on_empty_tokens() {
    let value = parse(&[]).unwrap_err();
    assert_eq!(value, SolomonParseError::UnexpectedEof);
}

#[test]
fn test_parse_fails_when_vehicle_section_missing() {
    let tokens = vec![Token::InstanceName(s("TestInstance"))];
    let value = parse(&tokens).unwrap_err();
    assert_eq!(value, SolomonParseError::MissingVehicleSection);
}

#[test]
fn test_parse_fails_when_customer_section_missing() {
    let tokens = vec![
        Token::InstanceName(s("TestInstance")),
        Token::VehicleSection,
        Token::Data(vec![s("NUMBER"), s("CAPACITY")]),
        Token::Data(vec![s("3"), s("200")]),
    ];
    let value = parse(&tokens).unwrap_err();
    assert_eq!(value, SolomonParseError::MissingCustomerSection);
}

#[test]
fn test_parse_fails_on_invalid_vehicle_line() {
    let tokens = vec![
        Token::InstanceName(s("TestInstance")),
        Token::VehicleSection,
        Token::Data(vec![s("NUMBER"), s("CAPACITY")]),
        Token::Data(vec![s("three"), s("200")]),
        Token::CustomerSection,
    ];
    let value = parse(&tokens).unwrap_err();
    assert_eq!(value, SolomonParseError::InvalidVehicleLine);
}

#[test]
fn test_parse_fails_on_invalid_customer_row() {
    let mut tokens = sample_tokens();
    tokens[7] = Token::Data(vec![
        s("1"),
        s("45"),
        s("68"),
        s("ten"),
        s("912"),
        s("967"),
        s("90"),
    ]);
    let value = parse(&tokens).unwrap_err();
    assert_eq!(value, SolomonParseError::InvalidCustomerRow);
}

#[test]
fn parse_fails_without_customer_rows() {
    let mut tokens = sample_tokens();
    tokens.truncate(6);
    assert_eq!(parse(&tokens).unwrap_err(), SolomonParseError::NoCustomers);
    tokens.truncate(5);
    assert_eq!(parse(&tokens).unwrap_err(), SolomonParseError::UnexpectedEof);
}

#[test]
fn parse_fails_when_not_starting_with_name() {
    let tokens = vec![Token::VehicleSection];
    assert_eq!(parse(&tokens).unwrap_err(), SolomonParseError::UnexpectedEof);
}

#[test]
fn parse_fails_on_keyword_after_customers() {
    let mut tokens = sample_tokens();
    tokens.push(Token::VehicleSection);
    assert_eq!(parse(&tokens).unwrap_err(), SolomonParseError::InvalidCustomerRow);
}

#[test]
fn parse_fails_when_vehicle_row_is_missing() {
    let tokens = vec![
        Token::InstanceName(s("T")),
        Token::VehicleSection,
        Token::Data(vec![s("NUMBER"), s("CAPACITY")]),
    ];
    assert_eq!(parse(&tokens).unwrap_err(), SolomonParseError::InvalidVehicleLine);
    let tokens = vec![Token::InstanceName(s("T")), Token::VehicleSection];
    assert_eq!(parse(&tokens).unwrap_err(), SolomonParseError::UnexpectedEof);
}

#[test]
fn vehicle_and_customer_rows() {
    assert_eq!(
        parse_vehicle_data(&[s("3")]).unwrap_err(),
        SolomonParseError::InvalidVehicleLine
    );
    let (n, c) = parse_vehicle_data(&[s("3"), s("2.5e2"), s("extra")]).unwrap();
    assert_eq!(n, 3);
    assert_eq!(value(&c), 250.0);
    assert_eq!(
        parse_customer_data(&[s("1"), s("2"), s("3")]).unwrap_err(),
        SolomonParseError::InvalidCustomerRow
    );
    let row = parse_customer_data(&[s("x"), s("1"), s("2"), s("3"), s("4"), s("5"), s("6")])
        .unwrap();
    assert_eq!(value(&row.5), 6.0);
}

fn exact(p: &vrp_parser::Coord, q: &vrp_parser::Coord) -> f64 {
    let dx = value(&p.0) - value(&q.0);
    let dy = value(&p.1) - value(&q.1);
    (dx * dx + dy * dy).sqrt()
}

const SOLOMON: &str = "TestInstance

VEHICLE
NUMBER     CAPACITY
  3          200

CUSTOMER
CUST NO.  XCOORD.   YCOORD.    DEMAND   READY TIME  DUE DATE   SERVICE TIME

    0      40         50          0          0       1000         0
    1      45         68         10        912        967        90
    2      45         70         30        825        870        90
";

#[test]
fn test_read_from_solomon_succeeds() {
    let lines: Vec<String> = SOLOMON.lines().map(|l| l.to_string()).collect();

    let sut = vrp_parser::read_from_solomon(&lines, value, exact).unwrap();

    assert_eq!(sut.name(), "TestInstance");
    assert_eq!(sut.dimension(), 3);
    assert_eq!(sut.problem_type(), vrp_parser::ProblemType::Cvrptw);
    assert_eq!(sut.depots(), &[0]);
    assert_eq!(sut.capacity(), &Some(200.0));
    assert_eq!(sut.demands(), &Some(vec![0.0, 10.0, 30.0]));
    assert_eq!(sut.vehicle_count(), Some(3));
    assert_eq!(
        sut.node_coords()
            .as_ref()
            .map(|c| c.iter().map(|(x, y)| (value(x), value(y))).collect::<Vec<_>>()),
        Some(vec![(40.0, 50.0), (45.0, 68.0), (45.0, 70.0)])
    );
    assert_eq!(
        sut.time_windows(),
        &Some(vec![(0.0, 1000.0), (912.0, 967.0), (825.0, 870.0)])
    );
    assert_eq!(sut.service_times(), &Some(vec![0.0, 90.0, 90.0]));
    // d(0,1) = sqrt(5^2 + 18^2) = sqrt(349)
    // d(0,2) = sqrt(5^2 + 20^2) = sqrt(425)
    // d(1,2) = sqrt(0^2 + 2^2)  = sqrt(4) = 2.0
    let w = sut.edge_weights();
    assert_eq!(w[0][0], 0.0);
    assert!((w[0][1] - 349_f64.sqrt()).abs() < 1e-10);
    assert!((w[0][2] - 425_f64.sqrt()).abs() < 1e-10);
    assert!((w[1][0] - 349_f64.sqrt()).abs() < 1e-10);
    assert_eq!(w[1][1], 0.0);
    assert_eq!(w[1][2], 2.0);
    assert!((w[2][0] - 425_f64.sqrt()).abs() < 1e-10);
    assert_eq!(w[2][1], 2.0);
    assert_eq!(w[2][2], 0.0);
}

#[test]
fn read_from_solomon_reports_parse_errors() {
    let lines: Vec<String> = SOLOMON.replace("VEHICLE", "FLEET").lines().map(|l| l.to_string()).collect();
    match vrp_parser::read_from_solomon(&lines, value, exact) {
        Err(vrp_parser::LoadError::Solomon(e)) => {
            assert_eq!(e, SolomonParseError::MissingVehicleSection)
        }
        _ => panic!(),
    }
}
