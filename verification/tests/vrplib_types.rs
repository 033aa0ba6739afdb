use vrp_parser::vrplib::types::{EdgeWeightFormat, EdgeWeightType, NodeCoordType};
use vrp_parser::{
    ParseEdgeWeightFormatError, ParseEdgeWeightTypeError, ParseNodeCoordTypeError,
    ParseProblemTypeError, ProblemType,
};

#[test]
fn edge_weight_format_test_parse_explicit() {
    let s = "LOWER_ROW";

    let value = EdgeWeightFormat::try_from(s).unwrap();

    assert_eq!(value, EdgeWeightFormat::LowerRow);
}

#[test]
fn edge_weight_format_test_parse_fails() {
    let s = "foo_edge_weight";

    let value = EdgeWeightFormat::try_from(s).unwrap_err();

    assert_eq!(
        value,
        ParseEdgeWeightFormatError::UnknownFormat("foo_edge_weight".to_string())
    );
}

#[test]
fn test_parse_lower_row() {
    let s = "LOWER_ROW";

    let value = EdgeWeightFormat::try_from(s).unwrap();

    assert_eq!(value, EdgeWeightFormat::LowerRow);
}

#[test]
fn test_parse_full_matrix() {
    let s = "FULL_MATRIX";

    let value = EdgeWeightFormat::try_from(s).unwrap();

    assert_eq!(value, EdgeWeightFormat::FullMatrix);
}

#[test]
fn edge_weight_type_test_parse_explicit() {
    let s = "EXPLICIT";

    let value = EdgeWeightType::try_from(s).unwrap();

    assert_eq!(value, EdgeWeightType::Explicit);
}

#[test]
fn test_parse_euc_2d() {
    let s = "EUC_2D";

    let value = EdgeWeightType::try_from(s).unwrap();

    assert_eq!(value, EdgeWeightType::Euc2D);
}

#[test]
fn edge_weight_type_test_parse_fails() {
    let s = "foo_edge_weight";

    let value = EdgeWeightType::try_from(s).unwrap_err();

    assert_eq!(
        value,
        ParseEdgeWeightTypeError::UnknownType("foo_edge_weight".to_string())
    );
}

#[test]
fn node_coord_type_test_parse_explicit() {
    let s = "TWOD_COORDS";

    let value = NodeCoordType::try_from(s).unwrap();

    assert_eq!(value, NodeCoordType::TwodCoords);
}

#[test]
fn node_coord_type_test_parse_fails() {
    let s = "foo_node_coord";

    let value = NodeCoordType::try_from(s).unwrap_err();

    assert_eq!(
        value,
        ParseNodeCoordTypeError::UnknownType("foo_node_coord".to_string())
    );
}

#[test]
fn problem_type_test_parse_cvrp() {
    let s = "CVRP";

    let value = ProblemType::try_from(s).unwrap();

    assert_eq!(value, ProblemType::Cvrp);
}

#[test]
fn problem_type_test_parse_fails() {
    let s = "foo_vrp";

    let value = ProblemType::try_from(s).unwrap_err();

    assert_eq!(
        value,
        ParseProblemTypeError::UnknownType("foo_vrp".to_string())
    );
}

#[test]
fn test_parse_cvrptw_fails_with_specific_error() {
    let s = "CVRPTW";

    let value = ProblemType::try_from(s).unwrap_err();

    assert_eq!(
        value,
        ParseProblemTypeError::NotSupportedInVrplib("CVRPTW".to_string())
    );
}

#[test]
fn test_parse_unknown_fails() {
    let s = "foo_vrp";

    let value = ProblemType::try_from(s).unwrap_err();

    assert_eq!(
        value,
        ParseProblemTypeError::UnknownType("foo_vrp".to_string())
    );
}

#[test]
fn header_values_are_case_sensitive() {
    assert!(ProblemType::try_from("cvrp").is_err());
    assert!(EdgeWeightType::try_from("explicit").is_err());
    assert!(EdgeWeightFormat::try_from("lower_row").is_err());
    assert!(NodeCoordType::try_from(" TWOD_COORDS").is_err());
}
