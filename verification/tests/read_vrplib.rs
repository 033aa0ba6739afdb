use vrp_parser::vrplib::reader::read_from_vrplib_values;
use vrp_parser::{
    read_from_vrplib, Coord, FloatLiteral, LoadError, ParseError, ProblemType, TokenError,
    ValidationError, VrplibError,
};

fn value(l: &FloatLiteral) -> f64 {
    l.as_str().parse::<f64>().unwrap()
}

fn euc2d(p: &Coord, q: &Coord) -> u64 {
    let dx = value(&p.0) - value(&q.0);
    let dy = value(&p.1) - value(&q.1);
    ((dx * dx + dy * dy).sqrt() + 0.5).floor() as u64
}

fn lines(text: &str) -> Vec<String> {
    text.lines().map(|l| l.to_string()).collect()
}

const LOWER_ROW: &str = "NAME : This is a name.
COMMENT : This is a comment.
TYPE : CVRP
DIMENSION : 3
EDGE_WEIGHT_TYPE : EXPLICIT
EDGE_WEIGHT_FORMAT : LOWER_ROW
NODE_COORD_TYPE : TWOD_COORDS
CAPACITY : 2
EDGE_WEIGHT_SECTION
4
5 6
NODE_COORD_SECTION
1 0.0 0.0
2 7.0 8.0
3 9.0 10.0
DEMAND_SECTION
1 0
2 11
3 12
DEPOT_SECTION
1
-1
EOF";

const EUC_2D: &str = "NAME : This is a name.
TYPE : CVRP
DIMENSION : 3
EDGE_WEIGHT_TYPE : EUC_2D
CAPACITY : 2
NODE_COORD_SECTION
1 0.0 0.0
2 7.0 8.0
3 9.0 10.0
DEMAND_SECTION
1 0
2 11
3 12
DEPOT_SECTION
1
-1
EOF";

const FULL_MATRIX: &str = "NAME : This is a name.
TYPE : CVRP
DIMENSION : 3
EDGE_WEIGHT_TYPE : EXPLICIT
EDGE_WEIGHT_FORMAT : FULL_MATRIX
NODE_COORD_TYPE : TWOD_COORDS
CAPACITY : 2
EDGE_WEIGHT_SECTION
0 4 5
7 0 6
9 3 0
NODE_COORD_SECTION
1 0.0 0.0
2 7.0 8.0
3 9.0 10.0
DEMAND_SECTION
1 0
2 11
3 12
DEPOT_SECTION
1
-1
EOF";

const EDGE_WEIGHTS_NOT_GIVEN: &str = "NAME : This is a name.
TYPE : CVRP
DIMENSION : 3
EDGE_WEIGHT_TYPE : EXPLICIT
EDGE_WEIGHT_FORMAT : LOWER_ROW
CAPACITY : 2
DEMAND_SECTION
1 0
2 11
3 12
DEPOT_SECTION
1
EOF";

fn coords_of(inst: &vrp_parser::VRPInstance<u64>) -> Option<Vec<(f64, f64)>> {
    inst.node_coords()
        .as_ref()
        .map(|c| c.iter().map(|(x, y)| (value(x), value(y))).collect())
}

#[test]
fn test_read_from_vaplib_succeeds() {
    let sut = read_from_vrplib(&lines(LOWER_ROW), euc2d).unwrap();

    assert_eq!(sut.name(), "This is a name.");
    assert_eq!(sut.dimension(), 3);
    assert_eq!(sut.problem_type(), ProblemType::Cvrp);
    assert_eq!(sut.depots(), &[1]);
    assert_eq!(sut.capacity(), &Some(2));
    assert_eq!(sut.demands(), &Some(vec![0, 11, 12]));
    assert_eq!(
        coords_of(&sut),
        Some(vec![(0.0, 0.0), (7.0, 8.0), (9.0, 10.0)])
    );
    assert_eq!(
        sut.edge_weights(),
        &[vec![0, 4, 5], vec![4, 0, 6], vec![5, 6, 0]]
    );
}

#[test]
fn test_read_from_vaplib_euc2d() {
    let sut = read_from_vrplib(&lines(EUC_2D), euc2d).unwrap();

    assert_eq!(sut.name(), "This is a name.");
    assert_eq!(sut.dimension(), 3);
    assert_eq!(sut.problem_type(), ProblemType::Cvrp);
    assert_eq!(sut.depots(), &[1]);
    assert_eq!(sut.capacity(), &Some(2));
    assert_eq!(sut.demands(), &Some(vec![0, 11, 12]));
    assert_eq!(
        coords_of(&sut),
        Some(vec![(0.0, 0.0), (7.0, 8.0), (9.0, 10.0)])
    );
    assert_eq!(
        sut.edge_weights(),
        &[vec![0, 11, 13], vec![11, 0, 3], vec![13, 3, 0]]
    );
}

#[test]
fn test_read_from_vrplib_full_matrix() {
    let sut = read_from_vrplib(&lines(FULL_MATRIX), euc2d).unwrap();

    assert_eq!(sut.name(), "This is a name.");
    assert_eq!(sut.dimension(), 3);
    assert_eq!(sut.problem_type(), ProblemType::Cvrp);
    assert_eq!(sut.depots(), &[1]);
    assert_eq!(sut.capacity(), &Some(2));
    assert_eq!(sut.demands(), &Some(vec![0, 11, 12]));
    assert_eq!(
        coords_of(&sut),
        Some(vec![(0.0, 0.0), (7.0, 8.0), (9.0, 10.0)])
    );
    assert_eq!(
        sut.edge_weights(),
        &[vec![0, 4, 5], vec![7, 0, 6], vec![9, 3, 0]]
    );
}

#[test]
fn test_read_from_vrplib_fails() {
    let sut = read_from_vrplib(&lines(EDGE_WEIGHTS_NOT_GIVEN), euc2d);

    match sut {
        Err(LoadError::Vrplib(VrplibError::Parse(_))) => {}
        _ => panic!(),
    }
}

#[test]
fn read_from_vrplib_reports_the_error_of_each_stage() {
    let bad_key = LOWER_ROW.replace("COMMENT", "REMARK");
    match read_from_vrplib(&lines(&bad_key), euc2d) {
        Err(LoadError::Vrplib(VrplibError::Token(TokenError::UnknownKey(k)))) => {
            assert_eq!(k, "REMARK")
        }
        _ => panic!(),
    }
    match read_from_vrplib(&lines(EDGE_WEIGHTS_NOT_GIVEN), euc2d) {
        Err(LoadError::Vrplib(VrplibError::Parse(e))) => assert_eq!(e, ParseError::EdgeWeight),
        _ => panic!(),
    }
    let no_depot = LOWER_ROW.replace("DEPOT_SECTION\n1\n", "DEPOT_SECTION\n");
    match read_from_vrplib(&lines(&no_depot), euc2d) {
        Err(LoadError::Validation(e)) => assert_eq!(e, ValidationError::MissingDepots),
        _ => panic!(),
    }
    let no_capacity = LOWER_ROW.replace("CAPACITY : 2\n", "");
    match read_from_vrplib(&lines(&no_capacity), euc2d) {
        Err(LoadError::Validation(e)) => assert_eq!(e, ValidationError::MissingCapacity),
        _ => panic!(),
    }
}

#[test]
fn read_from_vrplib_without_coordinates() {
    let text = LOWER_ROW
        .replace("NODE_COORD_TYPE : TWOD_COORDS\n", "")
        .replace("NODE_COORD_SECTION\n1 0.0 0.0\n2 7.0 8.0\n3 9.0 10.0\n", "");
    let sut = read_from_vrplib(&lines(&text), euc2d).unwrap();
    assert_eq!(coords_of(&sut), None);
    assert_eq!(sut.node_coords(), &None);
    assert_eq!(sut.get_node_coord(0), None);
    assert_eq!(
        sut.edge_weights(),
        &[vec![0, 4, 5], vec![4, 0, 6], vec![5, 6, 0]]
    );
}

#[test]
fn read_instance_is_complete_law_example() {
    for text in [LOWER_ROW, EUC_2D, FULL_MATRIX] {
        let sut = read_from_vrplib(&lines(text), euc2d).unwrap();
        let n = sut.dimension();
        assert_eq!(sut.edge_weights().len(), n);
        assert!(sut.edge_weights().iter().all(|r| r.len() == n));
        assert_eq!(sut.demands().as_ref().unwrap().len(), n);
        assert!(sut.capacity().is_some());
        assert!(!sut.depots().is_empty());
        assert!(sut.depots().iter().all(|&d| 1 <= d && d <= n));
    }
}

fn node_of(l: &FloatLiteral) -> usize {
    value(l) as usize
}

fn euc2d_f64(p: &Coord, q: &Coord) -> f64 {
    euc2d(p, q) as f64
}

fn read_f64(text: &str) -> Result<vrp_parser::VRPInstance<f64>, LoadError> {
    read_from_vrplib_values(&lines(text), value, node_of, euc2d_f64)
}

fn coords_of_f64(inst: &vrp_parser::VRPInstance<f64>) -> Option<Vec<(f64, f64)>> {
    inst.node_coords()
        .as_ref()
        .map(|c| c.iter().map(|(x, y)| (value(x), value(y))).collect())
}

#[test]
fn test_read_from_vrplib_f64_succeeds() {
    let sut = read_f64(LOWER_ROW).unwrap();

    assert_eq!(sut.name(), "This is a name.");
    assert_eq!(sut.dimension(), 3);
    assert_eq!(sut.problem_type(), ProblemType::Cvrp);
    assert_eq!(sut.depots(), &[1]);
    assert_eq!(sut.capacity(), &Some(2.0));
    assert_eq!(sut.demands(), &Some(vec![0.0, 11.0, 12.0]));
    assert_eq!(
        coords_of_f64(&sut),
        Some(vec![(0.0, 0.0), (7.0, 8.0), (9.0, 10.0)])
    );
    assert_eq!(
        sut.edge_weights(),
        &[
            vec![0.0, 4.0, 5.0],
            vec![4.0, 0.0, 6.0],
            vec![5.0, 6.0, 0.0]
        ]
    );
}

#[test]
fn test_read_from_vrplib_f64_euc2d() {
    let sut = read_f64(EUC_2D).unwrap();

    assert_eq!(sut.name(), "This is a name.");
    assert_eq!(sut.dimension(), 3);
    assert_eq!(sut.problem_type(), ProblemType::Cvrp);
    assert_eq!(sut.depots(), &[1]);
    assert_eq!(sut.capacity(), &Some(2.0));
    assert_eq!(sut.demands(), &Some(vec![0.0, 11.0, 12.0]));
    assert_eq!(
        coords_of_f64(&sut),
        Some(vec![(0.0, 0.0), (7.0, 8.0), (9.0, 10.0)])
    );
    assert_eq!(
        sut.edge_weights(),
        &[
            vec![0.0, 11.0, 13.0],
            vec![11.0, 0.0, 3.0],
            vec![13.0, 3.0, 0.0]
        ]
    );
}

#[test]
fn test_read_from_vrplib_f64_fails() {
    let sut = read_f64(EDGE_WEIGHTS_NOT_GIVEN);

    match sut {
        Err(LoadError::Vrplib(VrplibError::Parse(_))) => {}
        _ => panic!(),
    }
}

#[test]
fn read_from_vrplib_values_reads_fractional_numbers() {
    let text = LOWER_ROW
        .replace("4\n5 6\n", "4.5\n5 6.25\n")
        .replace("2 11\n", "2.0 11.5\n");
    let sut = read_f64(&text).unwrap();
    assert_eq!(sut.capacity(), &Some(2.0));
    assert_eq!(sut.demands(), &Some(vec![0.0, 11.5, 12.0]));
    assert_eq!(
        sut.edge_weights(),
        &[
            vec![0.0, 4.5, 5.0],
            vec![4.5, 0.0, 6.25],
            vec![5.0, 6.25, 0.0]
        ]
    );
    // The same file is refused where numbers are read as `u64`.
    match read_from_vrplib(&lines(&text), euc2d) {
        Err(LoadError::Vrplib(VrplibError::Parse(e))) => assert_eq!(e, ParseError::EdgeWeight),
        _ => panic!(),
    }
}

#[test]
fn read_from_vrplib_values_reads_the_capacity_as_an_integer() {
    let text = LOWER_ROW.replace("CAPACITY : 2\n", "CAPACITY : 2.5\n");
    match read_f64(&text) {
        Err(LoadError::Vrplib(VrplibError::Parse(e))) => assert_eq!(e, ParseError::InvalidCapacity),
        _ => panic!(),
    }
    let text = LOWER_ROW.replace("CAPACITY : 2\n", "CAPACITY : 0200\n");
    assert_eq!(read_f64(&text).unwrap().capacity(), &Some(200.0));
}

#[test]
fn read_from_vrplib_refuses_euc_2d_with_a_format() {
    let text = EUC_2D.replace("EDGE_WEIGHT_TYPE : EUC_2D\n", "EDGE_WEIGHT_TYPE : EUC_2D\nEDGE_WEIGHT_FORMAT : LOWER_ROW\n");
    match read_from_vrplib(&lines(&text), euc2d) {
        Err(LoadError::Vrplib(VrplibError::Parse(e))) => {
            assert_eq!(e, ParseError::UnexpectedEdgeWeightFormat)
        }
        _ => panic!(),
    }
    match read_f64(&text) {
        Err(LoadError::Vrplib(VrplibError::Parse(e))) => {
            assert_eq!(e, ParseError::UnexpectedEdgeWeightFormat)
        }
        _ => panic!(),
    }
}

#[test]
fn read_from_vrplib_values_checks_demand_node_numbers_by_node_of() {
    // "1.9" names node 1 once truncated; "2.5e0" names node 2.
    let text = LOWER_ROW.replace("1 0\n2 11\n", "1.9 0\n2.5e0 11\n");
    let sut = read_f64(&text).unwrap();
    assert_eq!(sut.demands(), &Some(vec![0.0, 11.0, 12.0]));
    let out_of_order = LOWER_ROW.replace("1 0\n2 11\n", "2 0\n1 11\n");
    match read_f64(&out_of_order) {
        Err(LoadError::Vrplib(VrplibError::Parse(e))) => assert_eq!(e, ParseError::Demand),
        _ => panic!(),
    }
    let not_a_number = LOWER_ROW.replace("2 11\n", "2 eleven\n");
    match read_f64(&not_a_number) {
        Err(LoadError::Vrplib(VrplibError::Parse(e))) => assert_eq!(e, ParseError::Demand),
        _ => panic!(),
    }
    let no_depot = LOWER_ROW.replace("DEPOT_SECTION\n1\n", "DEPOT_SECTION\n");
    match read_f64(&no_depot) {
        Err(LoadError::Validation(e)) => assert_eq!(e, ValidationError::MissingDepots),
        _ => panic!(),
    }
}

#[test]
fn u64_read_reads_as_values_law_example() {
    for text in [LOWER_ROW, EUC_2D, FULL_MATRIX] {
        let i = read_from_vrplib(&lines(text), euc2d).unwrap();
        let j = read_f64(text).unwrap();
        assert_eq!(j.name(), i.name());
        assert_eq!(j.problem_type(), i.problem_type());
        assert_eq!(j.dimension(), i.dimension());
        assert_eq!(j.depots(), i.depots());
        assert_eq!(coords_of_f64(&j), coords_of(&i));
        assert_eq!(*j.capacity(), i.capacity().map(|c| c as f64));
        assert_eq!(
            j.demands().clone(),
            i.demands().as_ref().map(|d| d.iter().map(|&x| x as f64).collect::<Vec<_>>())
        );
        let n = i.dimension();
        for r in 0..n {
            for c in 0..n {
                if r != c {
                    assert_eq!(j.edge_weights()[r][c], i.edge_weights()[r][c] as f64);
                }
            }
        }
    }
}
