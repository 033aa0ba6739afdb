use vrp_parser::matrix::expand_lower_row;

#[test]
fn test_expand_lower_row() {
    let sut = vec![vec![1], vec![2, 3]];

    let value = expand_lower_row(&sut);

    let expected = vec![vec![0, 1, 2], vec![1, 0, 3], vec![2, 3, 0]];
    assert_eq!(value, expected);
}

#[test]
fn expand_lower_row_of_nothing_is_one_by_one() {
    let sut: Vec<Vec<u64>> = vec![];
    assert_eq!(expand_lower_row(&sut), vec![vec![0u64]]);
}

#[test]
fn expand_lower_row_is_symmetric() {
    let sut: Vec<Vec<u64>> = vec![vec![4], vec![5, 6], vec![7, 8, 9]];
    let m = expand_lower_row(&sut);
    assert_eq!(m.len(), 4);
    for i in 0..4 {
        assert_eq!(m[i][i], 0);
        for j in 0..4 {
            assert_eq!(m[i][j], m[j][i]);
        }
    }
    assert_eq!(m[3][1], 8);
}

#[test]
fn expand_lower_row_ignores_entries_past_the_diagonal() {
    let sut: Vec<Vec<u64>> = vec![vec![1, 99], vec![2, 3, 99]];
    assert_eq!(
        expand_lower_row(&sut),
        vec![vec![0, 1, 2], vec![1, 0, 3], vec![2, 3, 0]]
    );
}
