use spectral2d::matrix::Matrix;

#[test]
fn from_rows_keeps_the_cells() {
    let m = Matrix::from_rows(vec![vec![1, 2, 3], vec![4, 5, 6]]).unwrap();
    assert_eq!(m.rows(), 2);
    assert_eq!(m.cols(), 3);
    assert_eq!(m.get(0, 0), 1);
    assert_eq!(m.get(0, 2), 3);
    assert_eq!(m.get(1, 1), 5);
    assert_eq!(m.into_rows(), vec![vec![1, 2, 3], vec![4, 5, 6]]);
}

#[test]
fn from_rows_refuses_rows_of_unequal_length() {
    assert_eq!(Matrix::from_rows(vec![vec![1, 2, 3], vec![4, 5]]), None);
    assert_eq!(Matrix::from_rows(vec![vec![], vec![4]]), None);
    assert_eq!(Matrix::from_rows(vec![vec![1], vec![2], vec![3, 4]]), None);
}

#[test]
fn from_rows_takes_empty_shapes() {
    let none: Matrix<u8> = Matrix::from_rows(vec![]).unwrap();
    assert_eq!(none.rows(), 0);
    assert_eq!(none.cols(), 0);
    let thin: Matrix<u8> = Matrix::from_rows(vec![vec![], vec![]]).unwrap();
    assert_eq!(thin.rows(), 2);
    assert_eq!(thin.cols(), 0);
}

#[test]
fn filled_has_the_shape_and_the_value() {
    let m = Matrix::filled(2, 3, 7u8);
    assert_eq!(m.into_rows(), vec![vec![7, 7, 7], vec![7, 7, 7]]);
    let none = Matrix::filled(0, 4, 7u8);
    assert_eq!(none.rows(), 0);
    assert_eq!(none.cols(), 4);
}

#[test]
fn set_changes_one_cell() {
    let mut m = Matrix::from_rows(vec![vec![1, 2], vec![3, 4], vec![5, 6]]).unwrap();
    m.set(1, 0, 30);
    assert_eq!(m.into_rows(), vec![vec![1, 2], vec![30, 4], vec![5, 6]]);
}

#[test]
fn row_and_column_are_copies() {
    let m = Matrix::from_rows(vec![vec![1, 2, 3], vec![4, 5, 6]]).unwrap();
    assert_eq!(m.row(1), vec![4, 5, 6]);
    assert_eq!(m.column(0), vec![1, 4]);
    assert_eq!(m.column(2), vec![3, 6]);
}

#[test]
fn transpose_swaps_rows_and_columns() {
    let m = Matrix::from_rows(vec![vec![1, 2, 3], vec![4, 5, 6]]).unwrap();
    let t = m.transpose();
    assert_eq!(t.rows(), 3);
    assert_eq!(t.cols(), 2);
    assert_eq!(t.clone().into_rows(), vec![vec![1, 4], vec![2, 5], vec![3, 6]]);
    assert_eq!(t.transpose(), m);
}

#[test]
fn transpose_keeps_the_width_of_an_empty_matrix() {
    let none = Matrix::filled(0, 3, 0u8);
    let t = none.transpose();
    assert_eq!(t.rows(), 3);
    assert_eq!(t.cols(), 0);
    assert_eq!(t.transpose(), none);
}
