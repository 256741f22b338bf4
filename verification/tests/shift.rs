use spectral2d::matrix::Matrix;
use spectral2d::shift::FftShiftExt;

fn matrix(rows: &[&[i32]]) -> Matrix<i32> {
    Matrix::from_rows(rows.iter().map(|r| r.to_vec()).collect()).unwrap()
}

#[test]
fn fftshift_odd_dimension_test() {
    let mut unshifty = matrix(&[&[1, 2, 3], &[4, 5, 6], &[7, 8, 9]]);
    let shifty = matrix(&[&[9, 7, 8], &[3, 1, 2], &[6, 4, 5]]);

    assert_eq!(shifty, unshifty.fftshift());

    unshifty.fftshift_inplace();

    assert_eq!(shifty, unshifty);
}

#[test]
fn fftshift_even_dimension_test() {
    let mut unshifty = matrix(&[&[1, 2, 3], &[4, 5, 6], &[7, 8, 9], &[10, 11, 12]]);
    let shifty = matrix(&[&[9, 7, 8], &[12, 10, 11], &[3, 1, 2], &[6, 4, 5]]);

    assert_eq!(shifty, unshifty.fftshift());

    unshifty.fftshift_inplace();

    assert_eq!(shifty, unshifty);
}

#[test]
fn fftshift_leaves_its_argument_alone() {
    let source = matrix(&[&[1, 2], &[3, 4]]);
    let copy = source.clone();
    let shifted = source.fftshift();
    assert_eq!(source, copy);
    assert_eq!(shifted, matrix(&[&[4, 3], &[2, 1]]));
}

#[test]
fn fftshift_twice_is_identity_on_even_dimensions() {
    let m = matrix(&[&[1, 2, 3, 4], &[5, 6, 7, 8]]);
    assert_eq!(m.fftshift(), matrix(&[&[7, 8, 5, 6], &[3, 4, 1, 2]]));
    assert_eq!(m.fftshift().fftshift(), m);

    let square = matrix(&[&[1, 2, 3, 4], &[5, 6, 7, 8], &[9, 10, 11, 12], &[13, 14, 15, 16]]);
    assert_eq!(square.fftshift().fftshift(), square);
}

#[test]
fn fftshift_twice_is_not_identity_on_odd_dimensions() {
    let m = matrix(&[&[1, 2, 3], &[4, 5, 6], &[7, 8, 9]]);
    let twice = m.fftshift().fftshift();
    assert_ne!(twice, m);
    // each axis of odd length is rotated by one place
    assert_eq!(twice, matrix(&[&[5, 6, 4], &[8, 9, 7], &[2, 3, 1]]));
}

#[test]
fn fftshift_twice_rotates_only_the_odd_axis() {
    let m = matrix(&[&[1, 2, 3], &[4, 5, 6]]);
    assert_eq!(m.fftshift(), matrix(&[&[6, 4, 5], &[3, 1, 2]]));
    assert_eq!(m.fftshift().fftshift(), matrix(&[&[2, 3, 1], &[5, 6, 4]]));
}

#[test]
fn fftshift_of_a_single_row_and_a_single_column() {
    let row = matrix(&[&[1, 2, 3, 4, 5]]);
    assert_eq!(row.fftshift(), matrix(&[&[4, 5, 1, 2, 3]]));
    let column = matrix(&[&[1], &[2], &[3], &[4]]);
    assert_eq!(column.fftshift(), matrix(&[&[3], &[4], &[1], &[2]]));
    let cell = matrix(&[&[7]]);
    assert_eq!(cell.fftshift(), cell);
}

#[test]
fn fftshift_of_an_empty_matrix_is_empty() {
    let mut none: Matrix<i32> = Matrix::filled(0, 3, 0);
    assert_eq!(none.fftshift(), none);
    none.fftshift_inplace();
    assert_eq!(none.rows(), 0);
    assert_eq!(none.cols(), 3);
    let thin: Matrix<i32> = Matrix::filled(2, 0, 0);
    assert_eq!(thin.fftshift(), thin);
}

#[test]
fn fftshift_moves_the_corner_to_the_middle() {
    let mut m: Matrix<u8> = Matrix::filled(4, 6, 0);
    m.set(0, 0, 1);
    let shifted = m.fftshift();
    for i in 0..4 {
        for j in 0..6 {
            let expected = if (i, j) == (2, 3) { 1 } else { 0 };
            assert_eq!(shifted.get(i, j), expected);
        }
    }
}
