use num_traits::FromPrimitive;
use rustdct::DCTplanner;
use spectral2d::dct::{Dct, DctExt, DctType};
use spectral2d::engine::{Arithmetic, Provider};
use spectral2d::kind::{Ratio, TransformError, TransformKind};
use spectral2d::matrix::Matrix;
use spectral2d::{ForwardTransformExt, InverseTransformExt};

type Kernel = Box<dyn Fn(Vec<f64>) -> Vec<f64>>;

fn plan(kind: TransformKind, len: usize) -> Kernel {
    let mut planner = DCTplanner::new();
    match kind {
        TransformKind::Cosine(DctType::Type1) => {
            let dct = planner.plan_dct1(len);
            Box::new(move |mut input: Vec<f64>| {
                let mut output = vec![0.0; input.len()];
                dct.process_dct1(&mut input, &mut output);
                output
            })
        }
        TransformKind::Cosine(DctType::Type2) => {
            let dct = planner.plan_dct2(len);
            Box::new(move |mut input: Vec<f64>| {
                let mut output = vec![0.0; input.len()];
                dct.process_dct2(&mut input, &mut output);
                output
            })
        }
        TransformKind::Cosine(DctType::Type3) => {
            let dct = planner.plan_dct3(len);
            Box::new(move |mut input: Vec<f64>| {
                let mut output = vec![0.0; input.len()];
                dct.process_dct3(&mut input, &mut output);
                output
            })
        }
        TransformKind::Cosine(DctType::Type4) => {
            let dct = planner.plan_dct4(len);
            Box::new(move |mut input: Vec<f64>| {
                let mut output = vec![0.0; input.len()];
                dct.process_dct4(&mut input, &mut output);
                output
            })
        }
        _ => panic!("not a cosine transform"),
    }
}

fn process(kernel: &Kernel, input: Vec<f64>) -> Vec<f64> {
    kernel(input)
}

fn provider() -> Provider<fn(TransformKind, usize) -> Kernel, fn(&Kernel, Vec<f64>) -> Vec<f64>> {
    Provider { plan, process }
}

fn cast(ratio: Ratio) -> Option<f64> {
    f64::from_f64(ratio.numerator as f64 / ratio.denominator as f64)
}

fn times(cell: f64, factor: f64) -> f64 {
    cell * factor
}

fn floats() -> Arithmetic<f64, fn(Ratio) -> Option<f64>, fn(f64, f64) -> f64> {
    Arithmetic { one: 1.0, cast, times }
}

fn matrix(rows: &[&[f64]]) -> Matrix<f64> {
    Matrix::from_rows(rows.iter().map(|r| r.to_vec()).collect()).unwrap()
}

fn assert_close(actual: &Matrix<f64>, expected: &Matrix<f64>) {
    assert_eq!(actual.rows(), expected.rows());
    assert_eq!(actual.cols(), expected.cols());
    for i in 0..actual.rows() {
        for j in 0..actual.cols() {
            let (a, e) = (actual.get(i, j), expected.get(i, j));
            assert!((a - e).abs() < 1.0e-6, "cell ({}, {}): {} is not {}", i, j, a, e);
        }
    }
}

#[test]
fn test_dct_1() {
    let expected = matrix(&[&[4.0, 0.0, -4.0], &[0.0, 0.0, 0.0], &[-4.0, 0.0, 4.0]]);

    let input = matrix(&[&[0.0, 0.0, 0.0], &[0.0, 1.0, 0.0], &[0.0, 0.0, 0.0]]);

    let dct = Dct::new(input, provider(), floats());

    let actual = dct.perform_dct1().unwrap();
    assert_close(&actual, &expected);
}

#[test]
fn test_dct_2() {
    let expected = matrix(&[
        &[16.0, 3.46410162, 2.0],
        &[-3.46410162, 3.0, -1.73205081],
        &[2.0, 1.73205081, 7.0],
    ]);

    let input = matrix(&[&[1.0, 0.0, 0.0], &[0.0, 1.0, 0.0], &[1.0, 0.0, 1.0]]);

    let dct = Dct::new(input, provider(), floats());

    let actual = dct.perform_dct2().unwrap();
    assert_close(&actual, &expected);
}

#[test]
fn test_dct_3() {
    let expected = matrix(&[
        &[6.0, -4.4408921e-16, -4.4408921e-16],
        &[-3.0, 3.0, -3.0],
        &[-8.8817842e-16, 0.0, 6.0],
    ]);

    let input = matrix(&[&[1.0, 0.0, 0.0], &[0.0, 1.0, 0.0], &[1.0, 0.0, 1.0]]);

    let dct = Dct::new(input, provider(), floats());

    let actual = dct.perform_dct3().unwrap();

    assert_close(&actual, &expected);
}

#[test]
fn test_dct_4() {
    let expected = matrix(&[&[2.0, -2.0, -2.0], &[-2.0, 2.0, 2.0], &[-2.0, 2.0, 2.0]]);

    let input = matrix(&[&[0.0, 0.0, 0.0], &[0.0, 1.0, 0.0], &[0.0, 0.0, 0.0]]);

    let dct = Dct::new(input, provider(), floats());

    let actual = dct.perform_dct4().unwrap();
    assert_close(&actual, &expected);
}

#[test]
fn perform_dct_picks_the_variant() {
    let input = matrix(&[&[1.0, 0.0, 0.0], &[0.0, 1.0, 0.0], &[1.0, 0.0, 1.0]]);
    let by_type =
        |ty: DctType| Dct::new(input.clone(), provider(), floats()).perform_dct(ty).unwrap();
    let one = Dct::new(input.clone(), provider(), floats()).perform_dct1().unwrap();
    let two = Dct::new(input.clone(), provider(), floats()).perform_dct2().unwrap();
    let three = Dct::new(input.clone(), provider(), floats()).perform_dct3().unwrap();
    let four = Dct::new(input.clone(), provider(), floats()).perform_dct4().unwrap();
    assert_eq!(by_type(DctType::Type1), one);
    assert_eq!(by_type(DctType::Type2), two);
    assert_eq!(by_type(DctType::Type3), three);
    assert_eq!(by_type(DctType::Type4), four);
    assert_ne!(one, two);
    assert_ne!(two, three);
    assert_ne!(three, four);
}

#[test]
fn forward_is_type_two_and_inverse_is_type_three() {
    let input = matrix(&[&[1.0, 0.0, 0.0], &[0.0, 1.0, 0.0], &[1.0, 0.0, 1.0]]);
    let forward = Dct::new(input.clone(), provider(), floats()).transform().unwrap();
    let two = Dct::new(input.clone(), provider(), floats()).perform_dct2().unwrap();
    assert_eq!(forward, two);
    let inverse = Dct::new(input.clone(), provider(), floats()).inverse().unwrap();
    let three = Dct::new(input, provider(), floats()).perform_dct3().unwrap();
    assert_eq!(inverse, three);
}

#[test]
fn dct_of_a_matrix_that_is_not_square() {
    // type 2 of a constant: only the first cell is not zero, and it is the
    // sum of the cells times (rows * cols - 1) / 2
    let input = matrix(&[&[1.0, 1.0, 1.0], &[1.0, 1.0, 1.0]]);
    let actual = Dct::new(input, provider(), floats()).perform_dct2().unwrap();
    let expected = matrix(&[&[15.0, 0.0, 0.0], &[0.0, 0.0, 0.0]]);
    assert_close(&actual, &expected);
}

#[test]
fn dct_is_linear() {
    let one = matrix(&[&[1.0, 2.0, 0.5], &[0.0, -1.0, 4.0], &[3.0, 0.25, 1.0]]);
    let two = matrix(&[&[0.0, 1.0, 1.0], &[2.0, 2.0, -3.0], &[1.5, 0.0, 1.0]]);
    let (a, b) = (2.0, -0.5);
    let mut mixed = Matrix::filled(3, 3, 0.0);
    for i in 0..3 {
        for j in 0..3 {
            mixed.set(i, j, a * one.get(i, j) + b * two.get(i, j));
        }
    }
    let of_one = Dct::new(one, provider(), floats()).transform().unwrap();
    let of_two = Dct::new(two, provider(), floats()).transform().unwrap();
    let of_mixed = Dct::new(mixed, provider(), floats()).transform().unwrap();
    for i in 0..3 {
        for j in 0..3 {
            let expected = a * of_one.get(i, j) + b * of_two.get(i, j);
            assert!((of_mixed.get(i, j) - expected).abs() < 1.0e-6);
        }
    }
}

#[test]
fn dct_refuses_a_matrix_without_cells() {
    let none: Matrix<f64> = Matrix::filled(0, 3, 0.0);
    assert_eq!(
        Dct::new(none.clone(), provider(), floats()).perform_dct1(),
        Err(TransformError::InvalidShape)
    );
    assert_eq!(
        Dct::new(none.clone(), provider(), floats()).perform_dct(DctType::Type4),
        Err(TransformError::InvalidShape)
    );
    assert_eq!(
        Dct::new(none.clone(), provider(), floats()).transform(),
        Err(TransformError::InvalidShape)
    );
    assert_eq!(Dct::new(none, provider(), floats()).inverse(), Err(TransformError::InvalidShape));
    let thin: Matrix<f64> = Matrix::filled(3, 0, 0.0);
    assert_eq!(
        Dct::new(thin, provider(), floats()).perform_dct2(),
        Err(TransformError::InvalidShape)
    );
}
