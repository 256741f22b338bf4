use num_traits::ToPrimitive;
use rustfft::num_complex::Complex;
use rustfft::{FFTplanner, FFT};
use spectral2d::dft::Dft;
use spectral2d::engine::{Arithmetic, Provider};
use spectral2d::kind::{Ratio, TransformError, TransformKind};
use spectral2d::matrix::Matrix;
use spectral2d::shift::FftShiftExt;
use spectral2d::{ForwardTransformExt, InverseTransformExt};
use std::sync::Arc;

fn c(re: f64, im: f64) -> Complex<f64> {
    Complex::new(re, im)
}

type Kernel = Arc<dyn FFT<f64>>;

fn plan(kind: TransformKind, len: usize) -> Kernel {
    let inverse = match kind {
        TransformKind::FourierForward => false,
        TransformKind::FourierInverse => true,
        TransformKind::Cosine(_) => panic!("not a Fourier transform"),
    };
    FFTplanner::new(inverse).plan_fft(len)
}

fn process(kernel: &Kernel, mut input: Vec<Complex<f64>>) -> Vec<Complex<f64>> {
    let mut output = vec![c(0.0, 0.0); input.len()];
    kernel.process(&mut input, &mut output);
    output
}

type Process = fn(&Kernel, Vec<Complex<f64>>) -> Vec<Complex<f64>>;

fn provider() -> Provider<fn(TransformKind, usize) -> Kernel, Process> {
    Provider { plan, process }
}

fn cast(ratio: Ratio) -> Option<f64> {
    Some(ratio.numerator as f64 / ratio.denominator as f64)
}

fn times(cell: Complex<f64>, factor: f64) -> Complex<f64> {
    cell * factor
}

fn floats() -> Arithmetic<f64, fn(Ratio) -> Option<f64>, fn(Complex<f64>, f64) -> Complex<f64>> {
    Arithmetic { one: 1.0, cast, times }
}

fn lift(x: f64) -> Option<Complex<f64>> {
    x.to_f64().map(|re| c(re, 0.0))
}

fn reals(rows: &[&[f64]]) -> Matrix<f64> {
    Matrix::from_rows(rows.iter().map(|r| r.to_vec()).collect()).unwrap()
}

fn complex(rows: Vec<Vec<Complex<f64>>>) -> Matrix<Complex<f64>> {
    Matrix::from_rows(rows).unwrap()
}

fn assert_close(actual: &Matrix<Complex<f64>>, expected: &Matrix<Complex<f64>>) {
    assert_eq!(actual.rows(), expected.rows());
    assert_eq!(actual.cols(), expected.cols());
    for i in 0..actual.rows() {
        for j in 0..actual.cols() {
            let (a, e) = (actual.get(i, j), expected.get(i, j));
            assert!((a.re - e.re).abs() < 1.0e-6, "cell ({}, {}): {} is not {}", i, j, a, e);
            assert!((a.im - e.im).abs() < 1.0e-6, "cell ({}, {}): {} is not {}", i, j, a, e);
        }
    }
}

fn forward(spatial: &Matrix<f64>) -> Matrix<Complex<f64>> {
    Dft::from_real(spatial, &lift, c(0.0, 0.0), provider(), floats()).transform().unwrap()
}

fn backward(frequency: Matrix<Complex<f64>>) -> Matrix<Complex<f64>> {
    Dft::new(frequency, provider(), floats()).inverse().unwrap()
}

#[test]
fn forward_fourier() {
    let expected = complex(vec![
        vec![c(1.0, 0.0), c(-0.5, -0.8660254), c(-0.5, 0.8660254)],
        vec![c(-0.5, -0.8660254), c(-0.5, 0.8660254), c(1.0, 0.0)],
        vec![c(-0.5, 0.8660254), c(1.0, 0.0), c(-0.5, -0.8660254)],
    ]);

    let spatial = reals(&[&[0.0, 0.0, 0.0], &[0.0, 1.0, 0.0], &[0.0, 0.0, 0.0]]);
    let frequency_domain = Dft::from_real(&spatial, &lift, c(0.0, 0.0), provider(), floats());

    let actual = frequency_domain.transform().unwrap();

    assert_close(&actual, &expected);
}

#[test]
fn inverse_fourier() {
    let zero = c(0.0, 0.0);
    let one = c(1.0, 0.0);
    let expected = complex(vec![
        vec![one, zero, zero, zero],
        vec![zero, zero, zero, one],
        vec![zero, zero, one, zero],
        vec![zero, one, zero, zero],
    ]);

    let freq = complex(vec![
        vec![c(4.0, 0.0), zero, zero, zero],
        vec![zero, c(4.0, 0.0), zero, zero],
        vec![zero, zero, c(4.0, 0.0), zero],
        vec![zero, zero, zero, c(4.0, 0.0)],
    ]);
    let freq = Dft::new(freq, provider(), floats());
    let actual = freq.inverse().unwrap();

    assert_close(&actual, &expected);
}

#[test]
fn from_real_puts_each_cell_in_the_real_part() {
    let spatial = Matrix::from_rows(vec![vec![1i32, -2], vec![3, 4]]).unwrap();
    let as_complex = |x: i32| x.to_f64().map(|re| c(re, 0.0));
    let same = Provider {
        plan: |_: TransformKind, len: usize| len,
        process: |_: &usize, input: Vec<Complex<f64>>| input,
    };
    let dft = Dft::from_real(&spatial, &as_complex, c(0.0, 0.0), same, floats());
    let out = dft.transform().unwrap();
    let expected = complex(vec![vec![c(1.0, 0.0), c(-2.0, 0.0)], vec![c(3.0, 0.0), c(4.0, 0.0)]]);
    assert_eq!(out, expected);
}

#[test]
fn from_real_puts_zero_where_a_cell_cannot_be_converted() {
    let spatial = Matrix::from_rows(vec![vec![Some(1.5), None], vec![None, Some(4.0)]]).unwrap();
    let known = |x: Option<f64>| x.map(|re| c(re, 0.0));
    let same = Provider {
        plan: |_: TransformKind, len: usize| len,
        process: |_: &usize, input: Vec<Complex<f64>>| input,
    };
    let dft = Dft::from_real(&spatial, &known, c(0.0, 0.0), same, floats());
    let out = dft.transform().unwrap();
    let expected = complex(vec![vec![c(1.5, 0.0), c(0.0, 0.0)], vec![c(0.0, 0.0), c(4.0, 0.0)]]);
    assert_eq!(out, expected);
}

#[test]
fn inverse_undoes_forward() {
    let cases = [
        reals(&[&[1.0, 2.0], &[3.0, 4.0]]),
        reals(&[&[0.5, -1.0, 2.0], &[4.0, 0.0, -3.5], &[1.0, 1.0, 7.0]]),
        reals(&[&[1.0, 2.0, 3.0], &[4.0, 5.0, 6.0]]),
        reals(&[&[1.0, -2.0], &[3.0, 4.5], &[0.0, 6.0], &[7.0, 8.0]]),
        reals(&[&[42.0]]),
    ];
    for spatial in cases.iter() {
        let back = backward(forward(spatial));
        assert_eq!(back.rows(), spatial.rows());
        assert_eq!(back.cols(), spatial.cols());
        for i in 0..spatial.rows() {
            for j in 0..spatial.cols() {
                assert!((back.get(i, j).re - spatial.get(i, j)).abs() < 1.0e-6);
                assert!(back.get(i, j).im.abs() < 1.0e-6);
            }
        }
    }
}

#[test]
fn inverse_does_not_undo_forward_on_a_single_row() {
    let spatial = reals(&[&[1.0, 2.0]]);
    let back = backward(forward(&spatial));
    let expected = complex(vec![vec![c(1.5, 0.0), c(-0.5, 0.0)]]);
    assert_close(&back, &expected);
}

#[test]
fn inverse_does_not_undo_forward_on_a_single_column() {
    let spatial = reals(&[&[1.0], &[2.0]]);
    let back = backward(forward(&spatial));
    let expected = complex(vec![vec![c(1.5, 0.0)], vec![c(-0.5, 0.0)]]);
    assert_close(&back, &expected);
}

#[test]
fn forward_is_linear() {
    let one = reals(&[&[1.0, 2.0, 0.5], &[0.0, -1.0, 4.0]]);
    let two = reals(&[&[0.0, 1.0, 1.0], &[2.0, 2.0, -3.0]]);
    let (a, b) = (3.0, -1.5);
    let mut mixed = Matrix::filled(2, 3, 0.0);
    for i in 0..2 {
        for j in 0..3 {
            mixed.set(i, j, a * one.get(i, j) + b * two.get(i, j));
        }
    }
    let of_one = forward(&one);
    let of_two = forward(&two);
    let of_mixed = forward(&mixed);
    for i in 0..2 {
        for j in 0..3 {
            let expected = of_one.get(i, j) * a + of_two.get(i, j) * b;
            assert!((of_mixed.get(i, j).re - expected.re).abs() < 1.0e-6);
            assert!((of_mixed.get(i, j).im - expected.im).abs() < 1.0e-6);
        }
    }
}

#[test]
fn forward_of_a_constant_is_a_single_peak() {
    let spatial = reals(&[&[1.0, 1.0, 1.0, 1.0], &[1.0, 1.0, 1.0, 1.0]]);
    let zero = c(0.0, 0.0);
    let expected = complex(vec![
        vec![c(8.0, 0.0), zero, zero, zero],
        vec![zero, zero, zero, zero],
    ]);
    assert_close(&forward(&spatial), &expected);
}

#[test]
fn forward_of_a_single_column_leaves_the_columns_out() {
    let spatial = reals(&[&[1.0], &[2.0], &[3.0]]);
    let expected = complex(vec![vec![c(1.0, 0.0)], vec![c(2.0, 0.0)], vec![c(3.0, 0.0)]]);
    assert_close(&forward(&spatial), &expected);
}

#[test]
fn forward_of_a_single_row_transforms_the_row() {
    let spatial = reals(&[&[1.0, 2.0]]);
    let expected = complex(vec![vec![c(3.0, 0.0), c(-1.0, 0.0)]]);
    assert_close(&forward(&spatial), &expected);
}

#[test]
fn inverse_of_a_single_row_leaves_the_rows_out() {
    let frequency = complex(vec![vec![c(3.0, 0.0), c(-1.0, 0.0)]]);
    let expected = complex(vec![vec![c(1.5, 0.0), c(-0.5, 0.0)]]);
    assert_close(&backward(frequency), &expected);
}

#[test]
fn inverse_of_a_single_column_transforms_the_column() {
    let frequency = complex(vec![vec![c(3.0, 0.0)], vec![c(-1.0, 0.0)]]);
    let expected = complex(vec![vec![c(1.0, 0.0)], vec![c(2.0, 0.0)]]);
    assert_close(&backward(frequency), &expected);
}

#[test]
fn dft_refuses_a_matrix_without_cells() {
    let none: Matrix<f64> = Matrix::filled(0, 2, 0.0);
    assert_eq!(
        Dft::from_real(&none, &lift, c(0.0, 0.0), provider(), floats()).transform(),
        Err(TransformError::InvalidShape)
    );
    let thin: Matrix<Complex<f64>> = Matrix::filled(2, 0, c(0.0, 0.0));
    assert_eq!(
        Dft::new(thin.clone(), provider(), floats()).inverse(),
        Err(TransformError::InvalidShape)
    );
    assert_eq!(Dft::new(thin, provider(), floats()).transform(), Err(TransformError::InvalidShape));
}

#[test]
fn a_centred_spectrum_has_its_peak_in_the_middle() {
    let spatial = reals(&[&[1.0, 1.0, 1.0, 1.0], &[1.0, 1.0, 1.0, 1.0]]);
    let centred = forward(&spatial).fftshift();
    for i in 0..2 {
        for j in 0..4 {
            let expected = if (i, j) == (1, 2) { 8.0 } else { 0.0 };
            assert!((centred.get(i, j).re - expected).abs() < 1.0e-6);
            assert!(centred.get(i, j).im.abs() < 1.0e-6);
        }
    }
}
