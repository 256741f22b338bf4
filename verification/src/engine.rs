//! The separable transform engine: a one-dimensional kernel is run along the
//! rows and along the columns of a matrix, in the order and with the final
//! multiplication that the kind of transform asks for.
//!
//! The engine does no arithmetic on the cells itself. The provider of the
//! kernels, the arithmetic of the cells and the conversion of cells are
//! functions that the caller hands in; the contracts say exactly with which
//! arguments each of them is called and where each result is put.

use crate::grid::lemma_transposed_shape;
use crate::kind::{select, Ratio, TransformError, TransformKind};
use crate::laws::lemma_cols_by_transposition;
use crate::matrix::Matrix;
use crate::relation::{
    arithmetic_serves, cells_multiplied, cols_transformed, factor_of, kernel_maps, lift_serves,
    lifted, lifts_to, pass, pass_len, plans, provider_serves, rows_mapped, rows_transformed,
    scaled, serves, stages, transformed,
};
use vstd::prelude::*;

verus! {

/// The provider of the one-dimensional kernels: `plan` makes the kernel for
/// one kind of transform and one length of buffer, and `process` runs such a
/// kernel on a buffer of that length and gives back the transformed buffer.
pub struct Provider<Pl, Pr> {
    pub plan: Pl,
    pub process: Pr,
}

/// The arithmetic that the final multiplication needs of the cells: `cast`
/// turns the exact constant into a factor, or fails where the factor's type
/// cannot hold it; `one` is the factor that multiplies by one; `times`
/// multiplies a cell by a factor.
pub struct Arithmetic<F, C, M> {
    pub one: F,
    pub cast: C,
    pub times: M,
}

/// Converts every cell to the representation that a transform works on:
/// with `lift`, and with `fallback` in place of a cell that `lift` cannot
/// convert.
pub fn to_working_representation<T: Copy, W: Copy, L: Fn(T) -> Option<W>>(
    m: &Matrix<T>,
    lift: &L,
    fallback: W,
) -> (out: Matrix<W>)
    requires
        m.wf(),
        lift_serves(*lift, m@),
    ensures
        out.wf(),
        lifted(*lift, fallback, m@, out@),
{
    let rows = m.rows();
    let cols = m.cols();
    let mut lines: Vec<Vec<W>> = Vec::new();
    let mut i: usize = 0;
    while i < rows
        invariant
            m.wf(),
            rows == m@.rows(),
            cols == m@.cols,
            i <= rows,
            lines.len() == i,
            lift_serves(*lift, m@),
            forall|k: int| 0 <= k < i ==> (#[trigger] lines[k]).len() == cols,
            forall|k: int, j: int|
                0 <= k < i && 0 <= j < cols ==> lifts_to(
                    *lift,
                    fallback,
                    m@.at(k, j),
                    #[trigger] lines[k][j],
                ),
        decreases rows - i,
    {
        let mut line: Vec<W> = Vec::new();
        let mut j: usize = 0;
        while j < cols
            invariant
                m.wf(),
                i < rows,
                rows == m@.rows(),
                cols == m@.cols,
                j <= cols,
                line.len() == j,
                lift_serves(*lift, m@),
                forall|l: int|
                    0 <= l < j ==> lifts_to(
                        *lift,
                        fallback,
                        m@.at(i as int, l),
                        #[trigger] line[l],
                    ),
            decreases cols - j,
        {
            let cell = match lift(m.get(i, j)) {
                Some(converted) => converted,
                None => fallback,
            };
            line.push(cell);
            j += 1;
        }
        lines.push(line);
        i += 1;
    }
    let out = Matrix::assemble(cols, lines);
    assert forall|k: int, j: int|
        0 <= k < m@.rows() && 0 <= j < m@.cols implies #[trigger] lifts_to(
        *lift,
        fallback,
        m@.at(k, j),
        out@.at(k, j),
    ) by {
        assert(out@.at(k, j) == lines[k][j]);
    }
    out
}

/// Plans one kernel for buffers as long as a row, runs it on every row, top
/// to bottom, and puts each result where the row was.
pub fn transform_rows<
    T: Copy,
    K,
    Pl: Fn(TransformKind, usize) -> K,
    Pr: Fn(&K, Vec<T>) -> Vec<T>,
>(
    m: &Matrix<T>,
    kind: TransformKind,
    provider: &Provider<Pl, Pr>,
) -> (out: Matrix<T>)
    requires
        m.wf(),
        provider_serves::<T, K, Pl, Pr>(*provider, kind, m@.cols),
    ensures
        out.wf(),
        out@.same_shape(m@),
        rows_transformed(*provider, kind, m@, out@),
{
    let rows = m.rows();
    let cols = m.cols();
    let kernel = (provider.plan)(kind, cols);
    assert(plans(provider.plan, kind, m@.cols, kernel));
    let mut lines: Vec<Vec<T>> = Vec::new();
    let mut i: usize = 0;
    while i < rows
        invariant
            m.wf(),
            rows == m@.rows(),
            cols == m@.cols,
            i <= rows,
            lines.len() == i,
            forall|given: Vec<T>|
                given@.len() == cols ==> call_requires(provider.process, (&kernel, given)),
            forall|given: Vec<T>, made: Vec<T>|
                given@.len() == cols && call_ensures(provider.process, (&kernel, given), made)
                    ==> made@.len() == cols,
            forall|k: int| 0 <= k < i ==> (#[trigger] lines[k]).len() == cols,
            forall|k: int|
                0 <= k < i ==> kernel_maps(
                    provider.process,
                    kernel,
                    m@.row(k),
                    (#[trigger] lines[k])@,
                ),
        decreases rows - i,
    {
        let given = m.row(i);
        let made = (provider.process)(&kernel, given);
        assert(kernel_maps(provider.process, kernel, m@.row(i as int), made@));
        lines.push(made);
        i += 1;
    }
    let out = Matrix::assemble(cols, lines);
    assert forall|k: int| 0 <= k < m@.rows() implies #[trigger] kernel_maps(
        provider.process,
        kernel,
        m@.row(k),
        out@.row(k),
    ) by {
        assert(out@.row(k) == lines[k]@);
    }
    assert(rows_mapped(provider.process, kernel, m@, out@));
    out
}

/// Runs a pass along the columns: the matrix is transposed, a pass along the
/// rows of that is run, and the result is transposed back.
pub fn transform_columns<
    T: Copy,
    K,
    Pl: Fn(TransformKind, usize) -> K,
    Pr: Fn(&K, Vec<T>) -> Vec<T>,
>(
    m: &Matrix<T>,
    kind: TransformKind,
    provider: &Provider<Pl, Pr>,
) -> (out: Matrix<T>)
    requires
        m.wf(),
        provider_serves::<T, K, Pl, Pr>(*provider, kind, m@.rows()),
    ensures
        out.wf(),
        out@.same_shape(m@),
        cols_transformed(*provider, kind, m@, out@),
{
    let turned = m.transpose();
    let made = transform_rows(&turned, kind, provider);
    let out = made.transpose();
    proof {
        lemma_transposed_shape(made@);
        lemma_cols_by_transposition(*provider, kind, m@, out@);
    }
    out
}

/// Casts the constant `ratio` once, with `one` in its place where the cast
/// fails, and multiplies every cell by that factor.
pub fn scale_cells<T: Copy, F: Copy, C: Fn(Ratio) -> Option<F>, M: Fn(T, F) -> T>(
    m: &Matrix<T>,
    ratio: Ratio,
    arithmetic: &Arithmetic<F, C, M>,
) -> (out: Matrix<T>)
    requires
        m.wf(),
        arithmetic_serves::<T, F, C, M>(*arithmetic, ratio),
    ensures
        out.wf(),
        out@.same_shape(m@),
        scaled(*arithmetic, ratio, m@, out@),
{
    let rows = m.rows();
    let cols = m.cols();
    let factor = match (arithmetic.cast)(ratio) {
        Some(factor) => factor,
        None => arithmetic.one,
    };
    assert(factor_of(arithmetic.cast, arithmetic.one, ratio, factor));
    let mut lines: Vec<Vec<T>> = Vec::new();
    let mut i: usize = 0;
    while i < rows
        invariant
            m.wf(),
            rows == m@.rows(),
            cols == m@.cols,
            i <= rows,
            lines.len() == i,
            forall|cell: T| call_requires(arithmetic.times, (cell, factor)),
            forall|k: int| 0 <= k < i ==> (#[trigger] lines[k]).len() == cols,
            forall|k: int, j: int|
                0 <= k < i && 0 <= j < cols ==> call_ensures(
                    arithmetic.times,
                    (m@.at(k, j), factor),
                    #[trigger] lines[k][j],
                ),
        decreases rows - i,
    {
        let mut line: Vec<T> = Vec::new();
        let mut j: usize = 0;
        while j < cols
            invariant
                m.wf(),
                i < rows,
                rows == m@.rows(),
                cols == m@.cols,
                j <= cols,
                line.len() == j,
                forall|cell: T| call_requires(arithmetic.times, (cell, factor)),
                forall|l: int|
                    0 <= l < j ==> call_ensures(
                        arithmetic.times,
                        (m@.at(i as int, l), factor),
                        #[trigger] line[l],
                    ),
            decreases cols - j,
        {
            let cell = (arithmetic.times)(m.get(i, j), factor);
            line.push(cell);
            j += 1;
        }
        lines.push(line);
        i += 1;
    }
    let out = Matrix::assemble(cols, lines);
    assert forall|k: int, j: int|
        0 <= k < m@.rows() && 0 <= j < m@.cols implies call_ensures(
        arithmetic.times,
        (m@.at(k, j), factor),
        #[trigger] out@.at(k, j),
    ) by {
        assert(out@.at(k, j) == lines[k][j]);
    }
    assert(cells_multiplied(arithmetic.times, factor, m@, out@));
    out
}

/// One pass along the chosen axis.
fn run_pass<
    T: Copy,
    K,
    Pl: Fn(TransformKind, usize) -> K,
    Pr: Fn(&K, Vec<T>) -> Vec<T>,
>(
    m: &Matrix<T>,
    kind: TransformKind,
    provider: &Provider<Pl, Pr>,
    along_columns: bool,
) -> (out: Matrix<T>)
    requires
        m.wf(),
        provider_serves::<T, K, Pl, Pr>(
            *provider,
            kind,
            pass_len(along_columns, m@.rows(), m@.cols),
        ),
    ensures
        out.wf(),
        out@.same_shape(m@),
        pass(*provider, kind, along_columns, m@, out@),
{
    if along_columns {
        transform_columns(m, kind, provider)
    } else {
        transform_rows(m, kind, provider)
    }
}

/// Applies the transform `kind` to a matrix that is already in the
/// representation the transform works on. A matrix without rows or without
/// columns is refused before any kernel is planned; every other matrix is
/// transformed, and the result has its shape.
pub fn transform<
    T: Copy,
    K,
    Pl: Fn(TransformKind, usize) -> K,
    Pr: Fn(&K, Vec<T>) -> Vec<T>,
    F: Copy,
    C: Fn(Ratio) -> Option<F>,
    M: Fn(T, F) -> T,
>(
    m: &Matrix<T>,
    kind: TransformKind,
    provider: &Provider<Pl, Pr>,
    arithmetic: &Arithmetic<F, C, M>,
) -> (out: Result<Matrix<T>, TransformError>)
    requires
        m.wf(),
        m@.rows() >= 1 && m@.cols >= 1 ==> serves::<T, K, Pl, Pr, F, C, M>(
            *provider,
            *arithmetic,
            kind,
            m@.rows(),
            m@.cols,
        ),
    ensures
        out is Err <==> m@.rows() == 0 || m@.cols == 0,
        out matches Err(e) ==> e == TransformError::InvalidShape,
        out matches Ok(made) ==> {
            &&& made.wf()
            &&& made@.same_shape(m@)
            &&& transformed(*provider, *arithmetic, kind, m@, made@)
        },
{
    let plan = match select(kind, m.rows(), m.cols()) {
        Ok(plan) => plan,
        Err(e) => {
            return Err(e);
        },
    };
    let first = run_pass(m, kind, provider, plan.columns_first);
    let ghost after_first = first@;
    let second = if plan.second_pass {
        run_pass(&first, kind, provider, !plan.columns_first)
    } else {
        first
    };
    let made = match plan.normalization {
        Some(ratio) => scale_cells(&second, ratio, arithmetic),
        None => second,
    };
    assert(stages(*provider, *arithmetic, kind, plan, m@, after_first, second@, made@));
    Ok(made)
}

} // verus!
