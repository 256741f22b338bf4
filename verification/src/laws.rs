//! Laws of the transforms: a pass along the columns is a pass along the rows
//! of the transposed matrix, each transform keeps the shape of its matrix
//! and, with deterministic kernels and arithmetic, is a function of its
//! input.

use crate::engine::{Arithmetic, Provider};
use crate::grid::{lemma_transposed_lines, lemma_transposed_shape, Grid};
use crate::kind::{plan_of, Ratio, TransformKind};
use crate::relation::{
    cells_multiplied, cols_mapped, cols_transformed, factor_of, kernel_maps, pass, pass_len,
    plans, rows_mapped, rows_transformed, scaled, stages, transformed,
};
use vstd::prelude::*;

verus! {

/// A pass keeps the shape.
proof fn lemma_pass_shape<T, K, Pl: Fn(TransformKind, usize) -> K, Pr: Fn(&K, Vec<T>) -> Vec<T>>(
    provider: Provider<Pl, Pr>,
    kind: TransformKind,
    along_columns: bool,
    before: Grid<T>,
    after: Grid<T>,
)
    requires
        pass(provider, kind, along_columns, before, after),
    ensures
        after.wf(),
        after.same_shape(before),
{
    if along_columns {
        let kernel = choose|kernel: K| #[trigger]
            plans(provider.plan, kind, before.rows(), kernel) && cols_mapped(
                provider.process,
                kernel,
                before,
                after,
            );
        assert(cols_mapped(provider.process, kernel, before, after));
    } else {
        let kernel = choose|kernel: K| #[trigger]
            plans(provider.plan, kind, before.cols, kernel) && rows_mapped(
                provider.process,
                kernel,
                before,
                after,
            );
        assert(rows_mapped(provider.process, kernel, before, after));
    }
}

/// A pass along the columns is a pass along the rows of the transposed
/// matrix, transposed back.
pub proof fn lemma_cols_by_transposition<
    T,
    K,
    Pl: Fn(TransformKind, usize) -> K,
    Pr: Fn(&K, Vec<T>) -> Vec<T>,
>(provider: Provider<Pl, Pr>, kind: TransformKind, before: Grid<T>, after: Grid<T>)
    requires
        before.wf(),
        after.wf(),
    ensures
        cols_transformed(provider, kind, before, after) == rows_transformed(
            provider,
            kind,
            before.transposed(),
            after.transposed(),
        ),
{
    let turned = before.transposed();
    let made = after.transposed();
    lemma_transposed_shape(before);
    lemma_transposed_shape(after);
    lemma_transposed_lines(before);
    lemma_transposed_lines(after);
    if cols_transformed(provider, kind, before, after) {
        let kernel = choose|kernel: K| #[trigger]
            plans(provider.plan, kind, before.rows(), kernel) && cols_mapped(
                provider.process,
                kernel,
                before,
                after,
            );
        assert forall|j: int| 0 <= j < turned.rows() implies #[trigger] kernel_maps(
            provider.process,
            kernel,
            turned.row(j),
            made.row(j),
        ) by {
            assert(kernel_maps(provider.process, kernel, before.col(j), after.col(j)));
        }
        assert(plans(provider.plan, kind, turned.cols, kernel) && rows_mapped(
            provider.process,
            kernel,
            turned,
            made,
        ));
    }
    if rows_transformed(provider, kind, turned, made) {
        let kernel = choose|kernel: K| #[trigger]
            plans(provider.plan, kind, turned.cols, kernel) && rows_mapped(
                provider.process,
                kernel,
                turned,
                made,
            );
        assert forall|j: int| 0 <= j < before.cols implies #[trigger] kernel_maps(
            provider.process,
            kernel,
            before.col(j),
            after.col(j),
        ) by {
            assert(kernel_maps(provider.process, kernel, turned.row(j), made.row(j)));
        }
        assert(plans(provider.plan, kind, before.rows(), kernel) && cols_mapped(
            provider.process,
            kernel,
            before,
            after,
        ));
    }
}

/// Every transform keeps the shape of the matrix.
pub proof fn lemma_transformed_shape<
    T,
    K,
    Pl: Fn(TransformKind, usize) -> K,
    Pr: Fn(&K, Vec<T>) -> Vec<T>,
    F,
    C: Fn(Ratio) -> Option<F>,
    M: Fn(T, F) -> T,
>(
    provider: Provider<Pl, Pr>,
    arithmetic: Arithmetic<F, C, M>,
    kind: TransformKind,
    input: Grid<T>,
    output: Grid<T>,
)
    requires
        transformed(provider, arithmetic, kind, input, output),
    ensures
        output.wf(),
        output.same_shape(input),
{
    let plan = plan_of(kind, input.rows(), input.cols);
    let (first, second) = choose|first: Grid<T>, second: Grid<T>| #[trigger]
        stages(provider, arithmetic, kind, plan, input, first, second, output);
    lemma_pass_shape(provider, kind, plan.columns_first, input, first);
    if plan.second_pass {
        lemma_pass_shape(provider, kind, !plan.columns_first, first, second);
    }
    if plan.normalization is Some {
        let ratio = plan.normalization->Some_0;
        let factor = choose|factor: F| #[trigger]
            factor_of(arithmetic.cast, arithmetic.one, ratio, factor) && cells_multiplied(
                arithmetic.times,
                factor,
                second,
                output,
            );
        assert(cells_multiplied(arithmetic.times, factor, second, output));
    }
}

/// The kernels that the provider plans for `kind` and for buffers of `len`
/// cells all make the same of the same buffer.
pub open spec fn provider_deterministic<
    T,
    K,
    Pl: Fn(TransformKind, usize) -> K,
    Pr: Fn(&K, Vec<T>) -> Vec<T>,
>(provider: Provider<Pl, Pr>, kind: TransformKind, len: nat) -> bool {
    forall|one: K, other: K, input: Seq<T>, made: Seq<T>, again: Seq<T>|
        {
            &&& #[trigger] plans(provider.plan, kind, len, one)
            &&& #[trigger] plans(provider.plan, kind, len, other)
            &&& input.len() == len
            &&& #[trigger] kernel_maps(provider.process, one, input, made)
            &&& #[trigger] kernel_maps(provider.process, other, input, again)
        } ==> made == again
}

/// The constant `ratio` is always cast to the same factor, and a cell times
/// a factor is always the same cell.
pub open spec fn arithmetic_deterministic<T, F, C: Fn(Ratio) -> Option<F>, M: Fn(T, F) -> T>(
    arithmetic: Arithmetic<F, C, M>,
    ratio: Ratio,
) -> bool {
    &&& forall|made: Option<F>, again: Option<F>|
        {
            &&& #[trigger] call_ensures(arithmetic.cast, (ratio,), made)
            &&& #[trigger] call_ensures(arithmetic.cast, (ratio,), again)
        } ==> made == again
    &&& forall|cell: T, factor: F, made: T, again: T|
        {
            &&& #[trigger] call_ensures(arithmetic.times, (cell, factor), made)
            &&& #[trigger] call_ensures(arithmetic.times, (cell, factor), again)
        } ==> made == again
}

/// The provider and the arithmetic are deterministic in all that a transform
/// of kind `kind` asks of them on a matrix of `rows x cols` cells.
pub open spec fn deterministic<
    T,
    K,
    Pl: Fn(TransformKind, usize) -> K,
    Pr: Fn(&K, Vec<T>) -> Vec<T>,
    F,
    C: Fn(Ratio) -> Option<F>,
    M: Fn(T, F) -> T,
>(
    provider: Provider<Pl, Pr>,
    arithmetic: Arithmetic<F, C, M>,
    kind: TransformKind,
    rows: nat,
    cols: nat,
) -> bool {
    let plan = plan_of(kind, rows, cols);
    &&& provider_deterministic::<T, K, Pl, Pr>(
        provider,
        kind,
        pass_len(plan.columns_first, rows, cols),
    )
    &&& plan.second_pass ==> provider_deterministic::<T, K, Pl, Pr>(
        provider,
        kind,
        pass_len(!plan.columns_first, rows, cols),
    )
    &&& match plan.normalization {
        Some(ratio) => arithmetic_deterministic::<T, F, C, M>(arithmetic, ratio),
        None => true,
    }
}

/// A pass along the rows with a deterministic provider has one result.
pub proof fn lemma_rows_transformed_unique<
    T,
    K,
    Pl: Fn(TransformKind, usize) -> K,
    Pr: Fn(&K, Vec<T>) -> Vec<T>,
>(provider: Provider<Pl, Pr>, kind: TransformKind, before: Grid<T>, after: Grid<T>, other: Grid<T>)
    requires
        before.wf(),
        provider_deterministic::<T, K, Pl, Pr>(provider, kind, before.cols),
        rows_transformed(provider, kind, before, after),
        rows_transformed(provider, kind, before, other),
    ensures
        after == other,
{
    let k1 = choose|kernel: K| #[trigger]
        plans(provider.plan, kind, before.cols, kernel) && rows_mapped(
            provider.process,
            kernel,
            before,
            after,
        );
    let k2 = choose|kernel: K| #[trigger]
        plans(provider.plan, kind, before.cols, kernel) && rows_mapped(
            provider.process,
            kernel,
            before,
            other,
        );
    assert forall|i: int| 0 <= i < before.rows() implies after.lines[i] == other.lines[i] by {
        assert(before.row(i).len() == before.cols);
        assert(kernel_maps(provider.process, k1, before.row(i), after.row(i)));
        assert(kernel_maps(provider.process, k2, before.row(i), other.row(i)));
    }
    assert(after.lines =~= other.lines);
}

/// A pass along the columns with a deterministic provider has one result.
pub proof fn lemma_cols_transformed_unique<
    T,
    K,
    Pl: Fn(TransformKind, usize) -> K,
    Pr: Fn(&K, Vec<T>) -> Vec<T>,
>(provider: Provider<Pl, Pr>, kind: TransformKind, before: Grid<T>, after: Grid<T>, other: Grid<T>)
    requires
        before.wf(),
        provider_deterministic::<T, K, Pl, Pr>(provider, kind, before.rows()),
        cols_transformed(provider, kind, before, after),
        cols_transformed(provider, kind, before, other),
    ensures
        after == other,
{
    let k1 = choose|kernel: K| #[trigger]
        plans(provider.plan, kind, before.rows(), kernel) && cols_mapped(
            provider.process,
            kernel,
            before,
            after,
        );
    let k2 = choose|kernel: K| #[trigger]
        plans(provider.plan, kind, before.rows(), kernel) && cols_mapped(
            provider.process,
            kernel,
            before,
            other,
        );
    assert forall|i: int| 0 <= i < before.rows() implies after.lines[i] =~= other.lines[i] by {
        assert forall|j: int| 0 <= j < before.cols implies after.lines[i][j]
            == other.lines[i][j] by {
            assert(kernel_maps(provider.process, k1, before.col(j), after.col(j)));
            assert(kernel_maps(provider.process, k2, before.col(j), other.col(j)));
            assert(after.col(j)[i] == after.lines[i][j]);
            assert(other.col(j)[i] == other.lines[i][j]);
        }
    }
    assert(after.lines =~= other.lines);
}

/// A pass with a deterministic provider has one result.
proof fn lemma_pass_unique<T, K, Pl: Fn(TransformKind, usize) -> K, Pr: Fn(&K, Vec<T>) -> Vec<T>>(
    provider: Provider<Pl, Pr>,
    kind: TransformKind,
    along_columns: bool,
    before: Grid<T>,
    after: Grid<T>,
    other: Grid<T>,
)
    requires
        before.wf(),
        provider_deterministic::<T, K, Pl, Pr>(
            provider,
            kind,
            pass_len(along_columns, before.rows(), before.cols),
        ),
        pass(provider, kind, along_columns, before, after),
        pass(provider, kind, along_columns, before, other),
    ensures
        after == other,
{
    if along_columns {
        lemma_cols_transformed_unique(provider, kind, before, after, other);
    } else {
        lemma_rows_transformed_unique(provider, kind, before, after, other);
    }
}

/// The final multiplication with deterministic arithmetic has one result.
pub proof fn lemma_scaled_unique<T, F, C: Fn(Ratio) -> Option<F>, M: Fn(T, F) -> T>(
    arithmetic: Arithmetic<F, C, M>,
    ratio: Ratio,
    before: Grid<T>,
    after: Grid<T>,
    other: Grid<T>,
)
    requires
        arithmetic_deterministic::<T, F, C, M>(arithmetic, ratio),
        scaled(arithmetic, ratio, before, after),
        scaled(arithmetic, ratio, before, other),
    ensures
        after == other,
{
    let f1 = choose|factor: F| #[trigger]
        factor_of(arithmetic.cast, arithmetic.one, ratio, factor) && cells_multiplied(
            arithmetic.times,
            factor,
            before,
            after,
        );
    let f2 = choose|factor: F| #[trigger]
        factor_of(arithmetic.cast, arithmetic.one, ratio, factor) && cells_multiplied(
            arithmetic.times,
            factor,
            before,
            other,
        );
    assert(f1 == f2);
    assert forall|i: int| 0 <= i < before.rows() implies after.lines[i] =~= other.lines[i] by {
        assert forall|j: int| 0 <= j < before.cols implies after.lines[i][j]
            == other.lines[i][j] by {
            assert(call_ensures(arithmetic.times, (before.at(i, j), f1), after.at(i, j)));
            assert(call_ensures(arithmetic.times, (before.at(i, j), f1), other.at(i, j)));
        }
    }
    assert(after.lines =~= other.lines);
}

/// A transform is a function of its input: with a provider whose kernels
/// are deterministic and with deterministic arithmetic, a matrix has one
/// transform of each kind.
pub proof fn lemma_transformed_unique<
    T,
    K,
    Pl: Fn(TransformKind, usize) -> K,
    Pr: Fn(&K, Vec<T>) -> Vec<T>,
    F,
    C: Fn(Ratio) -> Option<F>,
    M: Fn(T, F) -> T,
>(
    provider: Provider<Pl, Pr>,
    arithmetic: Arithmetic<F, C, M>,
    kind: TransformKind,
    input: Grid<T>,
    output: Grid<T>,
    other: Grid<T>,
)
    requires
        input.wf(),
        deterministic::<T, K, Pl, Pr, F, C, M>(
            provider,
            arithmetic,
            kind,
            input.rows(),
            input.cols,
        ),
        transformed(provider, arithmetic, kind, input, output),
        transformed(provider, arithmetic, kind, input, other),
    ensures
        output == other,
{
    let plan = plan_of(kind, input.rows(), input.cols);
    let (a1, a2) = choose|first: Grid<T>, second: Grid<T>| #[trigger]
        stages(provider, arithmetic, kind, plan, input, first, second, output);
    let (b1, b2) = choose|first: Grid<T>, second: Grid<T>| #[trigger]
        stages(provider, arithmetic, kind, plan, input, first, second, other);
    lemma_pass_unique(provider, kind, plan.columns_first, input, a1, b1);
    lemma_pass_shape(provider, kind, plan.columns_first, input, a1);
    if plan.second_pass {
        lemma_pass_unique(provider, kind, !plan.columns_first, a1, a2, b2);
    }
    if plan.normalization is Some {
        lemma_scaled_unique(arithmetic, plan.normalization->Some_0, a2, output, other);
    }
}

} // verus!
