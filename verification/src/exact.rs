//! Laws that hold where the kernels and the arithmetic are exact: a
//! transform with linear kernels and linear arithmetic is linear, and the
//! passes of the inverse Fourier transform undo the passes of the forward
//! one where every inverse kernel undoes the forward kernel of its length.

use crate::engine::{Arithmetic, Provider};
use crate::grid::{lemma_mixed_lines, mixed, Grid};
use crate::kind::{plan_of, Ratio, TransformKind};
use crate::relation::{
    cells_multiplied, cols_mapped, cols_transformed, factor_of, kernel_maps, pass, pass_len,
    passes, plans, rows_mapped, rows_transformed, scaled, stages, transformed,
};
use vstd::prelude::*;

verus! {

/// The kernels that the provider plans for `kind` and for buffers of `len`
/// cells are linear with respect to `mix`: what a kernel makes of two
/// buffers mixed cell by cell is the mix, cell by cell, of what kernels make
/// of the two buffers.
pub open spec fn provider_linear<
    T,
    K,
    Pl: Fn(TransformKind, usize) -> K,
    Pr: Fn(&K, Vec<T>) -> Vec<T>,
>(provider: Provider<Pl, Pr>, kind: TransformKind, len: nat, mix: spec_fn(T, T) -> T) -> bool {
    forall|
        for_one: K,
        for_other: K,
        for_both: K,
        one: Seq<T>,
        other: Seq<T>,
        of_one: Seq<T>,
        of_other: Seq<T>,
        of_both: Seq<T>,
    |
        {
            &&& #[trigger] plans(provider.plan, kind, len, for_one)
            &&& #[trigger] plans(provider.plan, kind, len, for_other)
            &&& #[trigger] plans(provider.plan, kind, len, for_both)
            &&& one.len() == len
            &&& other.len() == len
            &&& #[trigger] kernel_maps(provider.process, for_one, one, of_one)
            &&& #[trigger] kernel_maps(provider.process, for_other, other, of_other)
            &&& #[trigger] kernel_maps(provider.process, for_both, mixed(one, other, mix), of_both)
        } ==> of_both == mixed(of_one, of_other, mix)
}

/// The final multiplication by `ratio` is linear with respect to `mix`: the
/// constant is always cast to the same factor, and the mix of two cells
/// times a factor is the mix of the two cells times that factor.
pub open spec fn arithmetic_linear<T, F, C: Fn(Ratio) -> Option<F>, M: Fn(T, F) -> T>(
    arithmetic: Arithmetic<F, C, M>,
    ratio: Ratio,
    mix: spec_fn(T, T) -> T,
) -> bool {
    &&& forall|made: Option<F>, again: Option<F>|
        {
            &&& #[trigger] call_ensures(arithmetic.cast, (ratio,), made)
            &&& #[trigger] call_ensures(arithmetic.cast, (ratio,), again)
        } ==> made == again
    &&& forall|factor: F, one: T, other: T, of_one: T, of_other: T, of_both: T|
        {
            &&& #[trigger] call_ensures(arithmetic.times, (one, factor), of_one)
            &&& #[trigger] call_ensures(arithmetic.times, (other, factor), of_other)
            &&& #[trigger] call_ensures(arithmetic.times, (mix(one, other), factor), of_both)
        } ==> of_both == mix(of_one, of_other)
}

/// The provider and the arithmetic are linear with respect to `mix` in all
/// that a transform of kind `kind` asks of them on a matrix of `rows x cols`
/// cells.
pub open spec fn linear<
    T,
    K,
    Pl: Fn(TransformKind, usize) -> K,
    Pr: Fn(&K, Vec<T>) -> Vec<T>,
    F,
    C: Fn(Ratio) -> Option<F>,
    M: Fn(T, F) -> T,
>(
    provider: Provider<Pl, Pr>,
    arithmetic: Arithmetic<F, C, M>,
    kind: TransformKind,
    rows: nat,
    cols: nat,
    mix: spec_fn(T, T) -> T,
) -> bool {
    let plan = plan_of(kind, rows, cols);
    &&& provider_linear::<T, K, Pl, Pr>(
        provider,
        kind,
        pass_len(plan.columns_first, rows, cols),
        mix,
    )
    &&& plan.second_pass ==> provider_linear::<T, K, Pl, Pr>(
        provider,
        kind,
        pass_len(!plan.columns_first, rows, cols),
        mix,
    )
    &&& match plan.normalization {
        Some(ratio) => arithmetic_linear::<T, F, C, M>(arithmetic, ratio, mix),
        None => true,
    }
}

/// A pass along the rows with linear kernels is linear.
pub proof fn lemma_rows_transformed_linear<
    T,
    K,
    Pl: Fn(TransformKind, usize) -> K,
    Pr: Fn(&K, Vec<T>) -> Vec<T>,
>(
    provider: Provider<Pl, Pr>,
    kind: TransformKind,
    mix: spec_fn(T, T) -> T,
    one: Grid<T>,
    other: Grid<T>,
    of_one: Grid<T>,
    of_other: Grid<T>,
    of_both: Grid<T>,
)
    requires
        one.wf(),
        other.wf(),
        other.same_shape(one),
        provider_linear::<T, K, Pl, Pr>(provider, kind, one.cols, mix),
        rows_transformed(provider, kind, one, of_one),
        rows_transformed(provider, kind, other, of_other),
        rows_transformed(provider, kind, one.mixed_with(other, mix), of_both),
    ensures
        of_both == of_one.mixed_with(of_other, mix),
{
    let both = one.mixed_with(other, mix);
    lemma_mixed_lines(one, other, mix);
    let k1 = choose|kernel: K| #[trigger]
        plans(provider.plan, kind, one.cols, kernel) && rows_mapped(
            provider.process,
            kernel,
            one,
            of_one,
        );
    let k2 = choose|kernel: K| #[trigger]
        plans(provider.plan, kind, other.cols, kernel) && rows_mapped(
            provider.process,
            kernel,
            other,
            of_other,
        );
    let k3 = choose|kernel: K| #[trigger]
        plans(provider.plan, kind, both.cols, kernel) && rows_mapped(
            provider.process,
            kernel,
            both,
            of_both,
        );
    let expected = of_one.mixed_with(of_other, mix);
    assert forall|i: int| 0 <= i < one.rows() implies of_both.lines[i] == expected.lines[i] by {
        assert(one.row(i).len() == one.cols);
        assert(other.row(i).len() == one.cols);
        assert(kernel_maps(provider.process, k1, one.row(i), of_one.row(i)));
        assert(kernel_maps(provider.process, k2, other.row(i), of_other.row(i)));
        assert(kernel_maps(provider.process, k3, both.row(i), of_both.row(i)));
        assert(both.row(i) == mixed(one.row(i), other.row(i), mix));
        assert(of_both.row(i) == mixed(of_one.row(i), of_other.row(i), mix));
    }
    assert(of_both.lines =~= expected.lines);
}

/// A pass along the columns with linear kernels is linear.
pub proof fn lemma_cols_transformed_linear<
    T,
    K,
    Pl: Fn(TransformKind, usize) -> K,
    Pr: Fn(&K, Vec<T>) -> Vec<T>,
>(
    provider: Provider<Pl, Pr>,
    kind: TransformKind,
    mix: spec_fn(T, T) -> T,
    one: Grid<T>,
    other: Grid<T>,
    of_one: Grid<T>,
    of_other: Grid<T>,
    of_both: Grid<T>,
)
    requires
        one.wf(),
        other.wf(),
        other.same_shape(one),
        provider_linear::<T, K, Pl, Pr>(provider, kind, one.rows(), mix),
        cols_transformed(provider, kind, one, of_one),
        cols_transformed(provider, kind, other, of_other),
        cols_transformed(provider, kind, one.mixed_with(other, mix), of_both),
    ensures
        of_both == of_one.mixed_with(of_other, mix),
{
    let both = one.mixed_with(other, mix);
    lemma_mixed_lines(one, other, mix);
    let k1 = choose|kernel: K| #[trigger]
        plans(provider.plan, kind, one.rows(), kernel) && cols_mapped(
            provider.process,
            kernel,
            one,
            of_one,
        );
    let k2 = choose|kernel: K| #[trigger]
        plans(provider.plan, kind, other.rows(), kernel) && cols_mapped(
            provider.process,
            kernel,
            other,
            of_other,
        );
    let k3 = choose|kernel: K| #[trigger]
        plans(provider.plan, kind, both.rows(), kernel) && cols_mapped(
            provider.process,
            kernel,
            both,
            of_both,
        );
    let expected = of_one.mixed_with(of_other, mix);
    assert forall|i: int| 0 <= i < one.rows() implies of_both.lines[i] =~= expected.lines[i] by {
        assert forall|j: int| 0 <= j < one.cols implies of_both.lines[i][j]
            == expected.lines[i][j] by {
            assert(kernel_maps(provider.process, k1, one.col(j), of_one.col(j)));
            assert(kernel_maps(provider.process, k2, other.col(j), of_other.col(j)));
            assert(kernel_maps(provider.process, k3, both.col(j), of_both.col(j)));
            assert(both.col(j) == mixed(one.col(j), other.col(j), mix));
            assert(of_both.col(j) == mixed(of_one.col(j), of_other.col(j), mix));
            assert(of_both.col(j)[i] == of_both.lines[i][j]);
            assert(of_one.col(j)[i] == of_one.lines[i][j]);
            assert(of_other.col(j)[i] == of_other.lines[i][j]);
        }
    }
    assert(of_both.lines =~= expected.lines);
}

/// A pass along either axis with linear kernels is linear.
proof fn lemma_pass_linear<T, K, Pl: Fn(TransformKind, usize) -> K, Pr: Fn(&K, Vec<T>) -> Vec<T>>(
    provider: Provider<Pl, Pr>,
    kind: TransformKind,
    along_columns: bool,
    mix: spec_fn(T, T) -> T,
    one: Grid<T>,
    other: Grid<T>,
    of_one: Grid<T>,
    of_other: Grid<T>,
    of_both: Grid<T>,
)
    requires
        one.wf(),
        other.wf(),
        other.same_shape(one),
        provider_linear::<T, K, Pl, Pr>(
            provider,
            kind,
            pass_len(along_columns, one.rows(), one.cols),
            mix,
        ),
        pass(provider, kind, along_columns, one, of_one),
        pass(provider, kind, along_columns, other, of_other),
        pass(provider, kind, along_columns, one.mixed_with(other, mix), of_both),
    ensures
        of_both == of_one.mixed_with(of_other, mix),
        of_one.wf(),
        of_other.wf(),
        of_one.same_shape(one),
        of_other.same_shape(one),
{
    if along_columns {
        lemma_cols_transformed_linear(provider, kind, mix, one, other, of_one, of_other, of_both);
        let k1 = choose|kernel: K| #[trigger]
            plans(provider.plan, kind, one.rows(), kernel) && cols_mapped(
                provider.process,
                kernel,
                one,
                of_one,
            );
        let k2 = choose|kernel: K| #[trigger]
            plans(provider.plan, kind, other.rows(), kernel) && cols_mapped(
                provider.process,
                kernel,
                other,
                of_other,
            );
    } else {
        lemma_rows_transformed_linear(provider, kind, mix, one, other, of_one, of_other, of_both);
        let k1 = choose|kernel: K| #[trigger]
            plans(provider.plan, kind, one.cols, kernel) && rows_mapped(
                provider.process,
                kernel,
                one,
                of_one,
            );
        let k2 = choose|kernel: K| #[trigger]
            plans(provider.plan, kind, other.cols, kernel) && rows_mapped(
                provider.process,
                kernel,
                other,
                of_other,
            );
    }
}

/// The final multiplication with linear arithmetic is linear.
pub proof fn lemma_scaled_linear<T, F, C: Fn(Ratio) -> Option<F>, M: Fn(T, F) -> T>(
    arithmetic: Arithmetic<F, C, M>,
    ratio: Ratio,
    mix: spec_fn(T, T) -> T,
    one: Grid<T>,
    other: Grid<T>,
    of_one: Grid<T>,
    of_other: Grid<T>,
    of_both: Grid<T>,
)
    requires
        one.wf(),
        other.wf(),
        other.same_shape(one),
        arithmetic_linear::<T, F, C, M>(arithmetic, ratio, mix),
        scaled(arithmetic, ratio, one, of_one),
        scaled(arithmetic, ratio, other, of_other),
        scaled(arithmetic, ratio, one.mixed_with(other, mix), of_both),
    ensures
        of_both == of_one.mixed_with(of_other, mix),
{
    let both = one.mixed_with(other, mix);
    let f1 = choose|factor: F| #[trigger]
        factor_of(arithmetic.cast, arithmetic.one, ratio, factor) && cells_multiplied(
            arithmetic.times,
            factor,
            one,
            of_one,
        );
    let f2 = choose|factor: F| #[trigger]
        factor_of(arithmetic.cast, arithmetic.one, ratio, factor) && cells_multiplied(
            arithmetic.times,
            factor,
            other,
            of_other,
        );
    let f3 = choose|factor: F| #[trigger]
        factor_of(arithmetic.cast, arithmetic.one, ratio, factor) && cells_multiplied(
            arithmetic.times,
            factor,
            both,
            of_both,
        );
    assert(f1 == f2 && f2 == f3);
    let expected = of_one.mixed_with(of_other, mix);
    assert forall|i: int| 0 <= i < one.rows() implies of_both.lines[i] =~= expected.lines[i] by {
        assert forall|j: int| 0 <= j < one.cols implies of_both.lines[i][j]
            == expected.lines[i][j] by {
            assert(call_ensures(arithmetic.times, (one.at(i, j), f1), of_one.at(i, j)));
            assert(call_ensures(arithmetic.times, (other.at(i, j), f1), of_other.at(i, j)));
            assert(call_ensures(arithmetic.times, (both.at(i, j), f1), of_both.at(i, j)));
            assert(both.at(i, j) == mix(one.at(i, j), other.at(i, j)));
        }
    }
    assert(of_both.lines =~= expected.lines);
}

/// A transform with linear kernels and linear arithmetic is linear: the
/// transform of two matrices mixed cell by cell is the mix, cell by cell, of
/// their transforms. With the mix of `x` and `y` being `a * x + b * y`, this
/// says that the transform of `a * M1 + b * M2` is `a` times the transform of
/// `M1` plus `b` times the transform of `M2`.
pub proof fn lemma_transformed_linear<
    T,
    K,
    Pl: Fn(TransformKind, usize) -> K,
    Pr: Fn(&K, Vec<T>) -> Vec<T>,
    F,
    C: Fn(Ratio) -> Option<F>,
    M: Fn(T, F) -> T,
>(
    provider: Provider<Pl, Pr>,
    arithmetic: Arithmetic<F, C, M>,
    kind: TransformKind,
    mix: spec_fn(T, T) -> T,
    one: Grid<T>,
    other: Grid<T>,
    of_one: Grid<T>,
    of_other: Grid<T>,
    of_both: Grid<T>,
)
    requires
        one.wf(),
        other.wf(),
        other.same_shape(one),
        linear::<T, K, Pl, Pr, F, C, M>(provider, arithmetic, kind, one.rows(), one.cols, mix),
        transformed(provider, arithmetic, kind, one, of_one),
        transformed(provider, arithmetic, kind, other, of_other),
        transformed(provider, arithmetic, kind, one.mixed_with(other, mix), of_both),
    ensures
        of_both == of_one.mixed_with(of_other, mix),
{
    let both = one.mixed_with(other, mix);
    let plan = plan_of(kind, one.rows(), one.cols);
    lemma_mixed_lines(one, other, mix);
    let (a1, a2) = choose|first: Grid<T>, second: Grid<T>| #[trigger]
        stages(provider, arithmetic, kind, plan, one, first, second, of_one);
    let (b1, b2) = choose|first: Grid<T>, second: Grid<T>| #[trigger]
        stages(provider, arithmetic, kind, plan, other, first, second, of_other);
    let (c1, c2) = choose|first: Grid<T>, second: Grid<T>| #[trigger]
        stages(provider, arithmetic, kind, plan, both, first, second, of_both);
    lemma_pass_linear(provider, kind, plan.columns_first, mix, one, other, a1, b1, c1);
    if plan.second_pass {
        lemma_pass_linear(provider, kind, !plan.columns_first, mix, a1, b1, a2, b2, c2);
    }
    if plan.normalization is Some {
        let ratio = plan.normalization->Some_0;
        lemma_scaled_linear(arithmetic, ratio, mix, a2, b2, of_one, of_other, of_both);
    }
}

/// Every kernel that the provider plans for the inverse Fourier transform
/// and for buffers of `len` cells undoes every kernel that it plans for the
/// forward Fourier transform and for buffers of that length.
pub open spec fn provider_undoes<
    T,
    K,
    Pl: Fn(TransformKind, usize) -> K,
    Pr: Fn(&K, Vec<T>) -> Vec<T>,
>(provider: Provider<Pl, Pr>, len: nat) -> bool {
    forall|forward: K, inverse: K, input: Seq<T>, made: Seq<T>, back: Seq<T>|
        {
            &&& #[trigger] plans(provider.plan, TransformKind::FourierForward, len, forward)
            &&& #[trigger] plans(provider.plan, TransformKind::FourierInverse, len, inverse)
            &&& input.len() == len
            &&& #[trigger] kernel_maps(provider.process, forward, input, made)
            &&& #[trigger] kernel_maps(provider.process, inverse, made, back)
        } ==> back == input
}

/// The final multiplication apart, the inverse Fourier transform undoes the
/// forward one: where every inverse kernel undoes the forward kernel of its
/// length, the passes of the inverse plan, run on what the passes of the
/// forward plan made of a matrix, give the matrix back. The inverse plan
/// runs its passes in the opposite order for this. The matrix has at least
/// one row and one column, and either both dimensions are one or neither is:
/// with a single row or a single column, one plan leaves a pass out that the
/// other one runs.
pub proof fn lemma_passes_round_trip<
    T,
    K,
    Pl: Fn(TransformKind, usize) -> K,
    Pr: Fn(&K, Vec<T>) -> Vec<T>,
>(
    provider: Provider<Pl, Pr>,
    input: Grid<T>,
    forward_first: Grid<T>,
    spectrum: Grid<T>,
    inverse_first: Grid<T>,
    back: Grid<T>,
)
    requires
        input.wf(),
        input.rows() >= 1,
        input.cols >= 1,
        (input.rows() == 1) == (input.cols == 1),
        provider_undoes::<T, K, Pl, Pr>(provider, input.rows()),
        provider_undoes::<T, K, Pl, Pr>(provider, input.cols),
        passes(
            provider,
            TransformKind::FourierForward,
            plan_of(TransformKind::FourierForward, input.rows(), input.cols),
            input,
            forward_first,
            spectrum,
        ),
        passes(
            provider,
            TransformKind::FourierInverse,
            plan_of(TransformKind::FourierInverse, input.rows(), input.cols),
            spectrum,
            inverse_first,
            back,
        ),
    ensures
        back == input,
{
    let forward = TransformKind::FourierForward;
    let inverse = TransformKind::FourierInverse;
    let by_rows = choose|kernel: K| #[trigger]
        plans(provider.plan, forward, input.cols, kernel) && rows_mapped(
            provider.process,
            kernel,
            input,
            forward_first,
        );
    let undo_cols = choose|kernel: K| #[trigger]
        plans(provider.plan, inverse, spectrum.rows(), kernel) && cols_mapped(
            provider.process,
            kernel,
            spectrum,
            inverse_first,
        );
    if input.cols == 1 {
        // one row, one column: the only row is the only column
        assert(kernel_maps(provider.process, by_rows, input.row(0), spectrum.row(0)));
        assert(kernel_maps(provider.process, undo_cols, spectrum.col(0), back.col(0)));
        assert(spectrum.col(0) =~= spectrum.row(0));
        assert(input.row(0).len() == 1);
        assert(back.col(0) == input.row(0));
        assert(back.lines[0] =~= input.lines[0]) by {
            assert(back.col(0)[0] == back.lines[0][0]);
        }
        assert(back.lines =~= input.lines);
    } else {
        let by_cols = choose|kernel: K| #[trigger]
            plans(provider.plan, forward, forward_first.rows(), kernel) && cols_mapped(
                provider.process,
                kernel,
                forward_first,
                spectrum,
            );
        let undo_rows = choose|kernel: K| #[trigger]
            plans(provider.plan, inverse, inverse_first.cols, kernel) && rows_mapped(
                provider.process,
                kernel,
                inverse_first,
                back,
            );
        assert forall|i: int| 0 <= i < input.rows() implies inverse_first.lines[i]
            =~= forward_first.lines[i] by {
            assert forall|j: int| 0 <= j < input.cols implies inverse_first.lines[i][j]
                == forward_first.lines[i][j] by {
                assert(kernel_maps(
                    provider.process,
                    by_cols,
                    forward_first.col(j),
                    spectrum.col(j),
                ));
                assert(kernel_maps(
                    provider.process,
                    undo_cols,
                    spectrum.col(j),
                    inverse_first.col(j),
                ));
                assert(inverse_first.col(j) == forward_first.col(j));
                assert(inverse_first.col(j)[i] == inverse_first.lines[i][j]);
                assert(forward_first.col(j)[i] == forward_first.lines[i][j]);
            }
        }
        assert(inverse_first.lines =~= forward_first.lines);
        assert(inverse_first == forward_first);
        assert forall|i: int| 0 <= i < input.rows() implies back.lines[i] == input.lines[i] by {
            assert(input.row(i).len() == input.cols);
            assert(kernel_maps(provider.process, by_rows, input.row(i), forward_first.row(i)));
            assert(kernel_maps(provider.process, undo_rows, inverse_first.row(i), back.row(i)));
        }
        assert(back.lines =~= input.lines);
    }
}

} // verus!
