//! What it means for one matrix to come from another by the passes and the
//! final multiplication of a transform, stated over the functions that the
//! caller hands in.

use crate::engine::{Arithmetic, Provider};
use crate::grid::Grid;
use crate::kind::{plan_of, Plan, Ratio, TransformKind};
use vstd::prelude::*;

verus! {

/// Running `kernel` on the buffer `input` may give `output`.
pub open spec fn kernel_maps<T, K, Pr: Fn(&K, Vec<T>) -> Vec<T>>(
    process: Pr,
    kernel: K,
    input: Seq<T>,
    output: Seq<T>,
) -> bool {
    exists|given: Vec<T>, made: Vec<T>|
        given@ == input && made@ == output && #[trigger] call_ensures(
            process,
            (&kernel, given),
            made,
        )
}

/// Planning a kernel of kind `kind` for buffers of `len` cells may give
/// `kernel`.
pub open spec fn plans<K, Pl: Fn(TransformKind, usize) -> K>(
    plan: Pl,
    kind: TransformKind,
    len: nat,
    kernel: K,
) -> bool {
    len <= usize::MAX && call_ensures(plan, (kind, len as usize), kernel)
}

/// A kernel of kind `kind` for buffers of `len` cells can be planned, and
/// whatever kernel that gives can be run on every buffer of `len` cells and
/// gives back a buffer of `len` cells.
pub open spec fn provider_serves<
    T,
    K,
    Pl: Fn(TransformKind, usize) -> K,
    Pr: Fn(&K, Vec<T>) -> Vec<T>,
>(
    provider: Provider<Pl, Pr>,
    kind: TransformKind,
    len: nat,
) -> bool {
    &&& len <= usize::MAX ==> call_requires(provider.plan, (kind, len as usize))
    &&& forall|kernel: K| #[trigger]
        plans(provider.plan, kind, len, kernel) ==> {
            &&& forall|given: Vec<T>|
                given@.len() == len ==> call_requires(provider.process, (&kernel, given))
            &&& forall|given: Vec<T>, made: Vec<T>|
                given@.len() == len && call_ensures(provider.process, (&kernel, given), made)
                    ==> made@.len() == len
        }
}

/// `after` has the shape of `before`, and each of its rows is what `kernel`
/// made of the same row of `before`.
pub open spec fn rows_mapped<T, K, Pr: Fn(&K, Vec<T>) -> Vec<T>>(
    process: Pr,
    kernel: K,
    before: Grid<T>,
    after: Grid<T>,
) -> bool {
    &&& after.wf()
    &&& after.same_shape(before)
    &&& forall|i: int|
        0 <= i < before.rows() ==> #[trigger] kernel_maps(
            process,
            kernel,
            before.row(i),
            after.row(i),
        )
}

/// `after` comes from `before` by a pass along the rows: one kernel is
/// planned for buffers as long as a row, and each row of `after` is what that
/// kernel made of the same row of `before`.
pub open spec fn rows_transformed<
    T,
    K,
    Pl: Fn(TransformKind, usize) -> K,
    Pr: Fn(&K, Vec<T>) -> Vec<T>,
>(
    provider: Provider<Pl, Pr>,
    kind: TransformKind,
    before: Grid<T>,
    after: Grid<T>,
) -> bool {
    exists|kernel: K| #[trigger]
        plans(provider.plan, kind, before.cols, kernel) && rows_mapped(
            provider.process,
            kernel,
            before,
            after,
        )
}

/// `after` has the shape of `before`, and each of its columns is what
/// `kernel` made of the same column of `before`.
pub open spec fn cols_mapped<T, K, Pr: Fn(&K, Vec<T>) -> Vec<T>>(
    process: Pr,
    kernel: K,
    before: Grid<T>,
    after: Grid<T>,
) -> bool {
    &&& after.wf()
    &&& after.same_shape(before)
    &&& forall|j: int|
        0 <= j < before.cols ==> #[trigger] kernel_maps(
            process,
            kernel,
            before.col(j),
            after.col(j),
        )
}

/// `after` comes from `before` by a pass along the columns: one kernel is
/// planned for buffers as long as a column, and each column of `after` is
/// what that kernel made of the same column of `before`.
pub open spec fn cols_transformed<
    T,
    K,
    Pl: Fn(TransformKind, usize) -> K,
    Pr: Fn(&K, Vec<T>) -> Vec<T>,
>(
    provider: Provider<Pl, Pr>,
    kind: TransformKind,
    before: Grid<T>,
    after: Grid<T>,
) -> bool {
    exists|kernel: K| #[trigger]
        plans(provider.plan, kind, before.rows(), kernel) && cols_mapped(
            provider.process,
            kernel,
            before,
            after,
        )
}

/// `factor` is what the constant `ratio` becomes in the factor's type: what
/// `cast` made of it, or `one` where `cast` failed.
pub open spec fn factor_of<F, C: Fn(Ratio) -> Option<F>>(
    cast: C,
    one: F,
    ratio: Ratio,
    factor: F,
) -> bool {
    exists|made: Option<F>| #[trigger]
        call_ensures(cast, (ratio,), made) && factor == (match made {
            Some(f) => f,
            None => one,
        })
}

/// `after` has the shape of `before`, and each of its cells is what `times`
/// made of the same cell of `before` and of `factor`.
pub open spec fn cells_multiplied<T, F, M: Fn(T, F) -> T>(
    times: M,
    factor: F,
    before: Grid<T>,
    after: Grid<T>,
) -> bool {
    &&& after.wf()
    &&& after.same_shape(before)
    &&& forall|i: int, j: int|
        0 <= i < before.rows() && 0 <= j < before.cols ==> call_ensures(
            times,
            (before.at(i, j), factor),
            #[trigger] after.at(i, j),
        )
}

/// `after` comes from `before` by the final multiplication: the constant is
/// cast once, with `one` in its place where the cast fails, and every cell is
/// multiplied by that factor.
pub open spec fn scaled<T, F, C: Fn(Ratio) -> Option<F>, M: Fn(T, F) -> T>(
    arithmetic: Arithmetic<F, C, M>,
    ratio: Ratio,
    before: Grid<T>,
    after: Grid<T>,
) -> bool {
    exists|factor: F| #[trigger]
        factor_of(arithmetic.cast, arithmetic.one, ratio, factor) && cells_multiplied(
            arithmetic.times,
            factor,
            before,
            after,
        )
}

/// The arithmetic can do the final multiplication by `ratio`: the constant
/// can be cast, and every cell can be multiplied by the factor that it
/// becomes.
pub open spec fn arithmetic_serves<T, F, C: Fn(Ratio) -> Option<F>, M: Fn(T, F) -> T>(
    arithmetic: Arithmetic<F, C, M>,
    ratio: Ratio,
) -> bool {
    &&& call_requires(arithmetic.cast, (ratio,))
    &&& forall|cell: T, factor: F|
        factor_of(arithmetic.cast, arithmetic.one, ratio, factor) ==> #[trigger] call_requires(
            arithmetic.times,
            (cell, factor),
        )
}

/// `made` is what the cell becomes in the representation a transform works
/// on: what `lift` made of it, or `fallback` where `lift` failed.
pub open spec fn lifts_to<T, W, L: Fn(T) -> Option<W>>(
    lift: L,
    fallback: W,
    cell: T,
    made: W,
) -> bool {
    exists|converted: Option<W>| #[trigger]
        call_ensures(lift, (cell,), converted) && made == (match converted {
            Some(w) => w,
            None => fallback,
        })
}

/// Every cell of the matrix can be converted with `lift`.
pub open spec fn lift_serves<T, W, L: Fn(T) -> Option<W>>(lift: L, input: Grid<T>) -> bool {
    forall|i: int, j: int|
        0 <= i < input.rows() && 0 <= j < input.cols ==> call_requires(
            lift,
            (#[trigger] input.at(i, j),),
        )
}

/// `after` has the shape of `before`, and each of its cells is what the
/// same cell of `before` becomes by `lift`, with `fallback` where `lift`
/// fails.
pub open spec fn lifted<T, W, L: Fn(T) -> Option<W>>(
    lift: L,
    fallback: W,
    before: Grid<T>,
    after: Grid<W>,
) -> bool {
    &&& after.wf()
    &&& after.rows() == before.rows()
    &&& after.cols == before.cols
    &&& forall|i: int, j: int|
        0 <= i < before.rows() && 0 <= j < before.cols ==> #[trigger] lifts_to(
            lift,
            fallback,
            before.at(i, j),
            after.at(i, j),
        )
}

/// One pass of a plan: along the columns or along the rows.
pub open spec fn pass<
    T,
    K,
    Pl: Fn(TransformKind, usize) -> K,
    Pr: Fn(&K, Vec<T>) -> Vec<T>,
>(
    provider: Provider<Pl, Pr>,
    kind: TransformKind,
    along_columns: bool,
    before: Grid<T>,
    after: Grid<T>,
) -> bool {
    if along_columns {
        cols_transformed(provider, kind, before, after)
    } else {
        rows_transformed(provider, kind, before, after)
    }
}

/// The passes of a plan, with the matrix after each of them: `first` comes
/// from `input` by the first pass, and `second` from `first` by the second
/// pass along the other axis, or is `first` itself where the plan leaves that
/// pass out.
pub open spec fn passes<
    T,
    K,
    Pl: Fn(TransformKind, usize) -> K,
    Pr: Fn(&K, Vec<T>) -> Vec<T>,
>(
    provider: Provider<Pl, Pr>,
    kind: TransformKind,
    plan: Plan,
    input: Grid<T>,
    first: Grid<T>,
    second: Grid<T>,
) -> bool {
    &&& pass(provider, kind, plan.columns_first, input, first)
    &&& if plan.second_pass {
        pass(provider, kind, !plan.columns_first, first, second)
    } else {
        second == first
    }
}

/// The three stages of a plan, with the matrix after each of them: `first`
/// and `second` come from `input` by the passes of the plan, and `output`
/// comes from `second` by the final multiplication, or is `second` itself
/// where the plan has none.
pub open spec fn stages<
    T,
    K,
    Pl: Fn(TransformKind, usize) -> K,
    Pr: Fn(&K, Vec<T>) -> Vec<T>,
    F,
    C: Fn(Ratio) -> Option<F>,
    M: Fn(T, F) -> T,
>(
    provider: Provider<Pl, Pr>,
    arithmetic: Arithmetic<F, C, M>,
    kind: TransformKind,
    plan: Plan,
    input: Grid<T>,
    first: Grid<T>,
    second: Grid<T>,
    output: Grid<T>,
) -> bool {
    &&& passes(provider, kind, plan, input, first, second)
    &&& match plan.normalization {
        Some(ratio) => scaled(arithmetic, ratio, second, output),
        None => output == second,
    }
}

/// `output` is a transform of kind `kind` of `input`, made with the kernels
/// of `provider` and with `arithmetic`.
pub open spec fn transformed<
    T,
    K,
    Pl: Fn(TransformKind, usize) -> K,
    Pr: Fn(&K, Vec<T>) -> Vec<T>,
    F,
    C: Fn(Ratio) -> Option<F>,
    M: Fn(T, F) -> T,
>(
    provider: Provider<Pl, Pr>,
    arithmetic: Arithmetic<F, C, M>,
    kind: TransformKind,
    input: Grid<T>,
    output: Grid<T>,
) -> bool {
    exists|first: Grid<T>, second: Grid<T>| #[trigger]
        stages(
            provider,
            arithmetic,
            kind,
            plan_of(kind, input.rows(), input.cols),
            input,
            first,
            second,
            output,
        )
}

/// The length of the buffers of a pass over a matrix of `rows x cols`
/// cells: a column has `rows` cells, a row has `cols`.
pub open spec fn pass_len(along_columns: bool, rows: nat, cols: nat) -> nat {
    if along_columns {
        rows
    } else {
        cols
    }
}

/// The provider and the arithmetic can do all that a transform of kind
/// `kind` asks of them on a matrix of `rows x cols` cells: the provider
/// serves the buffers of the first pass and, where the plan has a second
/// pass, those of the second, and the arithmetic serves the constant of the
/// plan, where it has one.
pub open spec fn serves<
    T,
    K,
    Pl: Fn(TransformKind, usize) -> K,
    Pr: Fn(&K, Vec<T>) -> Vec<T>,
    F,
    C: Fn(Ratio) -> Option<F>,
    M: Fn(T, F) -> T,
>(
    provider: Provider<Pl, Pr>,
    arithmetic: Arithmetic<F, C, M>,
    kind: TransformKind,
    rows: nat,
    cols: nat,
) -> bool {
    let plan = plan_of(kind, rows, cols);
    &&& provider_serves::<T, K, Pl, Pr>(provider, kind, pass_len(plan.columns_first, rows, cols))
    &&& plan.second_pass ==> provider_serves::<T, K, Pl, Pr>(
        provider,
        kind,
        pass_len(!plan.columns_first, rows, cols),
    )
    &&& match plan.normalization {
        Some(ratio) => arithmetic_serves::<T, F, C, M>(arithmetic, ratio),
        None => true,
    }
}

} // verus!
