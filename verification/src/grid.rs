//! The mathematical model of a dense matrix, and the facts about it that the
//! rest of the crate builds on.

use vstd::prelude::*;

verus! {

/// A matrix as a mathematical value: `lines[i][j]` is the cell in row `i` and
/// column `j`. The number of columns is kept beside the rows so that a matrix
/// without rows still has a width.
pub struct Grid<T> {
    pub cols: nat,
    pub lines: Seq<Seq<T>>,
}

impl<T> Grid<T> {
    /// The number of rows.
    pub open spec fn rows(self) -> nat {
        self.lines.len()
    }

    /// Every row has exactly `cols` cells.
    pub open spec fn wf(self) -> bool {
        forall|i: int| 0 <= i < self.lines.len() ==> (#[trigger] self.lines[i]).len() == self.cols
    }

    /// The cell in row `i`, column `j`.
    pub open spec fn at(self, i: int, j: int) -> T {
        self.lines[i][j]
    }

    /// Row `i`, left to right.
    pub open spec fn row(self, i: int) -> Seq<T> {
        self.lines[i]
    }

    /// Column `j`, top to bottom.
    pub open spec fn col(self, j: int) -> Seq<T> {
        Seq::new(self.rows(), |i: int| self.lines[i][j])
    }

    /// Both matrices have the same number of rows and of columns.
    pub open spec fn same_shape(self, other: Grid<T>) -> bool {
        self.rows() == other.rows() && self.cols == other.cols
    }

    /// The matrix mirrored at its main diagonal: row `j` of the result is
    /// column `j` of `self`.
    pub open spec fn transposed(self) -> Grid<T> {
        Grid { cols: self.rows(), lines: Seq::new(self.cols, |j: int| self.col(j)) }
    }
}

/// The buffer whose cell `k` is `mix` of the cells `k` of the two buffers.
pub open spec fn mixed<T>(one: Seq<T>, other: Seq<T>, mix: spec_fn(T, T) -> T) -> Seq<T> {
    Seq::new(one.len(), |k: int| mix(one[k], other[k]))
}

impl<T> Grid<T> {
    /// The matrix whose cell `(i, j)` is `mix` of the cells `(i, j)` of the
    /// two matrices.
    pub open spec fn mixed_with(self, other: Grid<T>, mix: spec_fn(T, T) -> T) -> Grid<T> {
        Grid {
            cols: self.cols,
            lines: Seq::new(self.rows(), |i: int| mixed(self.lines[i], other.lines[i], mix)),
        }
    }
}

/// Mixing keeps the shape, and the rows and the columns of the mixed matrix
/// are the mixed rows and columns of the two matrices.
pub proof fn lemma_mixed_lines<T>(one: Grid<T>, other: Grid<T>, mix: spec_fn(T, T) -> T)
    requires
        one.wf(),
        other.wf(),
        other.same_shape(one),
    ensures
        one.mixed_with(other, mix).wf(),
        one.mixed_with(other, mix).same_shape(one),
        forall|i: int|
            0 <= i < one.rows() ==> #[trigger] one.mixed_with(other, mix).row(i) == mixed(
                one.row(i),
                other.row(i),
                mix,
            ),
        forall|j: int|
            0 <= j < one.cols ==> #[trigger] one.mixed_with(other, mix).col(j) == mixed(
                one.col(j),
                other.col(j),
                mix,
            ),
{
    let both = one.mixed_with(other, mix);
    assert forall|j: int| 0 <= j < one.cols implies #[trigger] both.col(j) == mixed(
        one.col(j),
        other.col(j),
        mix,
    ) by {
        assert(both.col(j) =~= mixed(one.col(j), other.col(j), mix));
    }
}

/// Transposing keeps a matrix well formed and swaps its two dimensions.
pub proof fn lemma_transposed_shape<T>(g: Grid<T>)
    ensures
        g.transposed().wf(),
        g.transposed().rows() == g.cols,
        g.transposed().cols == g.rows(),
{
}

/// The rows of the transposed matrix are the columns of the matrix, and its
/// columns are the rows.
pub proof fn lemma_transposed_lines<T>(g: Grid<T>)
    requires
        g.wf(),
    ensures
        forall|j: int| 0 <= j < g.cols ==> #[trigger] g.transposed().row(j) == g.col(j),
        forall|i: int| 0 <= i < g.rows() ==> #[trigger] g.transposed().col(i) == g.row(i),
{
    let t = g.transposed();
    assert forall|i: int| 0 <= i < g.rows() implies #[trigger] t.col(i) == g.row(i) by {
        assert(t.col(i) =~= g.row(i));
    }
}

/// Transposing twice gives the matrix back.
pub proof fn lemma_transposed_twice<T>(g: Grid<T>)
    requires
        g.wf(),
    ensures
        g.transposed().transposed() == g,
{
    let t = g.transposed();
    let u = t.transposed();
    lemma_transposed_lines(g);
    assert(u.lines.len() == g.lines.len());
    assert forall|i: int| 0 <= i < g.lines.len() implies u.lines[i] == g.lines[i] by {
        assert(u.lines[i] == t.col(i));
        assert(t.col(i) == g.row(i));
    }
    assert(u.lines =~= g.lines);
}

} // verus!
