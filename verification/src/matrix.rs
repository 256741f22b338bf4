//! A dense, row-major matrix with a fixed shape.

use crate::grid::{lemma_transposed_twice, Grid};
use vstd::prelude::*;

verus! {

/// The cells of a vector of rows, as a sequence of sequences.
pub open spec fn lines_of<T>(rows: Seq<Vec<T>>) -> Seq<Seq<T>> {
    Seq::new(rows.len(), |i: int| rows[i]@)
}

/// All rows have the length of the first one.
pub open spec fn rectangular<T>(rows: Seq<Vec<T>>) -> bool {
    forall|i: int| 0 <= i < rows.len() ==> (#[trigger] rows[i]).len() == rows[0].len()
}

/// A matrix of `rows() x cols()` cells. Its shape never changes after
/// construction; either dimension may be zero.
#[derive(Clone, Debug, PartialEq, Eq, Hash)]
pub struct Matrix<T> {
    cols: usize,
    lines: Vec<Vec<T>>,
}

impl<T> View for Matrix<T> {
    type V = Grid<T>;

    closed spec fn view(&self) -> Grid<T> {
        Grid { cols: self.cols as nat, lines: lines_of(self.lines@) }
    }
}

impl<T> Matrix<T> {
    /// Every row holds `cols()` cells.
    pub open spec fn wf(&self) -> bool {
        self@.wf()
    }

    /// Builds a matrix from its rows. The rows must all have the same
    /// length, which becomes the number of columns (zero when there is no
    /// row); otherwise there is no such matrix.
    pub fn from_rows(rows: Vec<Vec<T>>) -> (m: Option<Matrix<T>>)
        ensures
            m is Some <==> rectangular(rows@),
            m matches Some(g) ==> {
                &&& g.wf()
                &&& g@.lines == lines_of(rows@)
                &&& g@.cols == (if rows.len() == 0 {
                    0
                } else {
                    rows[0].len() as int
                })
            },
    {
        let count = rows.len();
        if count == 0 {
            return Some(Matrix { cols: 0, lines: rows });
        }
        let cols = rows[0].len();
        let mut i: usize = 1;
        while i < count
            invariant
                1 <= i <= count,
                count == rows.len(),
                cols == rows[0].len(),
                forall|k: int| 0 <= k < i ==> (#[trigger] rows[k]).len() == cols,
            decreases count - i,
        {
            if rows[i].len() != cols {
                return None;
            }
            i += 1;
        }
        Some(Matrix { cols, lines: rows })
    }

    /// Builds a matrix from rows that are known to hold `cols` cells each.
    pub(crate) fn assemble(cols: usize, rows: Vec<Vec<T>>) -> (m: Matrix<T>)
        requires
            forall|i: int| 0 <= i < rows.len() ==> (#[trigger] rows[i]).len() == cols,
        ensures
            m.wf(),
            m@.cols == cols,
            m@.lines == lines_of(rows@),
    {
        Matrix { cols, lines: rows }
    }

    /// The number of rows.
    pub fn rows(&self) -> (n: usize)
        ensures
            n == self@.rows(),
    {
        self.lines.len()
    }

    /// The number of columns.
    pub fn cols(&self) -> (n: usize)
        ensures
            n == self@.cols,
    {
        self.cols
    }

    /// Hands the rows out, top to bottom.
    pub fn into_rows(self) -> (rows: Vec<Vec<T>>)
        ensures
            lines_of(rows@) == self@.lines,
    {
        self.lines
    }
}

impl<T: Copy> Matrix<T> {
    /// A matrix of the given shape with `value` in every cell.
    pub fn filled(rows: usize, cols: usize, value: T) -> (m: Matrix<T>)
        ensures
            m.wf(),
            m@.rows() == rows,
            m@.cols == cols,
            forall|i: int, j: int| 0 <= i < rows && 0 <= j < cols ==> m@.at(i, j) == value,
    {
        let mut lines: Vec<Vec<T>> = Vec::new();
        let mut i: usize = 0;
        while i < rows
            invariant
                i <= rows,
                lines.len() == i,
                forall|k: int| 0 <= k < i ==> (#[trigger] lines[k]).len() == cols,
                forall|k: int, j: int| 0 <= k < i && 0 <= j < cols ==> lines[k][j] == value,
            decreases rows - i,
        {
            let mut line: Vec<T> = Vec::new();
            let mut j: usize = 0;
            while j < cols
                invariant
                    j <= cols,
                    line.len() == j,
                    forall|l: int| 0 <= l < j ==> line[l] == value,
                decreases cols - j,
            {
                line.push(value);
                j += 1;
            }
            lines.push(line);
            i += 1;
        }
        Matrix { cols, lines }
    }

    /// Reads the cell in row `i`, column `j`.
    pub fn get(&self, i: usize, j: usize) -> (value: T)
        requires
            self.wf(),
            i < self@.rows(),
            j < self@.cols,
        ensures
            value == self@.at(i as int, j as int),
    {
        assert(self@.lines[i as int].len() == self.cols);
        self.lines[i][j]
    }

    /// Writes `value` into the cell in row `i`, column `j`; every other cell
    /// keeps its value.
    pub fn set(&mut self, i: usize, j: usize, value: T)
        requires
            old(self).wf(),
            i < old(self)@.rows(),
            j < old(self)@.cols,
        ensures
            final(self).wf(),
            final(self)@.cols == old(self)@.cols,
            final(self)@.lines == old(self)@.lines.update(
                i as int,
                old(self)@.lines[i as int].update(j as int, value),
            ),
    {
        let mut line = self.row(i);
        line.set(j, value);
        self.lines.set(i, line);
        assert(final(self)@.lines =~= old(self)@.lines.update(
            i as int,
            old(self)@.lines[i as int].update(j as int, value),
        ));
    }

    /// A copy of row `i`.
    pub fn row(&self, i: usize) -> (line: Vec<T>)
        requires
            self.wf(),
            i < self@.rows(),
        ensures
            line@ == self@.row(i as int),
    {
        let mut line: Vec<T> = Vec::new();
        let mut j: usize = 0;
        while j < self.cols
            invariant
                self.wf(),
                i < self@.rows(),
                j <= self.cols,
                line.len() == j,
                forall|l: int| 0 <= l < j ==> line[l] == self@.at(i as int, l),
            decreases self.cols - j,
        {
            assert(self@.lines[i as int].len() == self.cols);
            line.push(self.lines[i][j]);
            j += 1;
        }
        assert(line@ =~= self@.row(i as int));
        line
    }

    /// A copy of column `j`.
    pub fn column(&self, j: usize) -> (line: Vec<T>)
        requires
            self.wf(),
            j < self@.cols,
        ensures
            line@ == self@.col(j as int),
    {
        let mut line: Vec<T> = Vec::new();
        let mut i: usize = 0;
        while i < self.lines.len()
            invariant
                self.wf(),
                j < self@.cols,
                i <= self.lines.len(),
                line.len() == i,
                forall|k: int| 0 <= k < i ==> line[k] == self@.at(k, j as int),
            decreases self.lines.len() - i,
        {
            assert(self@.lines[i as int].len() == self.cols);
            line.push(self.lines[i][j]);
            i += 1;
        }
        assert(line@ =~= self@.col(j as int));
        line
    }

    /// The matrix mirrored at its main diagonal: row `j` of the result is
    /// column `j` of the matrix. Transposing the result gives the matrix back.
    pub fn transpose(&self) -> (t: Matrix<T>)
        requires
            self.wf(),
        ensures
            t.wf(),
            t@ == self@.transposed(),
            t@.transposed() == self@,
    {
        let rows = self.lines.len();
        let mut lines: Vec<Vec<T>> = Vec::new();
        let mut j: usize = 0;
        while j < self.cols
            invariant
                self.wf(),
                rows == self@.rows(),
                j <= self.cols,
                lines.len() == j,
                forall|l: int| 0 <= l < j ==> (#[trigger] lines[l])@ == self@.col(l),
            decreases self.cols - j,
        {
            let line = self.column(j);
            lines.push(line);
            j += 1;
        }
        let t = Matrix { cols: rows, lines };
        proof {
            assert(t@.lines =~= self@.transposed().lines);
            lemma_transposed_twice(self@);
        }
        t
    }
}

} // verus!
