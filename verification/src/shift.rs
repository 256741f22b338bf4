//! Spectrum centering: the circular rotation that moves the zero-frequency
//! cell of a transformed matrix from its corner to its middle.

use crate::grid::Grid;
use crate::matrix::Matrix;
use vstd::arithmetic::div_mod::lemma_fundamental_div_mod_converse;
use vstd::prelude::*;

verus! {

/// Where index `i` of an axis of length `n` goes: half the axis further,
/// wrapping round at the end.
pub open spec fn shift_target(i: int, n: int) -> int {
    (i + n / 2) % n
}

/// The index of an axis of length `n` whose content arrives at index `k`.
pub open spec fn shift_source(k: int, n: int) -> int {
    (k + (n - n / 2)) % n
}

impl<T> Grid<T> {
    /// The rows rotated downwards by half the number of rows.
    pub open spec fn rows_rolled(self) -> Grid<T> {
        Grid {
            cols: self.cols,
            lines: Seq::new(
                self.rows(),
                |k: int| self.lines[shift_source(k, self.rows() as int)],
            ),
        }
    }

    /// The columns rotated to the right by half the number of columns.
    pub open spec fn cols_rolled(self) -> Grid<T> {
        Grid {
            cols: self.cols,
            lines: Seq::new(
                self.rows(),
                |i: int|
                    Seq::new(
                        self.cols,
                        |l: int| self.lines[i][shift_source(l, self.cols as int)],
                    ),
            ),
        }
    }

    /// The centred matrix: first the rows are rotated, then the columns of
    /// what that gave.
    pub open spec fn shifted(self) -> Grid<T> {
        self.rows_rolled().cols_rolled()
    }
}

/// A number below twice the modulus is reduced by at most one subtraction.
proof fn lemma_wrap(x: int, n: int)
    requires
        0 < n,
        0 <= x < 2 * n,
    ensures
        x % n == (if x < n {
            x
        } else {
            x - n
        }),
{
    if x < n {
        lemma_fundamental_div_mod_converse(x, n, 0, x);
    } else {
        lemma_fundamental_div_mod_converse(x, n, 1, x - n);
    }
}

/// Target and source stay on the axis, and each undoes the other.
pub proof fn lemma_shift_index(i: int, n: int)
    requires
        0 <= i < n,
    ensures
        0 <= shift_target(i, n) < n,
        0 <= shift_source(i, n) < n,
        shift_target(i, n) == (if i < n - n / 2 {
            i + n / 2
        } else {
            i - (n - n / 2)
        }),
        shift_source(i, n) == (if i < n / 2 {
            i + (n - n / 2)
        } else {
            i - n / 2
        }),
        shift_source(shift_target(i, n), n) == i,
        shift_target(shift_source(i, n), n) == i,
{
    lemma_wrap(i + n / 2, n);
    lemma_wrap(i + (n - n / 2), n);
    lemma_wrap(shift_target(i, n) + (n - n / 2), n);
    lemma_wrap(shift_source(i, n) + n / 2, n);
}

/// On an axis of even length the content of an index comes from where the
/// content of that index goes.
pub proof fn lemma_shift_index_even(i: int, n: int)
    requires
        0 <= i < n,
        n % 2 == 0,
    ensures
        shift_source(i, n) == shift_target(i, n),
        shift_source(shift_source(i, n), n) == i,
{
    lemma_shift_index(i, n);
}

/// Centring keeps the shape.
pub proof fn lemma_shifted_shape<T>(g: Grid<T>)
    requires
        g.wf(),
    ensures
        g.shifted().wf(),
        g.shifted().same_shape(g),
{
}

/// Cell `(k, l)` of the centred matrix comes from the cell whose row and
/// column are the sources of `k` and `l`.
pub proof fn lemma_shifted_at<T>(g: Grid<T>, k: int, l: int)
    requires
        g.wf(),
        0 <= k < g.rows(),
        0 <= l < g.cols,
    ensures
        g.shifted().at(k, l) == g.at(
            shift_source(k, g.rows() as int),
            shift_source(l, g.cols as int),
        ),
{
}

/// Row `(i + rows/2) mod rows`, column `(j + cols/2) mod cols` of the centred
/// matrix receives cell `(i, j)` of the matrix.
pub proof fn lemma_shifted_receives<T>(g: Grid<T>, i: int, j: int)
    requires
        g.wf(),
        0 <= i < g.rows(),
        0 <= j < g.cols,
    ensures
        g.shifted().at(shift_target(i, g.rows() as int), shift_target(j, g.cols as int)) == g.at(
            i,
            j,
        ),
{
    lemma_shift_index(i, g.rows() as int);
    lemma_shift_index(j, g.cols as int);
    lemma_shifted_at(
        g,
        shift_target(i, g.rows() as int),
        shift_target(j, g.cols as int),
    );
}

/// Centring twice moves every cell by twice the half of each dimension.
pub proof fn lemma_shifted_twice_at<T>(g: Grid<T>, k: int, l: int)
    requires
        g.wf(),
        0 <= k < g.rows(),
        0 <= l < g.cols,
    ensures
        g.shifted().shifted().at(k, l) == g.at(
            shift_source(shift_source(k, g.rows() as int), g.rows() as int),
            shift_source(shift_source(l, g.cols as int), g.cols as int),
        ),
{
    let s = g.shifted();
    lemma_shifted_shape(g);
    lemma_shift_index(k, g.rows() as int);
    lemma_shift_index(l, g.cols as int);
    lemma_shifted_at(s, k, l);
    lemma_shifted_at(g, shift_source(k, g.rows() as int), shift_source(l, g.cols as int));
}

/// When both dimensions are even, centring twice gives the matrix back.
pub proof fn lemma_shift_involution<T>(g: Grid<T>)
    requires
        g.wf(),
        g.rows() % 2 == 0,
        g.cols % 2 == 0,
    ensures
        g.shifted().shifted() == g,
{
    let d = g.shifted().shifted();
    lemma_shifted_shape(g);
    lemma_shifted_shape(g.shifted());
    assert forall|k: int| 0 <= k < g.rows() implies d.lines[k] =~= g.lines[k] by {
        assert forall|l: int| 0 <= l < g.cols implies d.lines[k][l] == g.lines[k][l] by {
            lemma_shifted_twice_at(g, k, l);
            lemma_shift_index_even(k, g.rows() as int);
            lemma_shift_index_even(l, g.cols as int);
        }
    }
    assert(d.lines =~= g.lines);
}

/// Taking the source twice moves an index by one on an axis of odd length
/// and leaves it where it is on an axis of even length.
pub proof fn lemma_shift_source_twice(k: int, n: int)
    requires
        0 <= k < n,
    ensures
        shift_source(shift_source(k, n), n) == (k + n % 2) % n,
{
    lemma_shift_index(k, n);
    lemma_shift_index(shift_source(k, n), n);
    lemma_wrap(k + n % 2, n);
}

/// Centring twice rotates each axis of odd length by one place and leaves an
/// axis of even length as it was: the cell that arrives at `(k, l)` started
/// at `((k + rows mod 2) mod rows, (l + cols mod 2) mod cols)`. With an odd
/// dimension longer than one, centring twice is therefore not the identity.
pub proof fn lemma_shifted_twice<T>(g: Grid<T>, k: int, l: int)
    requires
        g.wf(),
        0 <= k < g.rows(),
        0 <= l < g.cols,
    ensures
        g.shifted().shifted().at(k, l) == g.at(
            (k + g.rows() % 2) % (g.rows() as int),
            (l + g.cols % 2) % (g.cols as int),
        ),
{
    lemma_shifted_twice_at(g, k, l);
    lemma_shift_source_twice(k, g.rows() as int);
    lemma_shift_source_twice(l, g.cols as int);
}

/// The index whose content arrives at `k` on an axis of length `n`.
fn source_index(k: usize, n: usize) -> (s: usize)
    requires
        k < n,
    ensures
        s == shift_source(k as int, n as int),
        s < n,
{
    proof {
        lemma_shift_index(k as int, n as int);
    }
    let half = n / 2;
    if k < half {
        k + (n - half)
    } else {
        k - half
    }
}

/// Rotates the rows downwards by half the number of rows.
fn roll_rows<T: Copy>(m: &Matrix<T>) -> (out: Matrix<T>)
    requires
        m.wf(),
    ensures
        out.wf(),
        out@ == m@.rows_rolled(),
{
    let rows = m.rows();
    let mut lines: Vec<Vec<T>> = Vec::new();
    let mut k: usize = 0;
    while k < rows
        invariant
            m.wf(),
            rows == m@.rows(),
            k <= rows,
            lines.len() == k,
            forall|i: int|
                0 <= i < k ==> (#[trigger] lines[i])@ == m@.lines[shift_source(i, rows as int)],
        decreases rows - k,
    {
        let line = m.row(source_index(k, rows));
        lines.push(line);
        k += 1;
    }
    let out = Matrix::assemble(m.cols(), lines);
    assert(out@.lines =~= m@.rows_rolled().lines);
    out
}

/// Rotates the columns to the right by half the number of columns.
fn roll_cols<T: Copy>(m: &Matrix<T>) -> (out: Matrix<T>)
    requires
        m.wf(),
    ensures
        out.wf(),
        out@ == m@.cols_rolled(),
{
    let rows = m.rows();
    let cols = m.cols();
    let mut lines: Vec<Vec<T>> = Vec::new();
    let mut i: usize = 0;
    while i < rows
        invariant
            m.wf(),
            rows == m@.rows(),
            cols == m@.cols,
            i <= rows,
            lines.len() == i,
            forall|k: int| 0 <= k < i ==> (#[trigger] lines[k])@ == m@.cols_rolled().lines[k],
        decreases rows - i,
    {
        let old_line = m.row(i);
        let mut line: Vec<T> = Vec::new();
        let mut l: usize = 0;
        while l < cols
            invariant
                m.wf(),
                i < rows,
                rows == m@.rows(),
                cols == m@.cols,
                old_line@ == m@.row(i as int),
                l <= cols,
                line.len() == l,
                forall|j: int|
                    0 <= j < l ==> line[j] == m@.lines[i as int][shift_source(j, cols as int)],
            decreases cols - l,
        {
            let s = source_index(l, cols);
            line.push(old_line[s]);
            l += 1;
        }
        assert(line@ =~= m@.cols_rolled().lines[i as int]);
        lines.push(line);
        i += 1;
    }
    let out = Matrix::assemble(cols, lines);
    assert(out@.lines =~= m@.cols_rolled().lines);
    out
}

/// Spectrum centering for a two-dimensional container.
pub trait FftShiftExt: Sized {
    /// The container is fit to be centred.
    spec fn shiftable(&self) -> bool;

    /// `self` is the centred form of `before`.
    spec fn is_shift_of(&self, before: &Self) -> bool;

    /// Centres the container in place.
    fn fftshift_inplace(&mut self)
        requires
            old(self).shiftable(),
        ensures
            final(self).is_shift_of(old(self)),
    ;

    /// The centred form of the container, which is left as it is.
    fn fftshift(&self) -> (out: Self)
        requires
            self.shiftable(),
        ensures
            out.is_shift_of(self),
    ;
}

impl<T: Copy> FftShiftExt for Matrix<T> {
    open spec fn shiftable(&self) -> bool {
        self.wf()
    }

    open spec fn is_shift_of(&self, before: &Self) -> bool {
        &&& self.wf()
        &&& self@ == before@.shifted()
        &&& self@.same_shape(before@)
        &&& forall|i: int, j: int|
            0 <= i < before@.rows() && 0 <= j < before@.cols ==> self@.at(
                #[trigger] shift_target(i, before@.rows() as int),
                #[trigger] shift_target(j, before@.cols as int),
            ) == before@.at(i, j)
    }

    fn fftshift_inplace(&mut self) {
        let out = self.fftshift();
        *self = out;
    }

    fn fftshift(&self) -> (out: Self) {
        let by_rows = roll_rows(self);
        let out = roll_cols(&by_rows);
        proof {
            lemma_shifted_shape(self@);
            assert forall|i: int, j: int|
                0 <= i < self@.rows() && 0 <= j < self@.cols implies out@.at(
                #[trigger] shift_target(i, self@.rows() as int),
                #[trigger] shift_target(j, self@.cols as int),
            ) == self@.at(i, j) by {
                lemma_shifted_receives(self@, i, j);
            }
        }
        out
    }
}

} // verus!
