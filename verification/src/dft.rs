//! The discrete Fourier transform of a matrix, forward and inverse.

use crate::engine::{to_working_representation, transform, Arithmetic, Provider};
use crate::grid::Grid;
use crate::kind::{Ratio, TransformError, TransformKind};
use crate::matrix::Matrix;
use crate::relation::{lift_serves, lifted, serves, transformed};
pub use crate::shift::FftShiftExt;
use crate::{ForwardTransformExt, InverseTransformExt};
use vstd::prelude::*;

verus! {

/// A matrix of complex cells to be Fourier-transformed, together with the
/// provider of the kernels and the arithmetic of its cells.
pub struct Dft<W, P, A> {
    matrix: Matrix<W>,
    provider: P,
    arithmetic: A,
}

/// What a Fourier transform of kind `kind` of `input` gives: no matrix at
/// all where `input` has no rows or no columns, else a matrix of the same
/// shape whose cells come from `input` by the passes and the multiplication
/// of the plan for `kind`.
pub open spec fn is_dft<
    W,
    K,
    Pl: Fn(TransformKind, usize) -> K,
    Pr: Fn(&K, Vec<W>) -> Vec<W>,
    F,
    C: Fn(Ratio) -> Option<F>,
    M: Fn(W, F) -> W,
>(
    provider: Provider<Pl, Pr>,
    arithmetic: Arithmetic<F, C, M>,
    kind: TransformKind,
    input: Grid<W>,
    out: Result<Matrix<W>, TransformError>,
) -> bool {
    match out {
        Ok(made) => {
            &&& input.rows() >= 1
            &&& input.cols >= 1
            &&& made.wf()
            &&& made@.same_shape(input)
            &&& transformed(provider, arithmetic, kind, input, made@)
        },
        Err(e) => e == TransformError::InvalidShape && (input.rows() == 0 || input.cols == 0),
    }
}

/// A Fourier transform of kind `kind` can be applied: the matrix is well
/// formed and, unless it has no rows or no columns, the provider and the
/// arithmetic serve its shape.
pub open spec fn dft_serves<
    W,
    K,
    Pl: Fn(TransformKind, usize) -> K,
    Pr: Fn(&K, Vec<W>) -> Vec<W>,
    F,
    C: Fn(Ratio) -> Option<F>,
    M: Fn(W, F) -> W,
>(
    provider: Provider<Pl, Pr>,
    arithmetic: Arithmetic<F, C, M>,
    kind: TransformKind,
    input: Matrix<W>,
) -> bool {
    &&& input.wf()
    &&& input@.rows() >= 1 && input@.cols >= 1 ==> serves::<W, K, Pl, Pr, F, C, M>(
        provider,
        arithmetic,
        kind,
        input@.rows(),
        input@.cols,
    )
}

impl<W, P, A> Dft<W, P, A> {
    /// The matrix that is to be transformed.
    pub closed spec fn matrix(&self) -> Matrix<W> {
        self.matrix
    }

    /// The provider of the kernels.
    pub closed spec fn provider(&self) -> P {
        self.provider
    }

    /// The arithmetic of the cells.
    pub closed spec fn arithmetic(&self) -> A {
        self.arithmetic
    }
}

impl<
    W: Copy,
    K,
    Pl: Fn(TransformKind, usize) -> K,
    Pr: Fn(&K, Vec<W>) -> Vec<W>,
    F: Copy,
    C: Fn(Ratio) -> Option<F>,
    M: Fn(W, F) -> W,
> Dft<W, Provider<Pl, Pr>, Arithmetic<F, C, M>> {
    /// Puts a matrix of complex cells together with the provider of the
    /// kernels and the arithmetic for it. Each direction is ready to be
    /// applied exactly when the provider and the arithmetic serve the matrix
    /// for it; this is stated here so that a caller learns it without looking
    /// into the implementations of the traits.
    pub fn new(
        matrix: Matrix<W>,
        provider: Provider<Pl, Pr>,
        arithmetic: Arithmetic<F, C, M>,
    ) -> (dft: Self)
        ensures
            dft.matrix() == matrix,
            dft.provider() == provider,
            dft.arithmetic() == arithmetic,
            dft.forward_ready() == dft_serves(
                provider,
                arithmetic,
                TransformKind::FourierForward,
                matrix,
            ),
            dft.inverse_ready() == dft_serves(
                provider,
                arithmetic,
                TransformKind::FourierInverse,
                matrix,
            ),
    {
        Dft { matrix, provider, arithmetic }
    }

    /// Takes a matrix of real cells, converts every cell to a complex one
    /// with `lift`, with `fallback` in place of a cell that `lift` cannot
    /// convert, and puts the result together with the provider of the kernels
    /// and the arithmetic for it.
    pub fn from_real<T: Copy, L: Fn(T) -> Option<W>>(
        spatial: &Matrix<T>,
        lift: &L,
        fallback: W,
        provider: Provider<Pl, Pr>,
        arithmetic: Arithmetic<F, C, M>,
    ) -> (dft: Self)
        requires
            spatial.wf(),
            lift_serves(*lift, spatial@),
        ensures
            dft.matrix().wf(),
            lifted(*lift, fallback, spatial@, dft.matrix()@),
            dft.provider() == provider,
            dft.arithmetic() == arithmetic,
            dft.forward_ready() == dft_serves(
                provider,
                arithmetic,
                TransformKind::FourierForward,
                dft.matrix(),
            ),
            dft.inverse_ready() == dft_serves(
                provider,
                arithmetic,
                TransformKind::FourierInverse,
                dft.matrix(),
            ),
    {
        Dft { matrix: to_working_representation(spatial, lift, fallback), provider, arithmetic }
    }
}

impl<
    W: Copy,
    K,
    Pl: Fn(TransformKind, usize) -> K,
    Pr: Fn(&K, Vec<W>) -> Vec<W>,
    F: Copy,
    C: Fn(Ratio) -> Option<F>,
    M: Fn(W, F) -> W,
> ForwardTransformExt for Dft<W, Provider<Pl, Pr>, Arithmetic<F, C, M>> {
    type Output = Result<Matrix<W>, TransformError>;

    open spec fn forward_ready(&self) -> bool {
        dft_serves(self.provider(), self.arithmetic(), TransformKind::FourierForward, self.matrix())
    }

    open spec fn is_forward(&self, out: &Self::Output) -> bool {
        is_dft(
            self.provider(),
            self.arithmetic(),
            TransformKind::FourierForward,
            self.matrix()@,
            *out,
        )
    }

    fn transform(self) -> (out: Self::Output)
        ensures
            is_dft(
                self.provider(),
                self.arithmetic(),
                TransformKind::FourierForward,
                self.matrix()@,
                out,
            ),
    {
        transform(&self.matrix, TransformKind::FourierForward, &self.provider, &self.arithmetic)
    }
}

impl<
    W: Copy,
    K,
    Pl: Fn(TransformKind, usize) -> K,
    Pr: Fn(&K, Vec<W>) -> Vec<W>,
    F: Copy,
    C: Fn(Ratio) -> Option<F>,
    M: Fn(W, F) -> W,
> InverseTransformExt for Dft<W, Provider<Pl, Pr>, Arithmetic<F, C, M>> {
    type Output = Result<Matrix<W>, TransformError>;

    open spec fn inverse_ready(&self) -> bool {
        dft_serves(self.provider(), self.arithmetic(), TransformKind::FourierInverse, self.matrix())
    }

    open spec fn is_inverse(&self, out: &Self::Output) -> bool {
        is_dft(
            self.provider(),
            self.arithmetic(),
            TransformKind::FourierInverse,
            self.matrix()@,
            *out,
        )
    }

    fn inverse(self) -> (out: Self::Output)
        ensures
            is_dft(
                self.provider(),
                self.arithmetic(),
                TransformKind::FourierInverse,
                self.matrix()@,
                out,
            ),
    {
        transform(&self.matrix, TransformKind::FourierInverse, &self.provider, &self.arithmetic)
    }
}

} // verus!
