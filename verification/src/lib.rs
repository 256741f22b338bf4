//! Separable two-dimensional spectral transforms on dense matrices: the four
//! discrete cosine transforms, the discrete Fourier transform and its
//! inverse, and the centring of a spectrum.
//!
//! The one-dimensional kernels and the arithmetic on the cells are handed in
//! by the caller. What this crate holds, and proves, is everything around
//! them: the order of the passes along rows and columns, the transpositions,
//! the constant of the final multiplication, what stands in for a value that
//! cannot be converted, and the rotation that centres a spectrum.
//!
//! - [`matrix`] and [`grid`]: the matrix and its mathematical model.
//! - [`kind`]: the kinds of transform and the plan of each.
//! - [`engine`]: the passes, the final multiplication and the transform.
//! - [`relation`]: what the contracts of the engine say.
//! - [`dct`] and [`dft`]: the cosine and the Fourier transform of a matrix.
//! - [`shift`]: the centring of a spectrum, and its laws.
//! - [`laws`] and [`exact`]: laws of the transforms.

use vstd::prelude::*;

pub mod dct;
pub mod dft;
pub mod engine;
pub mod exact;
pub mod grid;
pub mod kind;
pub mod laws;
pub mod matrix;
pub mod relation;
pub mod shift;

verus! {

/// A forward transform, which moves a matrix into the frequency domain.
pub trait ForwardTransformExt: Sized {
    type Output;

    /// The transform can be applied.
    spec fn forward_ready(&self) -> bool;

    /// `out` is the forward transform of `self`.
    spec fn is_forward(&self, out: &Self::Output) -> bool;

    /// Applies the forward transform.
    fn transform(self) -> (out: Self::Output)
        requires
            self.forward_ready(),
        ensures
            self.is_forward(&out),
    ;
}

/// An inverse transform, which moves a matrix from the frequency domain back
/// into the spatial domain.
pub trait InverseTransformExt: Sized {
    type Output;

    /// The transform can be applied.
    spec fn inverse_ready(&self) -> bool;

    /// `out` is the inverse transform of `self`.
    spec fn is_inverse(&self, out: &Self::Output) -> bool;

    /// Applies the inverse transform.
    fn inverse(self) -> (out: Self::Output)
        requires
            self.inverse_ready(),
        ensures
            self.is_inverse(&out),
    ;
}

} // verus!
