//! The discrete cosine transform of a matrix.

use crate::engine::{transform, Arithmetic, Provider};
use crate::grid::Grid;
use crate::kind::{Ratio, TransformError, TransformKind};
use crate::matrix::Matrix;
use crate::relation::{serves, transformed};
use crate::{ForwardTransformExt, InverseTransformExt};
use vstd::prelude::*;

verus! {

/// The four standard variants of the discrete cosine transform.
#[derive(Clone, Copy, Debug, PartialEq, Eq, Hash)]
pub enum DctType {
    Type1,
    Type2,
    Type3,
    Type4,
}

/// A matrix to be cosine-transformed, together with the provider of the
/// kernels and the arithmetic of its cells.
pub struct Dct<T, P, A> {
    matrix: Matrix<T>,
    provider: P,
    arithmetic: A,
}

/// What a cosine transform of the variant `ty` of `input` gives: no matrix
/// at all where `input` has no rows or no columns, else a matrix of the same
/// shape whose cells come from `input` by a pass along the rows, a pass along
/// the columns and the multiplication by `(rows * cols - 1) / 2`.
pub open spec fn is_dct<
    T,
    K,
    Pl: Fn(TransformKind, usize) -> K,
    Pr: Fn(&K, Vec<T>) -> Vec<T>,
    F,
    C: Fn(Ratio) -> Option<F>,
    M: Fn(T, F) -> T,
>(
    provider: Provider<Pl, Pr>,
    arithmetic: Arithmetic<F, C, M>,
    ty: DctType,
    input: Grid<T>,
    out: Result<Matrix<T>, TransformError>,
) -> bool {
    match out {
        Ok(made) => {
            &&& input.rows() >= 1
            &&& input.cols >= 1
            &&& made.wf()
            &&& made@.same_shape(input)
            &&& transformed(provider, arithmetic, TransformKind::Cosine(ty), input, made@)
        },
        Err(e) => e == TransformError::InvalidShape && (input.rows() == 0 || input.cols == 0),
    }
}

/// A cosine transform of the variant `ty` can be applied: the matrix is well
/// formed and, unless it has no rows or no columns, the provider and the
/// arithmetic serve its shape.
pub open spec fn dct_serves<
    T,
    K,
    Pl: Fn(TransformKind, usize) -> K,
    Pr: Fn(&K, Vec<T>) -> Vec<T>,
    F,
    C: Fn(Ratio) -> Option<F>,
    M: Fn(T, F) -> T,
>(
    provider: Provider<Pl, Pr>,
    arithmetic: Arithmetic<F, C, M>,
    ty: DctType,
    input: Matrix<T>,
) -> bool {
    &&& input.wf()
    &&& input@.rows() >= 1 && input@.cols >= 1 ==> serves::<T, K, Pl, Pr, F, C, M>(
        provider,
        arithmetic,
        TransformKind::Cosine(ty),
        input@.rows(),
        input@.cols,
    )
}

impl<T, P, A> Dct<T, P, A> {
    /// The matrix that is to be transformed.
    pub closed spec fn matrix(&self) -> Matrix<T> {
        self.matrix
    }

    /// The provider of the kernels.
    pub closed spec fn provider(&self) -> P {
        self.provider
    }

    /// The arithmetic of the cells.
    pub closed spec fn arithmetic(&self) -> A {
        self.arithmetic
    }
}

impl<
    T: Copy,
    K,
    Pl: Fn(TransformKind, usize) -> K,
    Pr: Fn(&K, Vec<T>) -> Vec<T>,
    F: Copy,
    C: Fn(Ratio) -> Option<F>,
    M: Fn(T, F) -> T,
> Dct<T, Provider<Pl, Pr>, Arithmetic<F, C, M>> {
    /// Puts a matrix together with the provider of the kernels and the
    /// arithmetic for it. Each variant is ready to be applied exactly when
    /// the provider and the arithmetic serve the matrix for it; this is
    /// stated here so that a caller learns it without looking into the
    /// implementations of the traits.
    pub fn new(
        matrix: Matrix<T>,
        provider: Provider<Pl, Pr>,
        arithmetic: Arithmetic<F, C, M>,
    ) -> (dct: Self)
        ensures
            dct.matrix() == matrix,
            dct.provider() == provider,
            dct.arithmetic() == arithmetic,
            forall|ty: DctType| #[trigger]
                dct.dct_ready(ty) == dct_serves(provider, arithmetic, ty, matrix),
            dct.forward_ready() == dct_serves(provider, arithmetic, DctType::Type2, matrix),
            dct.inverse_ready() == dct_serves(provider, arithmetic, DctType::Type3, matrix),
    {
        Dct { matrix, provider, arithmetic }
    }
}

/// The cosine transforms of a two-dimensional container.
pub trait DctExt: Sized {
    type Output;

    /// The variant `ty` can be applied.
    spec fn dct_ready(&self, ty: DctType) -> bool;

    /// `out` is the cosine transform of the variant `ty` of `self`.
    spec fn is_dct_of(&self, ty: DctType, out: &Self::Output) -> bool;

    /// The cosine transform of the given variant.
    fn perform_dct(self, ty: DctType) -> (out: Self::Output)
        requires
            self.dct_ready(ty),
        ensures
            self.is_dct_of(ty, &out),
    ;

    /// The cosine transform of type 1.
    fn perform_dct1(self) -> (out: Self::Output)
        requires
            self.dct_ready(DctType::Type1),
        ensures
            self.is_dct_of(DctType::Type1, &out),
    ;

    /// The cosine transform of type 2.
    fn perform_dct2(self) -> (out: Self::Output)
        requires
            self.dct_ready(DctType::Type2),
        ensures
            self.is_dct_of(DctType::Type2, &out),
    ;

    /// The cosine transform of type 3.
    fn perform_dct3(self) -> (out: Self::Output)
        requires
            self.dct_ready(DctType::Type3),
        ensures
            self.is_dct_of(DctType::Type3, &out),
    ;

    /// The cosine transform of type 4.
    fn perform_dct4(self) -> (out: Self::Output)
        requires
            self.dct_ready(DctType::Type4),
        ensures
            self.is_dct_of(DctType::Type4, &out),
    ;
}

impl<
    T: Copy,
    K,
    Pl: Fn(TransformKind, usize) -> K,
    Pr: Fn(&K, Vec<T>) -> Vec<T>,
    F: Copy,
    C: Fn(Ratio) -> Option<F>,
    M: Fn(T, F) -> T,
> DctExt for Dct<T, Provider<Pl, Pr>, Arithmetic<F, C, M>> {
    type Output = Result<Matrix<T>, TransformError>;

    open spec fn dct_ready(&self, ty: DctType) -> bool {
        dct_serves(self.provider(), self.arithmetic(), ty, self.matrix())
    }

    open spec fn is_dct_of(&self, ty: DctType, out: &Self::Output) -> bool {
        is_dct(self.provider(), self.arithmetic(), ty, self.matrix()@, *out)
    }

    fn perform_dct(self, ty: DctType) -> (out: Self::Output)
        ensures
            is_dct(self.provider(), self.arithmetic(), ty, self.matrix()@, out),
    {
        match ty {
            DctType::Type1 => self.perform_dct1(),
            DctType::Type2 => self.perform_dct2(),
            DctType::Type3 => self.perform_dct3(),
            DctType::Type4 => self.perform_dct4(),
        }
    }

    fn perform_dct1(self) -> (out: Self::Output)
        ensures
            is_dct(self.provider(), self.arithmetic(), DctType::Type1, self.matrix()@, out),
    {
        transform(
            &self.matrix,
            TransformKind::Cosine(DctType::Type1),
            &self.provider,
            &self.arithmetic,
        )
    }

    fn perform_dct2(self) -> (out: Self::Output)
        ensures
            is_dct(self.provider(), self.arithmetic(), DctType::Type2, self.matrix()@, out),
    {
        transform(
            &self.matrix,
            TransformKind::Cosine(DctType::Type2),
            &self.provider,
            &self.arithmetic,
        )
    }

    fn perform_dct3(self) -> (out: Self::Output)
        ensures
            is_dct(self.provider(), self.arithmetic(), DctType::Type3, self.matrix()@, out),
    {
        transform(
            &self.matrix,
            TransformKind::Cosine(DctType::Type3),
            &self.provider,
            &self.arithmetic,
        )
    }

    fn perform_dct4(self) -> (out: Self::Output)
        ensures
            is_dct(self.provider(), self.arithmetic(), DctType::Type4, self.matrix()@, out),
    {
        transform(
            &self.matrix,
            TransformKind::Cosine(DctType::Type4),
            &self.provider,
            &self.arithmetic,
        )
    }
}

/// The forward cosine transform is the variant of type 2.
impl<
    T: Copy,
    K,
    Pl: Fn(TransformKind, usize) -> K,
    Pr: Fn(&K, Vec<T>) -> Vec<T>,
    F: Copy,
    C: Fn(Ratio) -> Option<F>,
    M: Fn(T, F) -> T,
> ForwardTransformExt for Dct<T, Provider<Pl, Pr>, Arithmetic<F, C, M>> {
    type Output = Result<Matrix<T>, TransformError>;

    open spec fn forward_ready(&self) -> bool {
        self.dct_ready(DctType::Type2)
    }

    open spec fn is_forward(&self, out: &Self::Output) -> bool {
        self.is_dct_of(DctType::Type2, out)
    }

    fn transform(self) -> (out: Self::Output)
        ensures
            is_dct(self.provider(), self.arithmetic(), DctType::Type2, self.matrix()@, out),
    {
        self.perform_dct2()
    }
}

/// The inverse cosine transform is the variant of type 3.
impl<
    T: Copy,
    K,
    Pl: Fn(TransformKind, usize) -> K,
    Pr: Fn(&K, Vec<T>) -> Vec<T>,
    F: Copy,
    C: Fn(Ratio) -> Option<F>,
    M: Fn(T, F) -> T,
> InverseTransformExt for Dct<T, Provider<Pl, Pr>, Arithmetic<F, C, M>> {
    type Output = Result<Matrix<T>, TransformError>;

    open spec fn inverse_ready(&self) -> bool {
        self.dct_ready(DctType::Type3)
    }

    open spec fn is_inverse(&self, out: &Self::Output) -> bool {
        self.is_dct_of(DctType::Type3, out)
    }

    fn inverse(self) -> (out: Self::Output)
        ensures
            is_dct(self.provider(), self.arithmetic(), DctType::Type3, self.matrix()@, out),
    {
        self.perform_dct3()
    }
}

} // verus!
