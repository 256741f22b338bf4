//! The transform kinds, and what each of them asks of the separable engine:
//! which axis goes first, whether the second axis is transformed at all, and
//! by which constant the result is multiplied.

use crate::dct::DctType;
use vstd::prelude::*;

verus! {

/// Every transform that the engine can apply.
#[derive(Clone, Copy, Debug, PartialEq, Eq, Hash)]
pub enum TransformKind {
    Cosine(DctType),
    FourierForward,
    FourierInverse,
}

/// Why a transform was refused.
#[derive(Clone, Copy, Debug, PartialEq, Eq, Hash)]
pub enum TransformError {
    /// The matrix has no rows or no columns.
    InvalidShape,
}

/// The exact constant `numerator / denominator` by which a result is
/// multiplied. The division itself is left to the element type.
#[derive(Clone, Copy, Debug, PartialEq, Eq, Hash)]
pub struct Ratio {
    pub numerator: u128,
    pub denominator: u128,
}

/// How the engine runs one transform on a matrix of a given shape.
#[derive(Clone, Copy, Debug, PartialEq, Eq, Hash)]
pub struct Plan {
    /// The first pass runs along the columns, the second along the rows;
    /// otherwise rows first, then columns.
    pub columns_first: bool,
    /// The second pass is run at all.
    pub second_pass: bool,
    /// The constant for the final multiplication, if there is one.
    pub normalization: Option<Ratio>,
}

/// The plan for `kind` on a matrix of `rows x cols` cells, both at least one.
///
/// A cosine transform goes rows first, then columns, and multiplies by
/// `(rows * cols - 1) / 2`. The forward Fourier transform goes rows first,
/// leaves the columns out when there is a single column, and multiplies by
/// nothing. The inverse Fourier transform goes columns first, leaves the rows
/// out when there is a single row, and multiplies by `1 / (rows * cols)`.
pub open spec fn plan_of(kind: TransformKind, rows: nat, cols: nat) -> Plan {
    match kind {
        TransformKind::Cosine(_) => Plan {
            columns_first: false,
            second_pass: true,
            normalization: Some(
                Ratio { numerator: (rows * cols - 1) as u128, denominator: 2 },
            ),
        },
        TransformKind::FourierForward => Plan {
            columns_first: false,
            second_pass: cols != 1,
            normalization: None,
        },
        TransformKind::FourierInverse => Plan {
            columns_first: true,
            second_pass: rows != 1,
            normalization: Some(Ratio { numerator: 1, denominator: (rows * cols) as u128 }),
        },
    }
}

/// The number of cells of a matrix fits the numerator and the denominator
/// of a ratio.
pub proof fn lemma_cell_count_fits(rows: usize, cols: usize)
    ensures
        0 <= rows * cols <= u128::MAX,
{
    assert(0 <= rows * cols <= 0xffff_ffff_ffff_ffff * 0xffff_ffff_ffff_ffff) by (nonlinear_arith)
        requires
            0 <= rows <= 0xffff_ffff_ffff_ffff,
            0 <= cols <= 0xffff_ffff_ffff_ffff,
    ;
}

/// Chooses the plan for `kind` on a matrix of `rows x cols` cells. A shape
/// with a dimension of zero is refused, before anything else is done.
pub fn select(kind: TransformKind, rows: usize, cols: usize) -> (plan: Result<
    Plan,
    TransformError,
>)
    ensures
        plan is Err <==> rows == 0 || cols == 0,
        plan matches Err(e) ==> e == TransformError::InvalidShape,
        plan matches Ok(p) ==> p == plan_of(kind, rows as nat, cols as nat),
{
    if rows == 0 || cols == 0 {
        return Err(TransformError::InvalidShape);
    }
    proof {
        lemma_cell_count_fits(rows, cols);
        assert(rows * cols >= 1) by (nonlinear_arith)
            requires
                rows >= 1,
                cols >= 1,
        ;
    }
    let cells: u128 = (rows as u128) * (cols as u128);
    let plan = match kind {
        TransformKind::Cosine(_) => Plan {
            columns_first: false,
            second_pass: true,
            normalization: Some(Ratio { numerator: cells - 1, denominator: 2 }),
        },
        TransformKind::FourierForward => Plan {
            columns_first: false,
            second_pass: cols != 1,
            normalization: None,
        },
        TransformKind::FourierInverse => Plan {
            columns_first: true,
            second_pass: rows != 1,
            normalization: Some(Ratio { numerator: 1, denominator: cells }),
        },
    };
    Ok(plan)
}

} // verus!
