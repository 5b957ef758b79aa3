use vstd::prelude::*;

use crate::error::MatError;

verus! {

/// The number of rows and columns of a matrix.
#[derive(Debug, Clone, Copy, PartialEq, Eq, Structural)]
pub struct Shape {
    pub rows: usize,
    pub cols: usize,
}

impl Shape {
    pub fn new(rows: usize, cols: usize) -> (r: Shape)
        ensures
            r.rows == rows,
            r.cols == cols,
    {
        Shape { rows, cols }
    }

    pub open spec fn is_square(self) -> bool {
        self.rows == self.cols
    }
}

/// Shape of the sum (or difference) of two matrices: both must have the
/// same shape.
pub fn check_add(lhs: Shape, rhs: Shape) -> (r: Result<Shape, MatError>)
    ensures
        lhs == rhs ==> r == Ok::<Shape, MatError>(lhs),
        lhs != rhs ==> r == Err::<Shape, MatError>(MatError::DimensionMismatch),
{
    if lhs.rows == rhs.rows && lhs.cols == rhs.cols {
        Ok(lhs)
    } else {
        Err(MatError::DimensionMismatch)
    }
}

/// Shape of the product `lhs * rhs`: the inner dimensions must agree.
pub fn check_mul(lhs: Shape, rhs: Shape) -> (r: Result<Shape, MatError>)
    ensures
        lhs.cols == rhs.rows ==> r == Ok::<Shape, MatError>(Shape { rows: lhs.rows, cols: rhs.cols }),
        lhs.cols != rhs.rows ==> r == Err::<Shape, MatError>(MatError::DimensionMismatch),
{
    if lhs.cols == rhs.rows {
        Ok(Shape { rows: lhs.rows, cols: rhs.cols })
    } else {
        Err(MatError::DimensionMismatch)
    }
}

/// Order of a square matrix; a matrix that is not square is rejected.
/// Factorizations and eigenvalue computations accept square matrices only,
/// and an eigenvalue list has exactly this many entries.
pub fn check_square(a: Shape) -> (r: Result<usize, MatError>)
    ensures
        a.is_square() ==> r == Ok::<usize, MatError>(a.rows),
        !a.is_square() ==> r == Err::<usize, MatError>(MatError::DimensionMismatch),
{
    if a.rows == a.cols {
        Ok(a.rows)
    } else {
        Err(MatError::DimensionMismatch)
    }
}

/// Shape of the solution `X` of `A X = B`, where `A` is the factored square
/// matrix of order `order`: `B` must have `order` rows, and `X` has the
/// shape of `B`.
pub fn check_solve(order: usize, rhs: Shape) -> (r: Result<Shape, MatError>)
    ensures
        rhs.rows == order ==> r == Ok::<Shape, MatError>(rhs),
        rhs.rows != order ==> r == Err::<Shape, MatError>(MatError::DimensionMismatch),
{
    if rhs.rows == order {
        Ok(rhs)
    } else {
        Err(MatError::DimensionMismatch)
    }
}

} // verus!
