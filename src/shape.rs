use vstd::prelude::*;

use crate::error::NetworkError;

verus! {

/// The dimensions of a dense two-dimensional matrix: `rows × cols`.
#[derive(Clone, Copy, Debug, PartialEq, Eq, Structural)]
pub struct Shape {
    pub rows: usize,
    pub cols: usize,
}

impl Shape {
    pub fn new(rows: usize, cols: usize) -> (r: Shape)
        ensures
            r.rows == rows,
            r.cols == cols,
    {
        Shape { rows, cols }
    }

    pub open spec fn spec_transposed(self) -> Shape {
        Shape { rows: self.cols, cols: self.rows }
    }

    /// The shape of the transposed matrix.
    pub fn transposed(&self) -> (r: Shape)
        ensures
            r == self.spec_transposed(),
    {
        Shape { rows: self.cols, cols: self.rows }
    }

    /// The shape of the matrix product `self · other`, or the mismatch that
    /// forbids it.
    pub open spec fn spec_product(self, other: Shape) -> Result<Shape, NetworkError> {
        if self.cols == other.rows {
            Ok(Shape { rows: self.rows, cols: other.cols })
        } else {
            Err(NetworkError::ShapeMismatch { found: self.cols, expected: other.rows })
        }
    }

    /// The shape of the matrix product `self · other`; fails with
    /// `ShapeMismatch` exactly when the inner dimensions differ.
    pub fn product(&self, other: &Shape) -> (r: Result<Shape, NetworkError>)
        ensures
            r == self.spec_product(*other),
    {
        if self.cols == other.rows {
            Ok(Shape { rows: self.rows, cols: other.cols })
        } else {
            Err(NetworkError::ShapeMismatch { found: self.cols, expected: other.rows })
        }
    }
}

} // verus!
