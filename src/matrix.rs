use vstd::prelude::*;

use crate::shape::Shape;

verus! {

/// The entry at row `i`, column `j` of the row-major sequence `data` of a
/// matrix `width` columns wide.
pub open spec fn cell<T>(data: Seq<T>, width: int, i: int, j: int) -> T {
    data[i * width + j]
}

/// Appending a full row to the rows before it keeps their entries and puts
/// the row's entries in the next row.
pub(crate) proof fn lemma_append_row<T>(data: Seq<T>, row: Seq<T>, i: int, width: int)
    requires
        0 <= i,
        0 <= width,
        data.len() == i * width,
        row.len() == width,
    ensures
        (data + row).len() == (i + 1) * width,
        forall|r: int, c: int|
            0 <= r < i && 0 <= c < width ==> #[trigger] cell(data + row, width, r, c) == cell(
                data,
                width,
                r,
                c,
            ),
        forall|c: int| 0 <= c < width ==> #[trigger] cell(data + row, width, i, c) == row[c],
{
    assert((i + 1) * width == i * width + width) by (nonlinear_arith);
    assert forall|r: int, c: int| 0 <= r < i && 0 <= c < width implies #[trigger] cell(
        data + row,
        width,
        r,
        c,
    ) == cell(data, width, r, c) by {
        assert(r * width + c < i * width) by (nonlinear_arith)
            requires
                0 <= r < i,
                0 <= c < width,
        ;
        assert(0 <= r * width) by (nonlinear_arith)
            requires
                0 <= r,
                0 <= width,
        ;
    }
}

/// Appends `row` to `data`, element by element.
pub(crate) fn append_row<T: Copy>(data: &mut Vec<T>, row: &Vec<T>)
    ensures
        final(data)@ == old(data)@ + row@,
{
    let mut j: usize = 0;
    while j < row.len()
        invariant
            0 <= j <= row@.len(),
            data@ == old(data)@ + row@.take(j as int),
        decreases row@.len() - j,
    {
        data.push(row[j]);
        assert(row@.take(j + 1) =~= row@.take(j as int).push(row@[j as int]));
        j += 1;
    }
    assert(row@.take(j as int) =~= row@);
}

/// A dense matrix stored row by row.
pub struct Matrix<T> {
    shape: Shape,
    data: Vec<T>,
}

impl<T> Matrix<T> {
    pub closed spec fn dims(self) -> Shape {
        self.shape
    }

    /// The entries, row after row.
    pub closed spec fn entries(self) -> Seq<T> {
        self.data@
    }

    pub open spec fn well_formed(self) -> bool {
        self.entries().len() == self.dims().rows * self.dims().cols
    }

    /// The entry at row `i`, column `j`.
    pub open spec fn at(self, i: int, j: int) -> T {
        cell(self.entries(), self.dims().cols as int, i, j)
    }

}

impl<T: Copy> Matrix<T> {
    /// The matrix whose rows are `rows`, each `width` entries long.
    pub fn from_rows(rows: &Vec<Vec<T>>, width: usize) -> (r: Matrix<T>)
        requires
            forall|i: int| 0 <= i < rows@.len() ==> (#[trigger] rows@[i])@.len() == width,
            rows@.len() * width <= usize::MAX,
        ensures
            r.well_formed(),
            r.dims() == (Shape { rows: rows@.len() as usize, cols: width }),
            forall|i: int, j: int|
                0 <= i < rows@.len() && 0 <= j < width ==> #[trigger] r.at(i, j) == rows@[i]@[j],
    {
        let mut data: Vec<T> = Vec::new();
        let mut i: usize = 0;
        while i < rows.len()
            invariant
                0 <= i <= rows@.len(),
                forall|k: int| 0 <= k < rows@.len() ==> (#[trigger] rows@[k])@.len() == width,
                data@.len() == i * width,
                forall|k: int, j: int|
                    0 <= k < i && 0 <= j < width ==> #[trigger] cell(data@, width as int, k, j)
                        == rows@[k]@[j],
            decreases rows@.len() - i,
        {
            let ghost before = data@;
            append_row(&mut data, &rows[i]);
            proof {
                lemma_append_row(before, rows@[i as int]@, i as int, width as int);
            }
            i += 1;
        }
        Matrix { shape: Shape { rows: rows.len(), cols: width }, data }
    }

    /// The matrix of the given shape whose entries, row after row, are `data`.
    pub(crate) fn from_parts(shape: Shape, data: Vec<T>) -> (r: Matrix<T>)
        requires
            data@.len() == shape.rows * shape.cols,
        ensures
            r.well_formed(),
            r.dims() == shape,
            r.entries() == data@,
    {
        Matrix { shape, data }
    }

    pub fn shape(&self) -> (r: Shape)
        ensures
            r == self.dims(),
    {
        self.shape
    }

    /// The entry at row `i`, column `j`.
    pub fn get(&self, i: usize, j: usize) -> (r: T)
        requires
            self.well_formed(),
            i < self.dims().rows,
            j < self.dims().cols,
        ensures
            r == self.at(i as int, j as int),
    {
        let n = self.data.len();
        proof {
            assert(i * self.shape.cols + j < n) by (nonlinear_arith)
                requires
                    i < self.shape.rows,
                    j < self.shape.cols,
                    n == self.shape.rows * self.shape.cols,
            ;
        }
        self.data[i * self.shape.cols + j]
    }

    /// The shape and the row-major entries.
    pub fn into_parts(self) -> (r: (Shape, Vec<T>))
        ensures
            r.0 == self.dims(),
            r.1@ == self.entries(),
    {
        (self.shape, self.data)
    }
}

} // verus!
