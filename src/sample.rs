use vstd::prelude::*;

use crate::matrix::{append_row, cell, lemma_append_row, Matrix};
use crate::shape::Shape;

verus! {

/// The observed values of a network's inputs, and, for a sample of a
/// training dataset, the outputs expected for them.
#[derive(Clone, Debug)]
pub struct Sample<T> {
    inputs: Vec<T>,
    outputs: Option<Vec<T>>,
}

/// Why a collection of samples cannot be laid out as training matrices.
#[derive(Clone, Copy, Debug, PartialEq, Eq, Structural)]
pub enum DatasetError {
    /// The dataset holds no sample.
    Empty,
    /// The sample at `index` has no expected outputs.
    MissingOutputs { index: usize },
    /// The sample at `index` has `found` inputs where the first one has
    /// `expected`.
    InputsCountMismatch { index: usize, found: usize, expected: usize },
    /// The sample at `index` has `found` expected outputs where the first one
    /// has `expected`.
    OutputsCountMismatch { index: usize, found: usize, expected: usize },
}

impl<T> Sample<T> {
    pub closed spec fn inputs(self) -> Seq<T> {
        self.inputs@
    }

    pub closed spec fn outputs(self) -> Option<Seq<T>> {
        match self.outputs {
            Some(o) => Some(o@),
            None => None,
        }
    }

    /// A training sample: inputs with the outputs expected for them.
    pub fn dataset(inputs: Vec<T>, outputs: Vec<T>) -> (r: Sample<T>)
        ensures
            r.inputs() == inputs@,
            r.outputs() == Some(outputs@),
    {
        Sample { inputs, outputs: Some(outputs) }
    }

    /// A sample to predict outputs for: inputs alone.
    pub fn predict(inputs: Vec<T>) -> (r: Sample<T>)
        ensures
            r.inputs() == inputs@,
            r.outputs() == None::<Seq<T>>,
    {
        Sample { inputs, outputs: None }
    }
}

/// The input width every sample must have: the first sample's.
pub open spec fn input_width<T>(dataset: Seq<Sample<T>>) -> nat {
    dataset[0].inputs().len()
}

/// The output width every sample must have: the first sample's.
pub open spec fn output_width<T>(dataset: Seq<Sample<T>>) -> nat {
    match dataset[0].outputs() {
        Some(o) => o.len(),
        None => 0,
    }
}

/// What is wrong with the sample at `i`, if anything: no expected outputs,
/// then an input count, then an output count other than the first sample's.
pub open spec fn sample_error<T>(dataset: Seq<Sample<T>>, i: int) -> Option<DatasetError> {
    match dataset[i].outputs() {
        None => Some(DatasetError::MissingOutputs { index: i as usize }),
        Some(o) => if dataset[i].inputs().len() != input_width(dataset) {
            Some(
                DatasetError::InputsCountMismatch {
                    index: i as usize,
                    found: dataset[i].inputs().len() as usize,
                    expected: input_width(dataset) as usize,
                },
            )
        } else if o.len() != output_width(dataset) {
            Some(
                DatasetError::OutputsCountMismatch {
                    index: i as usize,
                    found: o.len() as usize,
                    expected: output_width(dataset) as usize,
                },
            )
        } else {
            None
        },
    }
}

/// Whether every sample has expected outputs and the widths of the first.
pub open spec fn valid_dataset<T>(dataset: Seq<Sample<T>>) -> bool {
    dataset.len() > 0 && forall|i: int|
        0 <= i < dataset.len() ==> #[trigger] sample_error(dataset, i) is None
}

/// Whether `e` is the error to report for `dataset`: `Empty` for an empty
/// one, else the error of its first faulty sample.
pub open spec fn reported_error<T>(dataset: Seq<Sample<T>>, e: DatasetError) -> bool {
    if dataset.len() == 0 {
        e == DatasetError::Empty
    } else {
        exists|i: int|
            0 <= i < dataset.len() && #[trigger] sample_error(dataset, i) == Some(e) && forall|k: int|
                0 <= k < i ==> #[trigger] sample_error(dataset, k) is None
    }
}

/// Whether `x` and `y` hold the inputs and the expected outputs of
/// `dataset`, one row per sample, in order.
pub open spec fn lays_out<T>(dataset: Seq<Sample<T>>, x: Matrix<T>, y: Matrix<T>) -> bool
    recommends
        dataset.len() > 0,
{
    &&& x.well_formed()
    &&& y.well_formed()
    &&& x.dims() == (Shape { rows: dataset.len() as usize, cols: input_width(dataset) as usize })
    &&& y.dims() == (Shape { rows: dataset.len() as usize, cols: output_width(dataset) as usize })
    &&& forall|i: int, j: int|
        0 <= i < dataset.len() && 0 <= j < input_width(dataset) ==> #[trigger] x.at(i, j)
            == dataset[i].inputs()[j]
    &&& forall|i: int, j: int|
        0 <= i < dataset.len() && 0 <= j < output_width(dataset) ==> #[trigger] y.at(i, j)
            == dataset[i].outputs().unwrap()[j]
}

/// Lays a dataset out as two matrices with one row per sample: the inputs
/// `[samples × inputs]` and the expected outputs `[samples × outputs]`.
///
/// Fails with `Empty` on an empty dataset, and otherwise with the error of
/// the first sample that lacks expected outputs or whose widths differ from
/// the first sample's.
pub fn prepare_dataset<T: Copy>(dataset: &Vec<Sample<T>>) -> (r: Result<
    (Matrix<T>, Matrix<T>),
    DatasetError,
>)
    ensures
        r is Ok <==> valid_dataset(dataset@),
        r matches Err(e) ==> reported_error(dataset@, e),
        r matches Ok((x, y)) ==> lays_out(dataset@, x, y),
{
    let n = dataset.len();
    if n == 0 {
        return Err(DatasetError::Empty);
    }
    let inputs_number = dataset[0].inputs.len();
    let outputs_number = match &dataset[0].outputs {
        Some(o) => o.len(),
        None => {
            proof {
                assert(sample_error(dataset@, 0) is Some);
            }
            return Err(DatasetError::MissingOutputs { index: 0 });
        },
    };
    let ghost ds = dataset@;
    let mut inputs: Vec<T> = Vec::new();
    let mut outputs: Vec<T> = Vec::new();
    let mut i: usize = 0;
    while i < n
        invariant
            n == ds.len(),
            ds == dataset@,
            n > 0,
            inputs_number == input_width(ds),
            outputs_number == output_width(ds),
            0 <= i <= n,
            forall|k: int| 0 <= k < i ==> #[trigger] sample_error(ds, k) is None,
            inputs@.len() == i * inputs_number,
            outputs@.len() == i * outputs_number,
            forall|k: int, j: int|
                0 <= k < i && 0 <= j < inputs_number ==> #[trigger] cell(
                    inputs@,
                    inputs_number as int,
                    k,
                    j,
                ) == ds[k].inputs()[j],
            forall|k: int, j: int|
                0 <= k < i && 0 <= j < outputs_number ==> #[trigger] cell(
                    outputs@,
                    outputs_number as int,
                    k,
                    j,
                ) == ds[k].outputs().unwrap()[j],
        decreases n - i,
    {
        let sample = &dataset[i];
        let sample_outputs = match &sample.outputs {
            Some(o) => o,
            None => {
                proof {
                    assert(sample_error(ds, i as int) is Some);
                }
                return Err(DatasetError::MissingOutputs { index: i });
            },
        };
        if sample.inputs.len() != inputs_number {
            proof {
                assert(sample_error(ds, i as int) is Some);
            }
            return Err(
                DatasetError::InputsCountMismatch {
                    index: i,
                    found: sample.inputs.len(),
                    expected: inputs_number,
                },
            );
        }
        let ghost before = inputs@;
        append_row(&mut inputs, &sample.inputs);
        proof {
            lemma_append_row(before, sample.inputs@, i as int, inputs_number as int);
        }
        if sample_outputs.len() != outputs_number {
            proof {
                assert(sample_error(ds, i as int) is Some);
            }
            return Err(
                DatasetError::OutputsCountMismatch {
                    index: i,
                    found: sample_outputs.len(),
                    expected: outputs_number,
                },
            );
        }
        let ghost before = outputs@;
        append_row(&mut outputs, sample_outputs);
        proof {
            lemma_append_row(before, sample_outputs@, i as int, outputs_number as int);
            assert(sample_error(ds, i as int) is None);
        }
        i += 1;
    }
    let x = Matrix::from_parts(Shape::new(n, inputs_number), inputs);
    let y = Matrix::from_parts(Shape::new(n, outputs_number), outputs);
    Ok((x, y))
}

} // verus!
