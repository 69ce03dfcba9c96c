use vstd::prelude::*;

use crate::error::NetworkError;
use crate::shape::Shape;

verus! {

/// The weight layout of one network stage.
///
/// A single-stage layer maps its inputs to its outputs through one weight
/// matrix `[inputs × outputs]`. A two-stage layer first maps its inputs to a
/// hidden row of neurons through `[inputs × neurons]`, then the activated
/// neurons to its outputs through `[neurons × outputs]`.
#[derive(Clone, Copy, Debug, PartialEq, Eq, Structural)]
pub enum LayerShape {
    SingleStage { inputs: usize, outputs: usize },
    TwoStage { inputs: usize, neurons: usize, outputs: usize },
}

/// The shapes of the cost gradients of one layer, one per weight matrix, and
/// of the error signal handed on to the layer that feeds it.
#[derive(Clone, Copy, Debug, PartialEq, Eq, Structural)]
pub struct Backprop {
    /// Shape of the gradient with respect to the first (or only) weight matrix.
    pub input_gradient: Shape,
    /// Shape of the gradient with respect to the output weight matrix, for a
    /// two-stage layer.
    pub output_gradient: Option<Shape>,
    /// Shape of the error with respect to the layer's inputs:
    /// `[samples × inputs]`.
    pub downstream: Shape,
}

impl LayerShape {
    /// Width of the inputs the layer accepts.
    pub open spec fn inputs(self) -> usize {
        match self {
            LayerShape::SingleStage { inputs, .. } => inputs,
            LayerShape::TwoStage { inputs, .. } => inputs,
        }
    }

    /// Width of the outputs the layer produces.
    pub open spec fn outputs(self) -> usize {
        match self {
            LayerShape::SingleStage { outputs, .. } => outputs,
            LayerShape::TwoStage { outputs, .. } => outputs,
        }
    }

    /// Shape of the first (or only) weight matrix.
    pub open spec fn input_weights(self) -> Shape {
        match self {
            LayerShape::SingleStage { inputs, outputs } => Shape { rows: inputs, cols: outputs },
            LayerShape::TwoStage { inputs, neurons, .. } => Shape { rows: inputs, cols: neurons },
        }
    }

    /// Shape of the output weight matrix of a two-stage layer.
    pub open spec fn output_weights(self) -> Option<Shape> {
        match self {
            LayerShape::SingleStage { .. } => None,
            LayerShape::TwoStage { neurons, outputs, .. } => Some(
                Shape { rows: neurons, cols: outputs },
            ),
        }
    }

    /// A single-stage layer whose weight matrix has the given shape.
    pub fn single_stage(weights: Shape) -> (r: LayerShape)
        ensures
            r == (LayerShape::SingleStage { inputs: weights.rows, outputs: weights.cols }),
            r.input_weights() == weights,
            r.output_weights() == None::<Shape>,
    {
        LayerShape::SingleStage { inputs: weights.rows, outputs: weights.cols }
    }

    /// A two-stage layer from the shapes of its two weight matrices; fails with
    /// `ShapeMismatch` exactly when the first one's columns are not the second
    /// one's rows.
    pub fn two_stage(input_weights: Shape, output_weights: Shape) -> (r: Result<
        LayerShape,
        NetworkError,
    >)
        ensures
            input_weights.cols == output_weights.rows ==> r == Ok::<LayerShape, NetworkError>(
                LayerShape::TwoStage {
                    inputs: input_weights.rows,
                    neurons: input_weights.cols,
                    outputs: output_weights.cols,
                },
            ),
            input_weights.cols != output_weights.rows ==> r == Err::<LayerShape, NetworkError>(
                NetworkError::ShapeMismatch {
                    found: input_weights.cols,
                    expected: output_weights.rows,
                },
            ),
            r matches Ok(l) ==> l.input_weights() == input_weights && l.output_weights() == Some(
                output_weights,
            ),
    {
        if input_weights.cols == output_weights.rows {
            Ok(
                LayerShape::TwoStage {
                    inputs: input_weights.rows,
                    neurons: input_weights.cols,
                    outputs: output_weights.cols,
                },
            )
        } else {
            Err(
                NetworkError::ShapeMismatch {
                    found: input_weights.cols,
                    expected: output_weights.rows,
                },
            )
        }
    }

    pub fn input_width(&self) -> (r: usize)
        ensures
            r == self.inputs(),
    {
        match self {
            LayerShape::SingleStage { inputs, .. } => *inputs,
            LayerShape::TwoStage { inputs, .. } => *inputs,
        }
    }

    pub fn output_width(&self) -> (r: usize)
        ensures
            r == self.outputs(),
    {
        match self {
            LayerShape::SingleStage { outputs, .. } => *outputs,
            LayerShape::TwoStage { outputs, .. } => *outputs,
        }
    }

    /// What a forward pass over `inputs` yields: the output shape
    /// `[samples × outputs]`, or `ShapeMismatch` when the inputs' width is not
    /// the layer's.
    pub open spec fn spec_forward(self, inputs: Shape) -> Result<Shape, NetworkError> {
        if inputs.cols == self.inputs() {
            Ok(Shape { rows: inputs.rows, cols: self.outputs() })
        } else {
            Err(NetworkError::ShapeMismatch { found: inputs.cols, expected: self.inputs() })
        }
    }

    /// The output shape of a forward pass over inputs of shape `inputs`,
    /// derived stage by stage from the weight shapes.
    pub fn forward(&self, inputs: Shape) -> (r: Result<Shape, NetworkError>)
        ensures
            r == self.spec_forward(inputs),
    {
        match self {
            LayerShape::SingleStage { inputs: i, outputs: o } => {
                let weights = Shape::new(*i, *o);
                inputs.product(&weights)
            },
            LayerShape::TwoStage { inputs: i, neurons: n, outputs: o } => {
                let input_weights = Shape::new(*i, *n);
                let output_weights = Shape::new(*n, *o);
                match inputs.product(&input_weights) {
                    Err(e) => Err(e),
                    Ok(hidden) => hidden.product(&output_weights),
                }
            },
        }
    }

    /// What the backward pass yields for the layer's `inputs` and the error
    /// signal `error` with respect to its outputs: gradients shaped like the
    /// weight matrices and a downstream error shaped like the inputs, or
    /// `ShapeMismatch` when the inputs' width or the error's width is not the
    /// layer's. The sample counts are checked by `LayerState::backward`.
    pub open spec fn spec_backward(self, inputs: Shape, error: Shape) -> Result<
        Backprop,
        NetworkError,
    > {
        if inputs.cols != self.inputs() {
            Err(NetworkError::ShapeMismatch { found: inputs.cols, expected: self.inputs() })
        } else if error.cols != self.outputs() {
            Err(NetworkError::ShapeMismatch { found: error.cols, expected: self.outputs() })
        } else {
            Ok(
                Backprop {
                    input_gradient: self.input_weights(),
                    output_gradient: self.output_weights(),
                    downstream: Shape { rows: inputs.rows, cols: self.inputs() },
                },
            )
        }
    }

    /// The shapes of the backward pass, derived by the chain rule from the
    /// shapes of the products it takes.
    pub fn backward(&self, inputs: Shape, error: Shape) -> (r: Result<Backprop, NetworkError>)
        requires
            inputs.rows == error.rows,
        ensures
            r == self.spec_backward(inputs, error),
    {
        if inputs.cols != self.input_width() {
            return Err(
                NetworkError::ShapeMismatch { found: inputs.cols, expected: self.input_width() },
            );
        }
        if error.cols != self.output_width() {
            return Err(
                NetworkError::ShapeMismatch { found: error.cols, expected: self.output_width() },
            );
        }
        match self {
            LayerShape::SingleStage { inputs: i, outputs: o } => {
                let weights = Shape::new(*i, *o);
                // dCost/dWeights = inputsᵗ · error
                let gradient = inputs.transposed().product(&error);
                // error going into the previous layer = error · weightsᵗ
                let downstream = error.product(&weights.transposed());
                match (gradient, downstream) {
                    (Ok(g), Ok(d)) => Ok(
                        Backprop { input_gradient: g, output_gradient: None, downstream: d },
                    ),
                    (Err(e), _) => Err(e),
                    (_, Err(e)) => Err(e),
                }
            },
            LayerShape::TwoStage { inputs: i, neurons: n, outputs: o } => {
                let input_weights = Shape::new(*i, *n);
                let output_weights = Shape::new(*n, *o);
                let hidden = Shape::new(inputs.rows, *n);
                // dCost/dOutputWeights = activated_hiddenᵗ · output_error
                let output_gradient = hidden.transposed().product(&error);
                // hidden_error = output_error · output_weightsᵗ
                let hidden_error = error.product(&output_weights.transposed());
                match (output_gradient, hidden_error) {
                    (Ok(og), Ok(he)) => {
                        // dCost/dInputWeights = inputsᵗ · hidden_error
                        let input_gradient = inputs.transposed().product(&he);
                        let downstream = he.product(&input_weights.transposed());
                        match (input_gradient, downstream) {
                            (Ok(ig), Ok(d)) => Ok(
                                Backprop {
                                    input_gradient: ig,
                                    output_gradient: Some(og),
                                    downstream: d,
                                },
                            ),
                            (Err(e), _) => Err(e),
                            (_, Err(e)) => Err(e),
                        }
                    },
                    (Err(e), _) => Err(e),
                    (_, Err(e)) => Err(e),
                }
            },
        }
    }
}

/// The bookkeeping of one layer: its weight layout and the sample count of
/// the forward pass whose intermediate results the layer holds, if any.
///
/// A cost or a gradient is only defined for the intermediate results of a
/// forward pass over the same samples; the cached count is what tells.
#[derive(Clone, Copy, Debug)]
pub struct LayerState {
    shape: LayerShape,
    cached_samples: Option<usize>,
}

impl LayerState {
    pub closed spec fn layout(self) -> LayerShape {
        self.shape
    }

    pub closed spec fn cached(self) -> Option<usize> {
        self.cached_samples
    }

    /// A layer that has not run forward yet.
    pub fn new(shape: LayerShape) -> (r: LayerState)
        ensures
            r.layout() == shape,
            r.cached() == None::<usize>,
    {
        LayerState { shape, cached_samples: None }
    }

    pub fn shape(&self) -> (r: LayerShape)
        ensures
            r == self.layout(),
    {
        self.shape
    }

    pub fn cached_samples(&self) -> (r: Option<usize>)
        ensures
            r == self.cached(),
    {
        self.cached_samples
    }

    /// Checks a forward pass over inputs of shape `inputs` and returns the
    /// output shape. On success the layer now holds the results of a pass
    /// over `inputs.rows` samples; on `ShapeMismatch` it is left as it was.
    pub fn forward(&mut self, inputs: Shape) -> (r: Result<Shape, NetworkError>)
        ensures
            r == old(self).layout().spec_forward(inputs),
            inputs.cols != old(self).layout().inputs() ==> r == Err::<Shape, NetworkError>(
                NetworkError::ShapeMismatch {
                    found: inputs.cols,
                    expected: old(self).layout().inputs(),
                },
            ),
            final(self).layout() == old(self).layout(),
            r is Ok ==> final(self).cached() == Some(inputs.rows),
            r is Err ==> final(self).cached() == old(self).cached(),
    {
        let r = self.shape.forward(inputs);
        if r.is_ok() {
            self.cached_samples = Some(inputs.rows);
        }
        r
    }

    /// Records a forward pass over `samples` samples whose shapes were
    /// already accepted.
    pub(crate) fn record_pass(&mut self, samples: usize)
        ensures
            final(self).layout() == old(self).layout(),
            final(self).cached() == Some(samples),
    {
        self.cached_samples = Some(samples);
    }

    /// `StaleState` unless the layer holds a forward pass over `samples`
    /// samples.
    pub open spec fn spec_fresh(self, samples: usize) -> Result<(), NetworkError> {
        if self.cached() == Some(samples) {
            Ok(())
        } else {
            Err(NetworkError::StaleState { cached: self.cached(), requested: samples })
        }
    }

    fn fresh(&self, samples: usize) -> (r: Result<(), NetworkError>)
        ensures
            r == self.spec_fresh(samples),
    {
        match self.cached_samples {
            Some(c) if c == samples => Ok(()),
            _ => Err(NetworkError::StaleState { cached: self.cached_samples, requested: samples }),
        }
    }

    /// What the per-output cost against expected outputs of shape `expected`
    /// yields: the length of the cost vector, which is the layer's output
    /// width.
    pub open spec fn spec_cost(self, expected: Shape) -> Result<usize, NetworkError> {
        match self.spec_fresh(expected.rows) {
            Err(e) => Err(e),
            Ok(_) => if expected.cols != self.layout().outputs() {
                Err(
                    NetworkError::ShapeMismatch {
                        found: expected.cols,
                        expected: self.layout().outputs(),
                    },
                )
            } else {
                Ok(self.layout().outputs())
            },
        }
    }

    /// Checks a cost computation against expected outputs of shape `expected`:
    /// `StaleState` unless the last forward pass ran over as many samples,
    /// then `ShapeMismatch` unless the widths agree.
    pub fn cost(&self, expected: Shape) -> (r: Result<usize, NetworkError>)
        ensures
            r == self.spec_cost(expected),
    {
        match self.fresh(expected.rows) {
            Err(e) => Err(e),
            Ok(_) => {
                let outputs = self.shape.output_width();
                if expected.cols != outputs {
                    Err(NetworkError::ShapeMismatch { found: expected.cols, expected: outputs })
                } else {
                    Ok(outputs)
                }
            },
        }
    }

    /// What a backward pass yields for the layer's `inputs` and the error
    /// signal `error` with respect to its outputs (for the last layer, the
    /// expected outputs).
    pub open spec fn spec_backward(self, inputs: Shape, error: Shape) -> Result<
        Backprop,
        NetworkError,
    > {
        match self.spec_fresh(inputs.rows) {
            Err(e) => Err(e),
            Ok(_) => match self.spec_fresh(error.rows) {
                Err(e) => Err(e),
                Ok(_) => self.layout().spec_backward(inputs, error),
            },
        }
    }

    /// Checks a backward pass: `StaleState` unless the last forward pass ran
    /// over the samples of both `inputs` and `error`, then `ShapeMismatch`
    /// unless their widths are the layer's; on success, the gradients have the
    /// shapes of the weight matrices.
    pub fn backward(&self, inputs: Shape, error: Shape) -> (r: Result<Backprop, NetworkError>)
        ensures
            r == self.spec_backward(inputs, error),
            r matches Ok(b) ==> b.input_gradient == self.layout().input_weights()
                && b.output_gradient == self.layout().output_weights()
                && b.downstream == (Shape { rows: inputs.rows, cols: self.layout().inputs() }),
    {
        match self.fresh(inputs.rows) {
            Err(e) => Err(e),
            Ok(_) => match self.fresh(error.rows) {
                Err(e) => Err(e),
                Ok(_) => self.shape.backward(inputs, error),
            },
        }
    }
}

} // verus!
