use vstd::prelude::*;

verus! {

/// The recoverable failures of the propagation engine.
#[derive(Clone, Copy, Debug, PartialEq, Eq, Structural)]
pub enum NetworkError {
    /// Two matrices whose dimensions must agree do not: `found` is the
    /// dimension that was given, `expected` the one that was required.
    ShapeMismatch { found: usize, expected: usize },
    /// A cost or a gradient was asked for without a prior forward pass over
    /// the same number of samples: `cached` is the sample count of the last
    /// forward pass, if any, and `requested` the one asked for.
    StaleState { cached: Option<usize>, requested: usize },
    /// The network holds no layer.
    EmptyTopology,
}

} // verus!
