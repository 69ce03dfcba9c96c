use vstd::prelude::*;

verus! {

/// The identity activation: `f(x) = x`, `f'(x) = 1`.
#[derive(Clone, Copy, Debug, PartialEq, Eq, Structural)]
pub struct Identity;

/// The logistic sigmoid, which squashes a real value into `]0, 1[`:
/// `f(x) = 1 / (1 + e^-x)`, `f'(x) = f(x) · (1 - f(x))`.
#[derive(Clone, Copy, Debug, PartialEq, Eq, Structural)]
pub struct Sigmoid;

/// The hyperbolic tangent, which squashes a real value into `]-1, 1[`:
/// `f(x) = tanh(x)`, `f'(x) = 1 - tanh(x)²`.
#[derive(Clone, Copy, Debug, PartialEq, Eq, Structural)]
pub struct TanH;

/// The rectified linear unit, which replaces negative values with 0:
/// `f(x) = x` for `x ≥ 0`, else 0; `f'(x) = 1` for `x ≥ 0`, else 0.
#[derive(Clone, Copy, Debug, PartialEq, Eq, Structural)]
pub struct Rectifier;

} // verus!
