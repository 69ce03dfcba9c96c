//! The shape and state engine of a dense feed-forward neural network: matrix
//! shapes through forward and backward propagation, the per-layer cache that
//! makes a cost or a gradient valid, network topologies assembled layer by
//! layer, and training datasets laid out as matrices.

pub mod activation;
pub mod builder;
pub mod error;
pub mod layer;
pub mod matrix;
pub mod network;
pub mod sample;
pub mod shape;
pub mod trainer;
