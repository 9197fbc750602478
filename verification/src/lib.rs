//! A small feed-forward neural network engine with verified orchestration.
//!
//! A network is an ordered pipeline of layers. Each layer maps an input vector
//! forward to an output vector, maps an output-side gradient backward to an
//! input-side gradient, and can take one gradient-descent step on its own
//! parameters. The network chains these operations: `predict` runs the layers
//! forward, `learn` runs one forward and one backward pass over a single
//! sample, and `train` repeats `learn` over a dataset.
//!
//! All arithmetic goes through the [`scalar::Scalar`] trait, so the engine runs
//! on any number type that supplies the operations. The crate brings one such
//! type, the fixed-point number [`fixed::Fixed`].
//!
//! - [`scalar`]: the arithmetic that the engine is written against.
//! - [`fixed`]: saturating fixed-point numbers.
//! - [`layer`]: the capability that every layer offers.
//! - [`fully_connected`]: the dense affine layer.
//! - [`activation`]: the elementwise activation layer and stock functions.
//! - [`stage`]: one layer of either kind, for networks that mix them.
//! - [`initial`]: random initial parameters.
//! - [`errors`]: loss contracts and the mean squared error.
//! - [`network`]: the network with `predict`, `learn` and `train`.
pub mod scalar;
pub mod fixed;
pub mod layer;
pub mod errors;
pub mod network;
pub mod initial;
pub mod fully_connected;
pub mod activation;
pub mod stage;
