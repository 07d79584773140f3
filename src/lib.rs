//! Dense integer matrices with shape-checked arithmetic, and a fully connected
//! feed-forward network built on them.
//!
//! Entries are `i64` and all arithmetic wraps in two's complement, so every
//! operation is total on well-shaped operands and the ring laws hold exactly.
pub mod algebra;
pub mod matrix;
pub mod network;

pub use matrix::{Matrix, MatrixError};
pub use network::{Network, NetworkError};

