//! Structural core of a dense and sparse linear-algebra toolkit: matrix
//! shapes and the checks on them, the layout of strided views and the
//! no-alias rule for multiply-accumulate, compressed-column sparsity
//! patterns, and the pattern-only (symbolic) stage of sparse LU.
pub mod error;
pub mod shape;
pub mod layout;
pub mod pattern;
pub mod symbolic;
