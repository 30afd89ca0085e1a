//! Cholesky decomposition and triangular solves over a generic scalar, dense
//! matrices, permutations, and an elementwise matrix comparison engine with
//! exact and absolute-tolerance comparators.
pub mod cholesky;
pub mod comparison;
pub mod error;
pub mod matrix;
pub mod permutation;
pub mod text;
