//! A verified numeric engine for a small matrix calculator: a dense
//! real-valued matrix type with elementary linear-algebra operations, a
//! tagged scalar/matrix value type with polymorphic arithmetic dispatch,
//! and a linear-system solver that classifies and solves `Ax = b`.
//!
//! Every number is carried as the 64-bit pattern of an IEEE 754 double;
//! the primitive rounding arithmetic lives behind the trusted wrappers of
//! the `fp` module, and every contract is stated over the names those
//! wrappers give their results.

pub mod error;
pub mod fp;
pub mod functions;
pub mod matrix;
pub mod ops;
pub mod solver;
pub mod utils;
pub mod value;
