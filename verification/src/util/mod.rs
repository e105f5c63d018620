//! Helpers of the compiler.

/// Comparing texts
pub mod text;
/// Unique numbers
pub mod uid;
