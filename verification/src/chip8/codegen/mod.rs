//! Code generation for CHIP-8.

/// The compiler
pub mod compiler;
/// Errors of the compiler
pub mod error;
