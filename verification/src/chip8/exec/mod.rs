//! Execution on CHIP-8.

/// The execution core
pub mod vmcore;
