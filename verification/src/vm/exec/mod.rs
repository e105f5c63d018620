//! Execution of bytecode.

/// Tagged addresses
pub mod address;
/// The execution core
pub mod vmcore;
/// The instruction set
pub mod is;
