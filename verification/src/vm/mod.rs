//! The bytecode virtual machine: its code generator and its execution
//! core.

/// The boundary to native functions
pub mod adapter;
/// The code generator
pub mod codegen;
/// The execution core
pub mod exec;
