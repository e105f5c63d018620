//! Generation of bytecode.

/// The assembler
pub mod assembler;
/// The compiler
pub mod compiler;
/// Errors of the code generator
pub mod error;
/// Instructions
pub mod instruction;
/// What the code generator emits
pub mod lowering;
/// The compiled artifact
pub mod output;
/// Registers
pub mod register;
