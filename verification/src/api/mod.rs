//! What a host program declares to the language: native functions and the
//! modules that hold them.

/// Native functions
pub mod function;
/// Modules of native functions
pub mod module;
/// Values that cross the boundary
pub mod value;
/// Types of native functions
pub mod var_type;
