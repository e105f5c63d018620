//! The CHIP-8 back end, which compiles nothing yet.

/// The artifact of the back end
pub mod artifact;
/// The code generator of the back end
pub mod codegen;
/// The execution core of the back end
pub mod exec;
