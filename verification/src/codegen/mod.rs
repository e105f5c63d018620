//! What the code generators share: the declaration pass, the definitions
//! it builds, and the contexts of a function that is being compiled.

/// Stack and function contexts
pub mod ctx;
/// The declaration pass
pub mod decl;
/// Definitions of declared items
pub mod def;
