//! Definitions of declared items.

/// Container definitions
pub mod cont;
/// Enum definitions
pub mod enums;
/// Function definitions
pub mod fun;
/// Module definitions
pub mod module;

pub use cont::ContDef;
pub use fun::FunctionDef;
pub use module::ModuleDef;
