use crate::api::module::Module;
use crate::parser::ast::Declaration;
use vstd::prelude::*;

verus! {

/// A back end that compiles declarations.
pub trait Compiler {
    /// What the compiler produces
    type Output;

    /// Why the compiler fails
    type Error;

    /// Compiles the declarations of a list.
    fn compile(&mut self, decl_list: &Vec<Declaration>) -> Result<(), Self::Error>;

    /// Hands out what was compiled.
    fn get_output(&mut self) -> Self::Output;

    /// Makes the native functions of a module known to the compiler.
    fn register_module(&mut self, module: Module) -> Result<(), Self::Error>;
}

} // verus!
