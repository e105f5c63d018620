use super::error::Error;
use crate::api::module::Module;
use crate::chip8::artifact::Artifact;
use crate::compiler::Compiler as CompilerTrait;
use crate::parser::ast::Declaration;
use vstd::prelude::*;

verus! {

/// The compiler of the CHIP-8 back end.
pub struct Compiler {}

impl Default for Compiler {
    fn default() -> Self {
        Self {  }
    }
}

impl CompilerTrait for Compiler {
    type Output = Artifact;

    type Error = Error;

    /// Nothing is compiled yet.
    fn compile(&mut self, _decl_list: &Vec<Declaration>) -> (result: Result<(), Self::Error>)
        ensures
            result matches Err(Error::Unimplemented(what)) && what@ == "Not implemented yet"@,
    {
        Err(Error::Unimplemented(String::from_str("Not implemented yet")))
    }

    fn get_output(&mut self) -> Self::Output {
        Artifact
    }

    /// No module can be registered yet.
    fn register_module(&mut self, _module: Module) -> (result: Result<(), Self::Error>)
        ensures
            result matches Err(Error::Unknown),
    {
        Err(Error::Unknown)
    }
}

} // verus!
