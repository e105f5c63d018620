use super::compiled;
use super::error::{Error, ErrorModel};
use crate::parser::ast::{declarations_model, Declaration};
use crate::vm::codegen::compiler::Compiler as VmCompiler;
use crate::vm::exec::vmcore::Core as VmCore;
use vstd::prelude::*;

verus! {

/// A compiler and the executor that runs what it compiles.
pub enum CompExecPair {
    VM(VmCompiler, VmCore),
}

impl CompExecPair {
    /// Compiles a declaration list according to the chosen backend
    pub fn compile(&mut self, decl_list: &Vec<Declaration>) -> (result: Result<(), Error>)
        requires
            *old(self) matches CompExecPair::VM(compiler, _) && compiler.wf(),
        ensures
            *final(self) matches CompExecPair::VM(compiler, _) && compiler.wf(),
            match compiled(
                old(self)->VM_0.declared(),
                old(self)->VM_0.program(),
                declarations_model(decl_list),
            ) {
                Ok(program) => result is Ok && final(self)->VM_0.program() == program,
                Err(error) => result matches Err(found) && found@ == ErrorModel::VmCompileError(
                    error,
                ),
            },
    {
        match self {
            CompExecPair::VM(compiler, _) => match compiler.compile(decl_list) {
                Ok(_) => Ok(()),
                Err(error) => Err(Error::VmCompileError(error)),
            },
        }
    }
}

} // verus!
