//! The engine: a parser, a compiler and an executor behind one interface.

/// Pairs of a compiler and an executor
pub mod comp_exec;
/// Errors of the engine
pub mod error;

use crate::codegen::decl::{declared_from, path_of};
use crate::parser::ast::{DeclarationModel};
use crate::parser::error::Error as ParseError;
use crate::parser::grammar::{declarations_from};
use crate::parser::lexer::tokens_of;
use crate::parser::Parser;
use crate::vm::codegen::compiler::Compiler as VmCompiler;
use crate::vm::codegen::error::ErrorModel as CompileErrorModel;
use crate::vm::codegen::lowering::{program_code, Program};
use crate::vm::exec::vmcore::Core as VmExec;
use comp_exec::CompExecPair;
use error::{Error, ErrorModel};
use vstd::prelude::*;

verus! {

/// The engine.
pub struct Engine {
    comp_exec_pair: CompExecPair,
}

/// What parsing a source text gives: the declarations, or the error.
pub open spec fn parsed(code: Seq<char>) -> Result<Seq<DeclarationModel>, ParseError> {
    match declarations_from(tokens_of(code), 0, Seq::empty(), Seq::empty(), Seq::empty()) {
        Ok(parsed) => Ok(parsed.value),
        Err(error) => Err(error),
    }
}

/// What compiling declarations behind `program` gives with a compiler that
/// has declared `declared`: the program, or the error.
pub open spec fn compiled(
    declared: crate::codegen::decl::Declared,
    program: Program,
    decls: Seq<DeclarationModel>,
) -> Result<Program, CompileErrorModel> {
    match declared_from(declared, decls, 0) {
        Err(_) => Err(CompileErrorModel::Unknown),
        Ok(state) => if state.stack.len() != 1 {
            Err(CompileErrorModel::Unknown)
        } else {
            program_code(path_of(state.stack), decls, 0, program)
        },
    }
}

/// What loading a source text gives: the program, or the error of the
/// parser or of the compiler.
pub open spec fn loaded(
    declared: crate::codegen::decl::Declared,
    program: Program,
    code: Seq<char>,
) -> Result<Program, ErrorModel> {
    match parsed(code) {
        Err(error) => Err(ErrorModel::ParseError(error)),
        Ok(decls) => match compiled(declared, program, decls) {
            Err(error) => Err(ErrorModel::VmCompileError(error)),
            Ok(program) => Ok(program),
        },
    }
}

impl Engine {
    /// The compiler of the engine.
    pub closed spec fn compiler(&self) -> VmCompiler {
        self.comp_exec_pair->VM_0
    }

    /// The engine is well formed.
    pub closed spec fn wf(&self) -> bool {
        self.comp_exec_pair is VM && self.compiler().wf()
    }

    /// Creates a new engine with the bytecode interpreter backend
    pub fn new_vm(stack_size: usize) -> (engine: Engine)
        requires
            stack_size < 0x2000_0000_0000_0000,
        ensures
            engine.wf(),
            engine.compiler().program() == (Program { code: Seq::empty(), labels: Seq::empty() }),
            engine.compiler().declared().next_label == 0,
    {
        Engine { comp_exec_pair: CompExecPair::VM(VmCompiler::new(), VmExec::new(stack_size)) }
    }

    /// Loads a piece of code: the code is parsed, declared and compiled
    /// behind what was compiled before.
    pub fn load_code(&mut self, code: &str) -> (result: Result<(), Error>)
        requires
            old(self).wf(),
        ensures
            final(self).wf(),
            match loaded(old(self).compiler().declared(), old(self).compiler().program(), code@) {
                Ok(program) => result is Ok && final(self).compiler().program() == program,
                Err(error) => result matches Err(found) && found@ == error,
            },
    {
        let mut parser = Parser::new(code);
        let decl_list = match parser.parse() {
            Ok(decl_list) => decl_list,
            Err(error) => {
                return Err(Error::ParseError(error));
            },
        };
        self.comp_exec_pair.compile(&decl_list)
    }

    /// Runs a piece of code. It is loaded; nothing is executed yet.
    pub fn run_code(&mut self, code: &str) -> (result: Result<(), Error>)
        requires
            old(self).wf(),
        ensures
            final(self).wf(),
            match loaded(old(self).compiler().declared(), old(self).compiler().program(), code@) {
                Ok(program) => result is Ok && final(self).compiler().program() == program,
                Err(error) => result matches Err(found) && found@ == error,
            },
    {
        self.load_code(code)
    }

    /// The artifact of what was loaded.
    pub fn get_output(&mut self) -> (output: crate::vm::codegen::output::Output)
        requires
            old(self).wf(),
        ensures
            final(self).wf(),
            old(self).compiler().built(output),
            final(self).compiler().program() == (Program {
                code: Seq::empty(),
                labels: Seq::empty(),
            }),
            final(self).compiler().declared() == old(self).compiler().declared(),
    {
        match &mut self.comp_exec_pair {
            CompExecPair::VM(compiler, _) => compiler.get_output(),
        }
    }
}

} // verus!
