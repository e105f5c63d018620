//! Front end and bytecode back end of the Mess scripting language: lexer,
//! parser, declaration pass, stack-frame code generator, assembler and the
//! tagged-address scheme of the virtual machine.

pub mod api;
pub mod artifact;
pub mod chip8;
pub mod codegen;
pub mod compiler;
pub mod engine;
pub mod exec;
pub mod options;
pub mod parser;
pub mod util;
pub mod vm;
