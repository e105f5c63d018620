use crate::parser::error::Error as ParseError;
use crate::vm::codegen::error::{Error as VmCompileError, ErrorModel as VmCompileErrorModel};
use crate::vm::exec::vmcore::CoreError as VmCoreError;
use vstd::prelude::*;

verus! {

/// Why the engine fails.
#[derive(Debug)]
pub enum Error {
    VmCompileError(VmCompileError),
    VmCoreError(VmCoreError),
    ParseError(ParseError),
}

/// The model of an [`Error`].
pub enum ErrorModel {
    VmCompileError(VmCompileErrorModel),
    VmCoreError(VmCoreError),
    ParseError(ParseError),
}

impl View for Error {
    type V = ErrorModel;

    open spec fn view(&self) -> ErrorModel {
        match self {
            Error::VmCompileError(error) => ErrorModel::VmCompileError(error@),
            Error::VmCoreError(error) => ErrorModel::VmCoreError(*error),
            Error::ParseError(error) => ErrorModel::ParseError(*error),
        }
    }
}

impl Error {
    /// The stage that failed and the name of its error.
    pub fn to_string(&self) -> (text: String)
        ensures
            text@ == match self {
                Error::VmCompileError(error) => "VmCompileError: "@
                    + crate::vm::codegen::error::error_text(error@),
                Error::VmCoreError(_) => "VmCoreError"@,
                Error::ParseError(error) => "ParseError: "@ + crate::parser::error::error_text(
                    *error,
                ),
            },
    {
        match self {
            Error::VmCompileError(error) => {
                let name = error.to_string();
                String::from_str("VmCompileError: ").concat(name.as_str())
            },
            Error::VmCoreError(_) => String::from_str("VmCoreError"),
            Error::ParseError(error) => {
                let name = error.to_string();
                String::from_str("ParseError: ").concat(name.as_str())
            },
        }
    }

    /// The error of the engine that an error of the parser is.
    pub fn from_parse(error: ParseError) -> (engine_error: Error)
        ensures
            engine_error@ == ErrorModel::ParseError(error),
    {
        Error::ParseError(error)
    }

    /// The error of the engine that an error of the core is.
    pub fn from_core(error: VmCoreError) -> (engine_error: Error)
        ensures
            engine_error@ == ErrorModel::VmCoreError(error),
    {
        Error::VmCoreError(error)
    }

    /// The error of the engine that an error of the compiler is.
    pub fn from_compile(error: VmCompileError) -> (engine_error: Error)
        ensures
            engine_error@ == ErrorModel::VmCompileError(error@),
    {
        Error::VmCompileError(error)
    }
}

} // verus!
