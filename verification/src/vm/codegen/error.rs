use crate::parser::ast::{Type, TypeModel};
use vstd::prelude::*;

verus! {

/// Why code could not be generated.
#[derive(Debug)]
pub enum Error {
    Unknown,
    TypeMismatch(Type, Type),
    UnknownType(Type),
    Unimplemented(&'static str),
}

/// The model of an [`Error`].
pub enum ErrorModel {
    Unknown,
    TypeMismatch(TypeModel, TypeModel),
    UnknownType(TypeModel),
    Unimplemented(&'static str),
}

impl View for Error {
    type V = ErrorModel;

    open spec fn view(&self) -> ErrorModel {
        match self {
            Error::Unknown => ErrorModel::Unknown,
            Error::TypeMismatch(expected, actual) => ErrorModel::TypeMismatch(expected@, actual@),
            Error::UnknownType(unknown) => ErrorModel::UnknownType(unknown@),
            Error::Unimplemented(what) => ErrorModel::Unimplemented(what),
        }
    }
}

/// The name of an error, with what is not implemented behind it.
pub open spec fn error_text(error: ErrorModel) -> Seq<char> {
    match error {
        ErrorModel::Unknown => "Unknown"@,
        ErrorModel::TypeMismatch(_, _) => "TypeMismatch"@,
        ErrorModel::UnknownType(_) => "UnknownType"@,
        ErrorModel::Unimplemented(what) => "Unimplemented: "@ + what@,
    }
}

impl Error {
    /// The error of a failed declaration pass.
    pub fn from(_error: ()) -> (error: Error)
        ensures
            error@ == ErrorModel::Unknown,
    {
        Error::Unknown
    }

    /// The name of the error, with what is not implemented behind it.
    pub fn to_string(&self) -> (text: String)
        ensures
            text@ == error_text(self@),
    {
        match self {
            Error::Unknown => String::from_str("Unknown"),
            Error::TypeMismatch(_, _) => String::from_str("TypeMismatch"),
            Error::UnknownType(_) => String::from_str("UnknownType"),
            Error::Unimplemented(what) => String::from_str("Unimplemented: ").concat(what),
        }
    }
}

} // verus!
