use vstd::prelude::*;

verus! {

/// What the parser expected and did not find.
#[derive(Debug, Clone, Copy, PartialEq, Eq)]
pub enum Error {
    Unknown,
    Unimplemented(&'static str),
    ExpectedFn,
    ExpectedEnum,
    ExpectedIntf,
    ExpectedCont,
    ExpectedOpenBlock,
    ExpectedOn,
    ExpectedAssign,
    ExpectedImport,
    ExpectedIdentifier,
    ExpectedColon,
    ExpectedComma,
    ExpectedOpenParan,
    ExpectedCloseParan,
    ExpectedType,
    ExpectedWhile,
    ExpectedVar,
    ExpectedSemicolon,
    MalformedExpression,
    MalformedImport,
}

/// The name of an error, with what is not implemented behind it.
pub open spec fn error_text(error: Error) -> Seq<char> {
    match error {
        Error::Unknown => "Unknown"@,
        Error::Unimplemented(what) => "Unimplemented: "@ + what@,
        Error::ExpectedFn => "ExpectedFn"@,
        Error::ExpectedEnum => "ExpectedEnum"@,
        Error::ExpectedIntf => "ExpectedIntf"@,
        Error::ExpectedCont => "ExpectedCont"@,
        Error::ExpectedOpenBlock => "ExpectedOpenBlock"@,
        Error::ExpectedOn => "ExpectedOn"@,
        Error::ExpectedAssign => "ExpectedAssign"@,
        Error::ExpectedImport => "ExpectedImport"@,
        Error::ExpectedIdentifier => "ExpectedIdentifier"@,
        Error::ExpectedColon => "ExpectedColon"@,
        Error::ExpectedComma => "ExpectedComma"@,
        Error::ExpectedOpenParan => "ExpectedOpenParan"@,
        Error::ExpectedCloseParan => "ExpectedCloseParan"@,
        Error::ExpectedType => "ExpectedType"@,
        Error::ExpectedWhile => "ExpectedWhile"@,
        Error::ExpectedVar => "ExpectedVar"@,
        Error::ExpectedSemicolon => "ExpectedSemicolon"@,
        Error::MalformedExpression => "MalformedExpression"@,
        Error::MalformedImport => "MalformedImport"@,
    }
}

impl Error {
    /// The name of the error, with what is not implemented behind it.
    pub fn to_string(&self) -> (text: String)
        ensures
            text@ == error_text(*self),
    {
        match self {
            Error::Unknown => String::from_str("Unknown"),
            Error::Unimplemented(what) => String::from_str("Unimplemented: ").concat(what),
            Error::ExpectedFn => String::from_str("ExpectedFn"),
            Error::ExpectedEnum => String::from_str("ExpectedEnum"),
            Error::ExpectedIntf => String::from_str("ExpectedIntf"),
            Error::ExpectedCont => String::from_str("ExpectedCont"),
            Error::ExpectedOpenBlock => String::from_str("ExpectedOpenBlock"),
            Error::ExpectedOn => String::from_str("ExpectedOn"),
            Error::ExpectedAssign => String::from_str("ExpectedAssign"),
            Error::ExpectedImport => String::from_str("ExpectedImport"),
            Error::ExpectedIdentifier => String::from_str("ExpectedIdentifier"),
            Error::ExpectedColon => String::from_str("ExpectedColon"),
            Error::ExpectedComma => String::from_str("ExpectedComma"),
            Error::ExpectedOpenParan => String::from_str("ExpectedOpenParan"),
            Error::ExpectedCloseParan => String::from_str("ExpectedCloseParan"),
            Error::ExpectedType => String::from_str("ExpectedType"),
            Error::ExpectedWhile => String::from_str("ExpectedWhile"),
            Error::ExpectedVar => String::from_str("ExpectedVar"),
            Error::ExpectedSemicolon => String::from_str("ExpectedSemicolon"),
            Error::MalformedExpression => String::from_str("MalformedExpression"),
            Error::MalformedImport => String::from_str("MalformedImport"),
        }
    }
}

} // verus!
