use vstd::prelude::*;

verus! {

/// Why the CHIP-8 back end fails.
#[derive(Debug)]
pub enum Error {
    Unknown,
    Unimplemented(String),
}

impl Error {
    /// The error as a text.
    pub fn to_string(&self) -> (text: String)
        ensures
            match self {
                Error::Unknown => text@ == "Unknown"@,
                Error::Unimplemented(what) => text@ == "Unimplemented: "@ + what@,
            },
    {
        match self {
            Error::Unknown => String::from_str("Unknown"),
            Error::Unimplemented(what) => String::from_str("Unimplemented: ").concat(what.as_str()),
        }
    }
}

} // verus!
