use vstd::prelude::*;

verus! {

/// A value of the host program that can be handed to the language.
pub trait Value {
    /// Whether the value stays with the host and is handed over by handle.
    fn is_foreign() -> (foreign: bool)
        default_ensures
            !foreign,
    {
        false
    }

    /// The number of bytes that the value takes.
    fn size() -> usize;
}

impl Value for i32 {
    fn size() -> (size: usize)
        ensures
            size == 4,
    {
        4
    }
}

impl Value for bool {
    fn size() -> (size: usize)
        ensures
            size == 1,
    {
        1
    }
}

} // verus!
