use vstd::prelude::*;

verus! {

/// What a compiler hands to an executor.
pub trait Artifact {
    /// Whether the artifact can be compiled ahead of time.
    fn supports_aot() -> (supported: bool)
        default_ensures
            !supported,
    {
        false
    }
}

} // verus!
