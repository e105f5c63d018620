use crate::artifact::Artifact as ArtifactTrait;
use vstd::prelude::*;

verus! {

/// The artifact of the CHIP-8 back end.
pub struct Artifact;

impl ArtifactTrait for Artifact {
    fn supports_aot() -> (supported: bool)
        ensures
            supported,
    {
        true
    }
}

} // verus!
