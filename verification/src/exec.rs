use crate::artifact::Artifact;
use vstd::prelude::*;

verus! {

/// A back end that executes what a compiler produced.
pub trait Executor {
    /// What the executor runs
    type Input: Artifact;

    /// Why the executor fails
    type Error;

    /// Gives the executor what it runs.
    fn set_input(&mut self, input: Self::Input);

    /// Runs the input from its start.
    fn run(&mut self) -> Result<(), Self::Error>;

    /// Runs the function of the input with the given name.
    fn run_fn(&mut self, fn_name: &str) -> Result<(), Self::Error>;
}

} // verus!
