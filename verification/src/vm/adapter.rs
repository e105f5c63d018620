//! The boundary between a native function and the execution core.

use crate::api::function::Function;
use crate::vm::exec::vmcore::{word_at, Core, CoreModel, RETURN_REGISTER};
use vstd::prelude::*;

verus! {

/// What a native function sees of the core while it runs.
pub struct Adapter<'c> {
    function: Function,
    machine: &'c mut Core,
}

impl<'c> Adapter<'c> {
    /// An adapter of the native function `func` on the core `machine`.
    pub fn new(func: &Function, machine: &'c mut Core) -> (adapter: Self)
        ensures
            adapter.function()@ == func@,
            adapter.state() == old(machine)@,
    {
        Self { function: func.duplicate(), machine }
    }

    /// The native function of this adapter.
    pub closed spec fn function(&self) -> Function {
        self.function
    }

    /// The core as the native function sees it.
    pub closed spec fn state(&self) -> CoreModel {
        self.machine@
    }

    /// Hands the result of the native function to the core: the eight bytes
    /// are put, the low byte first, into the register that holds results.
    pub fn ret(&mut self, bytes: &[u8])
        requires
            bytes@.len() == 8,
            crate::vm::exec::vmcore::well_formed(old(self).state()),
        ensures
            final(self).function() == old(self).function(),
            final(self).state() == (CoreModel {
                registers: old(self).state().registers.update(
                    RETURN_REGISTER as int,
                    word_at(bytes@, 0, 8),
                ),
                ..old(self).state()
            }),
    {
        let mut value: u64 = 0;
        let mut left: usize = 8;
        while left > 0
            invariant
                left <= 8,
                bytes@.len() == 8,
                value == word_at(bytes@, left as int, 8 - left),
            decreases left,
        {
            left -= 1;
            value = (value << 8) | (bytes[left] as u64);
        }
        let _ = self.machine.set_reg(0, value);
    }
}

} // verus!
