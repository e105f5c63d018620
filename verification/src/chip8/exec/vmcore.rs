use vstd::prelude::*;

verus! {

/// The number of bytes of memory of a CHIP-8 machine.
pub const MEMORY_SIZE: usize = 4096;

/// The number of registers of a CHIP-8 machine.
pub const REGISTER_COUNT: usize = 16;

/// The memory and the registers of a CHIP-8 machine.
pub struct Core {
    pub memory: [u8; 4096],
    pub registers: [u8; 16],
}

impl Default for Core {
    /// A machine whose memory and registers hold zeros.
    fn default() -> (machine: Self)
        ensures
            forall|i: int| 0 <= i < MEMORY_SIZE ==> machine.memory[i] == 0,
            forall|i: int| 0 <= i < REGISTER_COUNT ==> machine.registers[i] == 0,
    {
        Self { memory: [0;4096], registers: [0;16] }
    }
}

} // verus!
