use vstd::prelude::*;

verus! {

/// A register of the virtual machine.
#[derive(PartialEq, Eq, Structural, Debug, Clone, Copy)]
pub enum Register {
    /// Holds the result of a function
    R0,
    R1,
    R2,
    R3,
    R4,
    R5,
    R6,
    R7,
    /// The stack pointer
    SP,
    /// The frame base pointer
    BP,
}

/// The number of registers.
pub const REGISTER_COUNT: usize = 10;

/// The number that stands for a register in bytecode.
pub open spec fn register_number(register: Register) -> u8 {
    match register {
        Register::R0 => 0,
        Register::R1 => 1,
        Register::R2 => 2,
        Register::R3 => 3,
        Register::R4 => 4,
        Register::R5 => 5,
        Register::R6 => 6,
        Register::R7 => 7,
        Register::SP => 8,
        Register::BP => 9,
    }
}

impl Register {
    /// The number that stands for this register in bytecode.
    pub fn into(self) -> (number: u8)
        ensures
            number == register_number(self),
            number < REGISTER_COUNT,
    {
        match self {
            Register::R0 => 0,
            Register::R1 => 1,
            Register::R2 => 2,
            Register::R3 => 3,
            Register::R4 => 4,
            Register::R5 => 5,
            Register::R6 => 6,
            Register::R7 => 7,
            Register::SP => 8,
            Register::BP => 9,
        }
    }
}

} // verus!
