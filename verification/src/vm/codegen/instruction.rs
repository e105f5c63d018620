use crate::vm::codegen::register::{register_number, Register};
use crate::vm::exec::is::{opcode_number, operand_bytes, Opcode};
use vstd::bytes::{
    spec_u32_to_le_bytes, spec_u64_to_le_bytes, u32_to_le_bytes, u64_to_le_bytes,
};
use vstd::prelude::*;

verus! {

/// One operation of the virtual machine: an opcode and the bytes of its
/// operands.
#[derive(Debug)]
pub struct Instruction {
    pub opcode: Opcode,
    pub operands: Vec<u8>,
}

/// The model of an [`Instruction`].
pub struct InstructionModel {
    pub opcode: Opcode,
    pub operands: Seq<u8>,
}

impl View for Instruction {
    type V = InstructionModel;

    open spec fn view(&self) -> InstructionModel {
        InstructionModel { opcode: self.opcode, operands: self.operands@ }
    }
}

/// The bytes of a 16-bit offset, the low byte first; a negative offset
/// counts down from 65536.
pub open spec fn offset_bytes(offset: i16) -> Seq<u8> {
    let value: int = if offset < 0 {
        offset + 0x1_0000
    } else {
        offset as int
    };
    seq![(value % 256) as u8, (value / 256) as u8]
}

/// The bytes of a 64-bit integer, the low byte first.
pub open spec fn integer_bytes(value: i64) -> Seq<u8> {
    spec_u64_to_le_bytes(value as u64)
}

/// The bytes of an instruction in bytecode: the number of the opcode, then
/// the operands.
pub open spec fn encoded(instruction: InstructionModel) -> Seq<u8> {
    seq![opcode_number(instruction.opcode)] + instruction.operands
}

/// An instruction without operands.
pub open spec fn plain(opcode: Opcode) -> InstructionModel {
    InstructionModel { opcode, operands: Seq::empty() }
}

/// An instruction on two registers.
pub open spec fn on_registers(opcode: Opcode, first: Register, second: Register) -> InstructionModel {
    InstructionModel { opcode, operands: seq![register_number(first), register_number(second)] }
}

/// An instruction on a register and a 64-bit number.
pub open spec fn on_immediate(opcode: Opcode, register: Register, value: u64) -> InstructionModel {
    InstructionModel {
        opcode,
        operands: seq![register_number(register)] + spec_u64_to_le_bytes(value),
    }
}

/// An instruction that moves between the register `register` and the
/// memory at `offset` from the address in the register `base`.
pub open spec fn on_memory(opcode: Opcode, register: Register, base: Register, offset: i16) -> InstructionModel {
    InstructionModel {
        opcode,
        operands: seq![register_number(register), register_number(base)] + offset_bytes(offset),
    }
}

/// The instruction that reserves `size` bytes of stack: it takes them from
/// the stack pointer.
pub open spec fn reserve(size: u64) -> InstructionModel {
    on_immediate(Opcode::SUBU_I, Register::SP, size)
}

/// The instruction that gives `size` bytes of stack back.
pub open spec fn release(size: u64) -> InstructionModel {
    on_immediate(Opcode::ADDU_I, Register::SP, size)
}

impl Instruction {
    /// An instruction without operands.
    pub fn new(opcode: Opcode) -> (instruction: Instruction)
        ensures
            instruction@ == plain(opcode),
    {
        Instruction { opcode, operands: Vec::new() }
    }

    /// This instruction with one more operand of one byte.
    pub fn with_u8(self, operand: u8) -> (instruction: Instruction)
        ensures
            instruction@ == (InstructionModel {
                opcode: self@.opcode,
                operands: self@.operands.push(operand),
            }),
    {
        let mut operands = self.operands;
        operands.push(operand);
        Instruction { opcode: self.opcode, operands }
    }

    /// This instruction with one more operand that is a register.
    pub fn with_register(self, register: Register) -> (instruction: Instruction)
        ensures
            instruction@ == (InstructionModel {
                opcode: self@.opcode,
                operands: self@.operands.push(register_number(register)),
            }),
    {
        self.with_u8(register.into())
    }

    /// This instruction with the bytes in `bytes` behind its operands.
    fn with_bytes(self, bytes: Vec<u8>) -> (instruction: Instruction)
        ensures
            instruction@ == (InstructionModel {
                opcode: self@.opcode,
                operands: self@.operands + bytes@,
            }),
    {
        let mut operands = self.operands;
        let ghost before = operands@;
        let mut i: usize = 0;
        while i < bytes.len()
            invariant
                i <= bytes.len(),
                operands@ == before + bytes@.take(i as int),
            decreases bytes.len() - i,
        {
            operands.push(bytes[i]);
            assert(operands@ =~= before + bytes@.take(i + 1));
            i += 1;
        }
        assert(bytes@.take(bytes.len() as int) =~= bytes@);
        Instruction { opcode: self.opcode, operands }
    }

    /// This instruction with one more operand that is a 16-bit offset.
    pub fn with_i16(self, operand: i16) -> (instruction: Instruction)
        ensures
            instruction@ == (InstructionModel {
                opcode: self@.opcode,
                operands: self@.operands + offset_bytes(operand),
            }),
    {
        let value: i32 = if operand < 0 {
            operand as i32 + 0x1_0000
        } else {
            operand as i32
        };
        let instruction = self.with_u8((value % 256) as u8).with_u8((value / 256) as u8);
        assert(instruction@.operands =~= self@.operands + offset_bytes(operand));
        instruction
    }

    /// This instruction with one more operand of 32 bits.
    pub fn with_u32(self, operand: u32) -> (instruction: Instruction)
        ensures
            instruction@ == (InstructionModel {
                opcode: self@.opcode,
                operands: self@.operands + spec_u32_to_le_bytes(operand),
            }),
    {
        self.with_bytes(u32_to_le_bytes(operand))
    }

    /// This instruction with one more operand of 64 bits.
    pub fn with_u64(self, operand: u64) -> (instruction: Instruction)
        ensures
            instruction@ == (InstructionModel {
                opcode: self@.opcode,
                operands: self@.operands + spec_u64_to_le_bytes(operand),
            }),
    {
        self.with_bytes(u64_to_le_bytes(operand))
    }

    /// This instruction with one more operand that is a 64-bit integer.
    pub fn with_i64(self, operand: i64) -> (instruction: Instruction)
        ensures
            instruction@ == (InstructionModel {
                opcode: self@.opcode,
                operands: self@.operands + integer_bytes(operand),
            }),
    {
        self.with_bytes(u64_to_le_bytes(operand as u64))
    }

    /// The instruction that reserves `size` bytes of stack.
    pub fn new_inc_stack(size: usize) -> (instruction: Instruction)
        ensures
            instruction@ == reserve(size as u64),
    {
        let instruction = Instruction::new(Opcode::SUBU_I).with_register(Register::SP).with_u64(
            size as u64,
        );
        assert(instruction@.operands =~= reserve(size as u64).operands);
        instruction
    }

    /// The instruction that gives `size` bytes of stack back.
    pub fn new_dec_stack(size: usize) -> (instruction: Instruction)
        ensures
            instruction@ == release(size as u64),
    {
        let instruction = Instruction::new(Opcode::ADDU_I).with_register(Register::SP).with_u64(
            size as u64,
        );
        assert(instruction@.operands =~= release(size as u64).operands);
        instruction
    }

    /// An instruction on two registers.
    pub fn new_registers(opcode: Opcode, first: Register, second: Register) -> (instruction:
        Instruction)
        ensures
            instruction@ == on_registers(opcode, first, second),
    {
        let instruction = Instruction::new(opcode).with_register(first).with_register(second);
        assert(instruction@.operands =~= on_registers(opcode, first, second).operands);
        instruction
    }

    /// An instruction on a register and a 64-bit number.
    pub fn new_immediate(opcode: Opcode, register: Register, value: u64) -> (instruction:
        Instruction)
        ensures
            instruction@ == on_immediate(opcode, register, value),
    {
        let instruction = Instruction::new(opcode).with_register(register).with_u64(value);
        assert(instruction@.operands =~= on_immediate(opcode, register, value).operands);
        instruction
    }

    /// An instruction that moves between a register and the memory at an
    /// offset from the address in a base register.
    pub fn new_memory(opcode: Opcode, register: Register, base: Register, offset: i16) -> (instruction:
        Instruction)
        ensures
            instruction@ == on_memory(opcode, register, base, offset),
    {
        let instruction = Instruction::new(opcode).with_register(register).with_register(
            base,
        ).with_i16(offset);
        assert(instruction@.operands =~= on_memory(opcode, register, base, offset).operands);
        instruction
    }

    /// The bytes of this instruction in bytecode.
    pub fn encode(&self) -> (bytes: Vec<u8>)
        ensures
            bytes@ == encoded(self@),
    {
        let mut bytes: Vec<u8> = Vec::new();
        bytes.push(self.opcode.number());
        let mut i: usize = 0;
        while i < self.operands.len()
            invariant
                i <= self.operands.len(),
                bytes@ == seq![opcode_number(self.opcode)] + self.operands@.take(i as int),
            decreases self.operands.len() - i,
        {
            bytes.push(self.operands[i]);
            assert(bytes@ =~= seq![opcode_number(self.opcode)] + self.operands@.take(i + 1));
            i += 1;
        }
        assert(self.operands@.take(self.operands.len() as int) =~= self.operands@);
        bytes
    }

    /// A copy of this instruction.
    pub fn duplicate(&self) -> (copy: Instruction)
        ensures
            copy@ == self@,
    {
        let mut operands: Vec<u8> = Vec::new();
        let mut i: usize = 0;
        while i < self.operands.len()
            invariant
                i <= self.operands.len(),
                operands@ == self.operands@.take(i as int),
            decreases self.operands.len() - i,
        {
            operands.push(self.operands[i]);
            assert(operands@ =~= self.operands@.take(i + 1));
            i += 1;
        }
        assert(self.operands@.take(self.operands.len() as int) =~= self.operands@);
        Instruction { opcode: self.opcode, operands }
    }
}

} // verus!
