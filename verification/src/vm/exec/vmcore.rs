//! The execution machine: a register file, a stack arena and the loop that
//! runs bytecode.

use super::address::{decode_type, encode, raw_offset, Address, AddressType};
use super::is::{opcode_of, operand_bytes, Opcode};
use vstd::prelude::*;

verus! {

/// The number of registers of the machine.
pub const REGISTERS: usize = 10;

/// The number of the register that holds the result of a function.
pub const RETURN_REGISTER: usize = 0;

/// The number of the stack pointer.
pub const STACK_POINTER: usize = 8;

/// The number of the frame base pointer.
pub const BASE_POINTER: usize = 9;

/// Why the core stopped.
#[derive(PartialEq, Eq, Structural, Debug, Clone, Copy)]
pub enum CoreError {
    /// The byte at the instruction pointer is no opcode
    InvalidOpcode(u8),
    /// An operand names no register
    InvalidRegister(u8),
    /// An address does not point into the stack arena
    InvalidAddress(u64),
    /// The instruction pointer or an operand lies behind the code
    CodeOverrun,
    /// A division by zero
    DivisionByZero,
    /// The machine does not execute the opcode
    Unimplemented(Opcode),
    /// The code did not halt within the given number of steps
    StepLimit,
}

/// The result of the machine.
pub type CoreResult<T> = Result<T, CoreError>;

/// The execution machine.
pub struct Core {
    memory: Vec<u8>,
    registers: Vec<u64>,
    code: Vec<u8>,
    ip: usize,
    calls: Vec<(usize, u64)>,
    halted: bool,
}

/// The model of a [`Core`].
pub struct CoreModel {
    pub memory: Seq<u8>,
    pub registers: Seq<u64>,
    pub code: Seq<u8>,
    pub ip: int,
    pub calls: Seq<(usize, u64)>,
    pub halted: bool,
}

/// The number that the `width` bytes from `at` on stand for, the low byte
/// first.
pub open spec fn word_at(bytes: Seq<u8>, at: int, width: int) -> u64
    decreases width,
{
    if width <= 0 {
        0
    } else {
        (word_at(bytes, at + 1, width - 1) << 8) | (bytes[at] as u64)
    }
}

/// The bytes with the low `width` bytes of `value` from `at` on, the low
/// byte first.
pub open spec fn stored(bytes: Seq<u8>, at: int, width: int, value: u64) -> Seq<u8>
    decreases width,
{
    if width <= 0 {
        bytes
    } else {
        stored(bytes.update(at, (value & 0xff) as u8), at + 1, width - 1, value >> 8)
    }
}

/// The 16-bit offset that two bytes stand for, the low byte first.
pub open spec fn offset_at(bytes: Seq<u8>, at: int) -> i16 {
    let value = bytes[at] + 256 * bytes[at + 1];
    if value >= 0x8000 {
        (value - 0x1_0000) as i16
    } else {
        value as i16
    }
}

/// The 64-bit integer with a sign that has the bits of `value`.
pub open spec fn signed(value: u64) -> i64 {
    if value >= 0x8000_0000_0000_0000 {
        (value - 0x1_0000_0000_0000_0000) as i64
    } else {
        value as i64
    }
}

/// The 64-bit number without a sign that has the bits of `value`.
pub open spec fn unsigned(value: i64) -> u64 {
    if value < 0 {
        (value + 0x1_0000_0000_0000_0000) as u64
    } else {
        value as u64
    }
}

/// The 64-bit integer with a sign that has the bits of `value`.
pub fn to_signed(value: u64) -> (result: i64)
    ensures
        result == signed(value),
{
    if value >= 0x8000_0000_0000_0000 {
        (value as i128 - 0x1_0000_0000_0000_0000) as i64
    } else {
        value as i64
    }
}

/// The 64-bit number without a sign that has the bits of `value`.
pub fn to_unsigned(value: i64) -> (result: u64)
    ensures
        result == unsigned(value),
{
    if value < 0 {
        (value as i128 + 0x1_0000_0000_0000_0000) as u64
    } else {
        value as u64
    }
}

/// The place in the stack arena of the `width` bytes at `offset` from the
/// address `base`, if they lie in the arena.
pub open spec fn place_of(memory: Seq<u8>, base: u64, offset: i16, width: int) -> Result<
    int,
    CoreError,
> {
    if decode_type(base) != Some(AddressType::Stack) {
        Err(CoreError::InvalidAddress(base))
    } else {
        let place = raw_offset(base) + offset;
        if 0 <= place && place + width <= memory.len() {
            Ok(place)
        } else {
            Err(CoreError::InvalidAddress(base))
        }
    }
}

/// The number of bytes that a move between a register and memory moves.
pub open spec fn move_width(opcode: Opcode) -> int {
    match opcode {
        Opcode::MOVB_AR | Opcode::MOVB_RA => 1,
        Opcode::MOVF_AR | Opcode::MOVF_RA => 4,
        _ => 8,
    }
}

/// The size of a 64-bit integer without its sign.
pub open spec fn magnitude(value: i64) -> int {
    if value < 0 {
        -(value as int)
    } else {
        value as int
    }
}

/// The quotient of two 64-bit integers, rounded towards zero; the smallest
/// integer divided by -1 is itself.
pub open spec fn quotient(left: i64, right: i64) -> i64 {
    let size = magnitude(left) / magnitude(right);
    if (left < 0) != (right < 0) {
        (-size) as i64
    } else if size > i64::MAX {
        i64::MIN
    } else {
        size as i64
    }
}

/// The quotient of two 64-bit integers, rounded towards zero.
pub fn divide(left: i64, right: i64) -> (result: i64)
    requires
        right != 0,
    ensures
        result == quotient(left, right),
{
    let left_size: u64 = if left < 0 {
        (-(left as i128)) as u64
    } else {
        left as u64
    };
    let right_size: u64 = if right < 0 {
        (-(right as i128)) as u64
    } else {
        right as u64
    };
    let size = left_size / right_size;
    assert(size <= left_size) by (nonlinear_arith)
        requires
            size == left_size / right_size,
            right_size > 0,
    ;
    if (left < 0) != (right < 0) {
        (-(size as i128)) as i64
    } else if size > i64::MAX as u64 {
        i64::MIN
    } else {
        size as i64
    }
}

/// What an arithmetic instruction on integers leaves in its second
/// register; the numbers wrap round.
pub open spec fn integer_result(opcode: Opcode, target: u64, source: u64) -> u64 {
    match opcode {
        Opcode::ADDI => target.wrapping_add(source),
        Opcode::SUBI => target.wrapping_sub(source),
        Opcode::MULI => target.wrapping_mul(source),
        _ => unsigned(quotient(signed(target), signed(source))),
    }
}

/// The machine after the instruction at its instruction pointer, or why it
/// cannot execute it. Registers are named by number. A move takes its
/// source first and its target second; arithmetic leaves its result in its
/// second register. Memory is addressed through a register that holds a
/// stack address and a signed offset.
pub open spec fn executed(machine: CoreModel) -> Result<CoreModel, CoreError> {
    if !(0 <= machine.ip < machine.code.len()) {
        Err(CoreError::CodeOverrun)
    } else {
        match opcode_of(machine.code[machine.ip]) {
            None => Err(CoreError::InvalidOpcode(machine.code[machine.ip])),
            Some(opcode) => {
                let at = machine.ip + 1;
                let next = at + operand_bytes(opcode);
                if next > machine.code.len() {
                    Err(CoreError::CodeOverrun)
                } else {
                    let after = CoreModel { ip: next, ..machine };
                    match opcode {
                        Opcode::NOOP => Ok(after),
                        Opcode::HALT => Ok(CoreModel { halted: true, ..after }),
                        Opcode::RET => if machine.calls.len() == 0 {
                            Ok(CoreModel { halted: true, ..after })
                        } else {
                            Ok(
                                CoreModel {
                                    ip: machine.calls.last().0 as int,
                                    registers: machine.registers.update(
                                        BASE_POINTER as int,
                                        machine.calls.last().1,
                                    ),
                                    calls: machine.calls.drop_last(),
                                    ..machine
                                },
                            )
                        },
                        Opcode::CALL => if word_at(machine.code, at, 8) > usize::MAX {
                            Err(CoreError::CodeOverrun)
                        } else {
                            Ok(
                                CoreModel {
                                    ip: word_at(machine.code, at, 8) as int,
                                    calls: machine.calls.push(
                                        (next as usize, machine.registers[BASE_POINTER as int]),
                                    ),
                                    ..machine
                                },
                            )
                        },
                        Opcode::MOVB | Opcode::MOVF | Opcode::MOVI | Opcode::MOVA => {
                            let source = machine.code[at];
                            let target = machine.code[at + 1];
                            if source >= REGISTERS {
                                Err(CoreError::InvalidRegister(source))
                            } else if target >= REGISTERS {
                                Err(CoreError::InvalidRegister(target))
                            } else {
                                Ok(
                                    CoreModel {
                                        registers: machine.registers.update(
                                            target as int,
                                            machine.registers[source as int],
                                        ),
                                        ..after
                                    },
                                )
                            }
                        },
                        Opcode::LDI | Opcode::LDA | Opcode::ADDU_I | Opcode::SUBU_I => {
                            let register = machine.code[at];
                            let value = word_at(machine.code, at + 1, 8);
                            if register >= REGISTERS {
                                Err(CoreError::InvalidRegister(register))
                            } else {
                                let held = machine.registers[register as int];
                                Ok(
                                    CoreModel {
                                        registers: machine.registers.update(
                                            register as int,
                                            match opcode {
                                                Opcode::ADDU_I => held.wrapping_add(value),
                                                Opcode::SUBU_I => held.wrapping_sub(value),
                                                _ => value,
                                            },
                                        ),
                                        ..after
                                    },
                                )
                            }
                        },
                        Opcode::ADDI | Opcode::SUBI | Opcode::MULI | Opcode::DIVI => {
                            let source = machine.code[at];
                            let target = machine.code[at + 1];
                            if source >= REGISTERS {
                                Err(CoreError::InvalidRegister(source))
                            } else if target >= REGISTERS {
                                Err(CoreError::InvalidRegister(target))
                            } else if opcode == Opcode::DIVI && machine.registers[source as int] == 0 {
                                Err(CoreError::DivisionByZero)
                            } else {
                                Ok(
                                    CoreModel {
                                        registers: machine.registers.update(
                                            target as int,
                                            integer_result(
                                                opcode,
                                                machine.registers[target as int],
                                                machine.registers[source as int],
                                            ),
                                        ),
                                        ..after
                                    },
                                )
                            }
                        },
                        Opcode::MOVB_AR | Opcode::MOVF_AR | Opcode::MOVI_AR | Opcode::MOVA_AR => {
                            let register = machine.code[at];
                            let base = machine.code[at + 1];
                            if register >= REGISTERS {
                                Err(CoreError::InvalidRegister(register))
                            } else if base >= REGISTERS {
                                Err(CoreError::InvalidRegister(base))
                            } else {
                                match place_of(
                                    machine.memory,
                                    machine.registers[base as int],
                                    offset_at(machine.code, at + 2),
                                    move_width(opcode),
                                ) {
                                    Err(error) => Err(error),
                                    Ok(place) => Ok(
                                        CoreModel {
                                            registers: machine.registers.update(
                                                register as int,
                                                word_at(machine.memory, place, move_width(opcode)),
                                            ),
                                            ..after
                                        },
                                    ),
                                }
                            }
                        },
                        Opcode::MOVB_RA | Opcode::MOVF_RA | Opcode::MOVI_RA | Opcode::MOVA_RA => {
                            let register = machine.code[at];
                            let base = machine.code[at + 1];
                            if register >= REGISTERS {
                                Err(CoreError::InvalidRegister(register))
                            } else if base >= REGISTERS {
                                Err(CoreError::InvalidRegister(base))
                            } else {
                                match place_of(
                                    machine.memory,
                                    machine.registers[base as int],
                                    offset_at(machine.code, at + 2),
                                    move_width(opcode),
                                ) {
                                    Err(error) => Err(error),
                                    Ok(place) => Ok(
                                        CoreModel {
                                            memory: stored(
                                                machine.memory,
                                                place,
                                                move_width(opcode),
                                                machine.registers[register as int],
                                            ),
                                            ..after
                                        },
                                    ),
                                }
                            }
                        },
                        _ => Err(CoreError::Unimplemented(opcode)),
                    }
                }
            },
        }
    }
}

/// The machine after it ran until it halted, or why it stopped; it takes at
/// most `steps` steps.
pub open spec fn ran(machine: CoreModel, steps: nat) -> Result<CoreModel, CoreError>
    decreases steps,
{
    if machine.halted {
        Ok(machine)
    } else if steps == 0 {
        Err(CoreError::StepLimit)
    } else {
        match executed(machine) {
            Err(error) => Err(error),
            Ok(next) => ran(next, (steps - 1) as nat),
        }
    }
}

/// A machine with all its registers and a call stack that leads into the
/// code.
pub open spec fn well_formed(machine: CoreModel) -> bool {
    &&& machine.registers.len() == REGISTERS
    &&& 0 <= machine.ip <= usize::MAX
    &&& machine.memory.len() <= usize::MAX
}

/// Storing keeps the length of the bytes.
pub proof fn lemma_stored_len(bytes: Seq<u8>, at: int, width: int, value: u64)
    requires
        0 <= at,
        at + width <= bytes.len(),
    ensures
        stored(bytes, at, width, value).len() == bytes.len(),
    decreases width,
{
    if width > 0 {
        lemma_stored_len(bytes.update(at, (value & 0xff) as u8), at + 1, width - 1, value >> 8);
    }
}

/// The core reads a 64-bit operand as the number whose bytes the
/// instruction holds.
pub proof fn lemma_word_of_bytes(value: u64)
    ensures
        word_at(vstd::bytes::spec_u64_to_le_bytes(value), 0, 8) == value,
{
    vstd::bytes::spec_u64_to_le_bytes_to_open(value);
    let bytes = vstd::bytes::spec_u64_to_le_bytes_open(value);
    reveal_with_fuel(word_at, 9);
    let b0 = bytes[0];
    let b1 = bytes[1];
    let b2 = bytes[2];
    let b3 = bytes[3];
    let b4 = bytes[4];
    let b5 = bytes[5];
    let b6 = bytes[6];
    let b7 = bytes[7];
    assert(((((((((((((((((0u64 << 8) | (b7 as u64)) << 8) | (b6 as u64)) << 8) | (b5 as u64)) << 8)
        | (b4 as u64)) << 8) | (b3 as u64)) << 8) | (b2 as u64)) << 8) | (b1 as u64)) << 8) | (
    b0 as u64)) == value) by (bit_vector)
        requires
            b0 == (value & 0xff) as u8,
            b1 == ((value >> 8) & 0xff) as u8,
            b2 == ((value >> 16) & 0xff) as u8,
            b3 == ((value >> 24) & 0xff) as u8,
            b4 == ((value >> 32) & 0xff) as u8,
            b5 == ((value >> 40) & 0xff) as u8,
            b6 == ((value >> 48) & 0xff) as u8,
            b7 == ((value >> 56) & 0xff) as u8,
    ;
}

/// The core reads a 16-bit operand as the offset whose bytes the
/// instruction holds.
pub proof fn lemma_offset_of_bytes(offset: i16)
    ensures
        offset_at(crate::vm::codegen::instruction::offset_bytes(offset), 0) == offset,
{
}

/// The core reads the operands of a move between a register and memory as
/// the registers and the offset that the instruction was made with.
pub proof fn lemma_move_operands(
    opcode: Opcode,
    register: crate::vm::codegen::register::Register,
    base: crate::vm::codegen::register::Register,
    offset: i16,
)
    ensures
        ({
            let operands = crate::vm::codegen::instruction::on_memory(
                opcode,
                register,
                base,
                offset,
            ).operands;
            &&& operands.len() == 4
            &&& operands[0] == crate::vm::codegen::register::register_number(register)
            &&& operands[1] == crate::vm::codegen::register::register_number(base)
            &&& offset_at(operands, 2) == offset
        }),
{
    lemma_offset_of_bytes(offset);
}

/// The core reads the operands of an instruction on a register and a number
/// as the register and the number that the instruction was made with.
pub proof fn lemma_immediate_operands(
    opcode: Opcode,
    register: crate::vm::codegen::register::Register,
    value: u64,
)
    ensures
        ({
            let operands = crate::vm::codegen::instruction::on_immediate(
                opcode,
                register,
                value,
            ).operands;
            &&& operands.len() == 9
            &&& operands[0] == crate::vm::codegen::register::register_number(register)
            &&& word_at(operands, 1, 8) == value
        }),
{
    let bytes = vstd::bytes::spec_u64_to_le_bytes(value);
    let operands = crate::vm::codegen::instruction::on_immediate(opcode, register, value).operands;
    vstd::bytes::spec_u64_to_le_bytes_to_open(value);
    lemma_word_of_bytes(value);
    assert(operands.subrange(1, 9) =~= bytes);
    lemma_word_in_part(operands, 1, 8, 0, 8);
}

/// The number that bytes stand for does not depend on what stands around
/// them: a part of the bytes gives the same number.
pub proof fn lemma_word_in_part(bytes: Seq<u8>, at: int, length: int, from: int, width: int)
    requires
        0 <= at,
        0 <= length,
        at + length <= bytes.len(),
        0 <= from,
        0 <= width,
        from + width <= length,
    ensures
        word_at(bytes.subrange(at, at + length), from, width) == word_at(bytes, at + from, width),
    decreases width,
{
    if width > 0 {
        lemma_word_in_part(bytes, at, length, from + 1, width - 1);
    }
}

impl View for Core {
    type V = CoreModel;

    closed spec fn view(&self) -> CoreModel {
        CoreModel {
            memory: self.memory@,
            registers: self.registers@,
            code: self.code@,
            ip: self.ip as int,
            calls: self.calls@,
            halted: self.halted,
        }
    }
}

/// The number that the `width` bytes from `at` on stand for.
fn read_word(bytes: &Vec<u8>, at: usize, width: usize) -> (value: u64)
    requires
        at + width <= bytes.len(),
        width <= 8,
    ensures
        value == word_at(bytes@, at as int, width as int),
{
    let mut value: u64 = 0;
    let mut left = width;
    while left > 0
        invariant
            left <= width,
            at + width <= bytes.len(),
            value == word_at(bytes@, at + left, width - left),
        decreases left,
    {
        left -= 1;
        value = (value << 8) | (bytes[at + left] as u64);
    }
    value
}

/// Writes the low `width` bytes of `value` from `at` on.
fn write_word(bytes: &mut Vec<u8>, at: usize, width: usize, value: u64)
    requires
        at + width <= old(bytes).len(),
        width <= 8,
    ensures
        final(bytes)@ == stored(old(bytes)@, at as int, width as int, value),
        final(bytes).len() == old(bytes).len(),
{
    let mut done: usize = 0;
    let mut rest = value;
    while done < width
        invariant
            done <= width,
            at + width <= bytes.len(),
            bytes.len() == old(bytes).len(),
            stored(bytes@, at + done, width - done, rest) == stored(
                old(bytes)@,
                at as int,
                width as int,
                value,
            ),
        decreases width - done,
    {
        bytes.set(at + done, (rest & 0xff) as u8);
        rest = rest >> 8;
        done += 1;
    }
}

impl Core {
    /// This machine is well formed.
    pub open spec fn wf(&self) -> bool {
        well_formed(self@)
    }

    /// A machine with a stack arena of `stack_size` bytes and without code. The
    /// stack pointer and the frame base point behind the arena.
    pub fn new(stack_size: usize) -> (machine: Core)
        requires
            stack_size < 0x2000_0000_0000_0000,
        ensures
            machine.wf(),
            machine@.memory.len() == stack_size,
            forall|i: int| 0 <= i < stack_size ==> machine@.memory[i] == 0,
            machine@.code.len() == 0,
            machine@.ip == 0,
            machine@.calls.len() == 0,
            !machine@.halted,
            forall|i: int|
                0 <= i < REGISTERS ==> machine@.registers[i] == if i == STACK_POINTER || i
                    == BASE_POINTER {
                    encode(stack_size as u64, AddressType::Stack)
                } else {
                    0
                },
    {
        let mut memory: Vec<u8> = Vec::new();
        let mut i: usize = 0;
        while i < stack_size
            invariant
                i <= stack_size,
                memory.len() == i,
                forall|j: int| 0 <= j < i ==> memory[j] == 0,
            decreases stack_size - i,
        {
            memory.push(0);
            i += 1;
        }
        let top = Address::new(stack_size as u64, AddressType::Stack).into();
        let mut registers: Vec<u64> = Vec::new();
        let mut r: usize = 0;
        while r < REGISTERS
            invariant
                r <= REGISTERS,
                registers.len() == r,
                forall|j: int|
                    0 <= j < r ==> registers[j] == if j == STACK_POINTER || j == BASE_POINTER {
                        top
                    } else {
                        0
                    },
            decreases REGISTERS - r,
        {
            registers.push(
                if r == STACK_POINTER || r == BASE_POINTER {
                    top
                } else {
                    0
                },
            );
            r += 1;
        }
        Core { memory, registers, code: Vec::new(), ip: 0, calls: Vec::new(), halted: false }
    }

    /// Gives the machine its code and puts it at `entry`.
    pub fn load(&mut self, code: Vec<u8>, entry: usize)
        requires
            old(self).wf(),
        ensures
            final(self).wf(),
            final(self)@ == (CoreModel {
                code: code@,
                ip: entry as int,
                halted: false,
                calls: Seq::empty(),
                ..old(self)@
            }),
    {
        self.code = code;
        self.ip = entry;
        self.halted = false;
        self.calls = Vec::new();
    }

    /// The value of a register.
    pub fn reg(&self, register: u8) -> (value: CoreResult<u64>)
        requires
            self.wf(),
        ensures
            match value {
                Ok(value) => register < REGISTERS && value == self@.registers[register as int],
                Err(error) => register >= REGISTERS && error == CoreError::InvalidRegister(
                    register,
                ),
            },
    {
        if (register as usize) < REGISTERS {
            Ok(self.registers[register as usize])
        } else {
            Err(CoreError::InvalidRegister(register))
        }
    }

    /// Sets a register.
    pub fn set_reg(&mut self, register: u8, value: u64) -> (set: CoreResult<()>)
        requires
            old(self).wf(),
        ensures
            final(self).wf(),
            match set {
                Ok(_) => register < REGISTERS && final(self)@ == (CoreModel {
                    registers: old(self)@.registers.update(register as int, value),
                    ..old(self)@
                }),
                Err(error) => register >= REGISTERS && error == CoreError::InvalidRegister(register)
                    && final(self)@ == old(self)@,
            },
    {
        if (register as usize) < REGISTERS {
            self.registers.set(register as usize, value);
            Ok(())
        } else {
            Err(CoreError::InvalidRegister(register))
        }
    }

    /// The 16-bit offset that the two bytes from `at` on stand for.
    fn read_offset(bytes: &Vec<u8>, at: usize) -> (offset: i16)
        requires
            at + 2 <= bytes.len(),
        ensures
            offset == offset_at(bytes@, at as int),
    {
        let value: i32 = bytes[at] as i32 + 256 * (bytes[at + 1] as i32);
        if value >= 0x8000 {
            (value - 0x1_0000) as i16
        } else {
            value as i16
        }
    }

    /// Whether the machine has halted.
    pub fn is_halted(&self) -> (halted: bool)
        ensures
            halted == self@.halted,
    {
        self.halted
    }

    /// The place in the stack arena of the `width` bytes at `offset` from
    /// the address `base`.
    fn locate(&self, base: u64, offset: i16, width: usize) -> (place: CoreResult<usize>)
        requires
            self.wf(),
            width <= 8,
        ensures
            match place {
                Ok(place) => place_of(self@.memory, base, offset, width as int) == Ok::<
                    int,
                    CoreError,
                >(place as int),
                Err(error) => place_of(self@.memory, base, offset, width as int) == Err::<
                    int,
                    CoreError,
                >(error),
            },
    {
        match Address::decode(base) {
            None => Err(CoreError::InvalidAddress(base)),
            Some(address) => {
                if address.address_type != AddressType::Stack {
                    return Err(CoreError::InvalidAddress(base));
                }
                let place = address.real_address as i128 + offset as i128;
                if 0 <= place && place + width as i128 <= self.memory.len() as i128 {
                    Ok(place as usize)
                } else {
                    Err(CoreError::InvalidAddress(base))
                }
            },
        }
    }

    /// Pushes a 64-bit value on the stack: the stack pointer moves down by
    /// eight bytes and the value is stored where it points.
    pub fn push(&mut self, value: u64) -> (pushed: CoreResult<()>)
        requires
            old(self).wf(),
        ensures
            final(self).wf(),
            match place_of(
                old(self)@.memory,
                old(self)@.registers[STACK_POINTER as int],
                -8i16,
                8,
            ) {
                Ok(place) => pushed is Ok && final(self)@ == (CoreModel {
                    memory: stored(old(self)@.memory, place, 8, value),
                    registers: old(self)@.registers.update(
                        STACK_POINTER as int,
                        old(self)@.registers[STACK_POINTER as int].wrapping_sub(8),
                    ),
                    ..old(self)@
                }),
                Err(error) => pushed == Err::<(), CoreError>(error),
            },
    {
        let pointer = self.registers[STACK_POINTER];
        let place = self.locate(pointer, -8, 8)?;
        proof {
            lemma_stored_len(self@.memory, place as int, 8, value);
        }
        write_word(&mut self.memory, place, 8, value);
        self.registers.set(STACK_POINTER, pointer.wrapping_sub(8));
        Ok(())
    }

    /// Executes the instruction at the instruction pointer.
    #[verifier::rlimit(50)]
    pub fn step(&mut self) -> (result: CoreResult<()>)
        requires
            old(self).wf(),
        ensures
            final(self).wf(),
            match executed(old(self)@) {
                Ok(machine) => result is Ok && final(self)@ == machine,
                Err(error) => result == Err::<(), CoreError>(error) && final(self)@ == old(self)@,
            },
    {
        if self.ip >= self.code.len() {
            return Err(CoreError::CodeOverrun);
        }
        let byte = self.code[self.ip];
        let opcode = match Opcode::from_u8(byte) {
            Some(opcode) => opcode,
            None => {
                return Err(CoreError::InvalidOpcode(byte));
            },
        };
        let length = opcode.operand_len();
        if length > self.code.len() - self.ip - 1 {
            return Err(CoreError::CodeOverrun);
        }
        let at = self.ip + 1;
        let next = at + length;
        match opcode {
            Opcode::NOOP => {
                self.ip = next;
            },
            Opcode::HALT => {
                self.ip = next;
                self.halted = true;
            },
            Opcode::RET => {
                let depth = self.calls.len();
                if depth == 0 {
                    self.ip = next;
                    self.halted = true;
                } else {
                    let frame = self.calls[depth - 1];
                    self.calls.pop();
                    self.ip = frame.0;
                    self.registers.set(BASE_POINTER, frame.1);
                }
            },
            Opcode::CALL => {
                let target = read_word(&self.code, at, 8);
                if target > usize::MAX as u64 {
                    return Err(CoreError::CodeOverrun);
                }
                self.calls.push((next, self.registers[BASE_POINTER]));
                self.ip = target as usize;
            },
            Opcode::MOVB | Opcode::MOVF | Opcode::MOVI | Opcode::MOVA => {
                let source = self.code[at];
                let target = self.code[at + 1];
                if source as usize >= REGISTERS {
                    return Err(CoreError::InvalidRegister(source));
                }
                if target as usize >= REGISTERS {
                    return Err(CoreError::InvalidRegister(target));
                }
                let value = self.registers[source as usize];
                self.registers.set(target as usize, value);
                self.ip = next;
            },
            Opcode::LDI | Opcode::LDA | Opcode::ADDU_I | Opcode::SUBU_I => {
                let register = self.code[at];
                let value = read_word(&self.code, at + 1, 8);
                if register as usize >= REGISTERS {
                    return Err(CoreError::InvalidRegister(register));
                }
                let held = self.registers[register as usize];
                let result = match opcode {
                    Opcode::ADDU_I => held.wrapping_add(value),
                    Opcode::SUBU_I => held.wrapping_sub(value),
                    _ => value,
                };
                self.registers.set(register as usize, result);
                self.ip = next;
            },
            Opcode::ADDI | Opcode::SUBI | Opcode::MULI | Opcode::DIVI => {
                let source = self.code[at];
                let target = self.code[at + 1];
                if source as usize >= REGISTERS {
                    return Err(CoreError::InvalidRegister(source));
                }
                if target as usize >= REGISTERS {
                    return Err(CoreError::InvalidRegister(target));
                }
                let right = self.registers[source as usize];
                let left = self.registers[target as usize];
                if opcode == Opcode::DIVI && right == 0 {
                    return Err(CoreError::DivisionByZero);
                }
                let result = match opcode {
                    Opcode::ADDI => left.wrapping_add(right),
                    Opcode::SUBI => left.wrapping_sub(right),
                    Opcode::MULI => left.wrapping_mul(right),
                    _ => to_unsigned(divide(to_signed(left), to_signed(right))),
                };
                self.registers.set(target as usize, result);
                self.ip = next;
            },
            Opcode::MOVB_AR | Opcode::MOVF_AR | Opcode::MOVI_AR | Opcode::MOVA_AR => {
                let register = self.code[at];
                let base = self.code[at + 1];
                if register as usize >= REGISTERS {
                    return Err(CoreError::InvalidRegister(register));
                }
                if base as usize >= REGISTERS {
                    return Err(CoreError::InvalidRegister(base));
                }
                let width: usize = match opcode {
                    Opcode::MOVB_AR => 1,
                    Opcode::MOVF_AR => 4,
                    _ => 8,
                };
                let offset = Core::read_offset(&self.code, at + 2);
                let place = self.locate(self.registers[base as usize], offset, width)?;
                let value = read_word(&self.memory, place, width);
                self.registers.set(register as usize, value);
                self.ip = next;
            },
            Opcode::MOVB_RA | Opcode::MOVF_RA | Opcode::MOVI_RA | Opcode::MOVA_RA => {
                let register = self.code[at];
                let base = self.code[at + 1];
                if register as usize >= REGISTERS {
                    return Err(CoreError::InvalidRegister(register));
                }
                if base as usize >= REGISTERS {
                    return Err(CoreError::InvalidRegister(base));
                }
                let width: usize = match opcode {
                    Opcode::MOVB_RA => 1,
                    Opcode::MOVF_RA => 4,
                    _ => 8,
                };
                let offset = Core::read_offset(&self.code, at + 2);
                let place = self.locate(self.registers[base as usize], offset, width)?;
                let value = self.registers[register as usize];
                proof {
                    lemma_stored_len(self@.memory, place as int, width as int, value);
                }
                write_word(&mut self.memory, place, width, value);
                self.ip = next;
            },
            _ => {
                return Err(CoreError::Unimplemented(opcode));
            },
        }
        Ok(())
    }

    /// Runs the code until it halts, for at most `steps` steps.
    pub fn run(&mut self, steps: usize) -> (result: CoreResult<()>)
        requires
            old(self).wf(),
        ensures
            final(self).wf(),
            match ran(old(self)@, steps as nat) {
                Ok(machine) => result is Ok && final(self)@ == machine,
                Err(error) => result == Err::<(), CoreError>(error),
            },
    {
        let mut left = steps;
        while !self.halted
            invariant
                self.wf(),
                ran(self@, left as nat) == ran(old(self)@, steps as nat),
            decreases left,
        {
            if left == 0 {
                return Err(CoreError::StepLimit);
            }
            self.step()?;
            left -= 1;
        }
        Ok(())
    }
}

} // verus!
