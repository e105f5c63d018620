//! The instruction set of the virtual machine.

use vstd::prelude::*;

verus! {

/// Enum representing the different Opcodes
///
/// Each Opcode represents one instruction
#[derive(PartialEq, Eq, Structural, Debug, Clone, Copy)]
#[allow(non_camel_case_types)]
pub enum Opcode {
    /// Do not do anything
    NOOP,
    /// Stop execution
    HALT,
    /// Copy a boolean between registers
    MOVB,
    /// Copy a float between registers
    MOVF,
    /// Copy an integer between registers
    MOVI,
    /// Copy an adress between registers
    MOVA,
    MOVB_A,
    MOVF_A,
    MOVI_A,
    MOVA_A,
    MOVN_A,
    MOVB_AR,
    MOVF_AR,
    MOVI_AR,
    MOVA_AR,
    MOVB_RA,
    MOVF_RA,
    MOVI_RA,
    MOVA_RA,
    LDB,
    LDF,
    LDI,
    LDA,
    ADDI,
    SUBI,
    MULI,
    DIVI,
    ADDI_I,
    SUBI_I,
    MULI_I,
    DIVI_I,
    ADDU,
    SUBU,
    MULU,
    DIVU,
    ADDU_I,
    SUBU_I,
    MULU_I,
    DIVU_I,
    ADDF,
    SUBF,
    MULF,
    DIVF,
    ADDF_I,
    SUBF_I,
    MULF_I,
    DIVF_I,
    JMP,
    JMPT,
    JMPF,
    DJMP,
    DJMPT,
    DJMPF,
    CALL,
    RET,
    NOT,
    AND,
    OR,
    EQI,
    NEQI,
    LTI,
    GTI,
    LTEQI,
    GTEQI,
    EQF,
    NEQF,
    LTF,
    GTF,
    LTEQF,
    GTEQF,
}

/// The number that stands for an opcode in bytecode.
pub open spec fn opcode_number(opcode: Opcode) -> u8 {
    match opcode {
        Opcode::NOOP => 0,
        Opcode::HALT => 1,
        Opcode::MOVB => 2,
        Opcode::MOVF => 4,
        Opcode::MOVI => 5,
        Opcode::MOVA => 6,
        Opcode::MOVB_A => 7,
        Opcode::MOVF_A => 8,
        Opcode::MOVI_A => 9,
        Opcode::MOVA_A => 10,
        Opcode::MOVN_A => 11,
        Opcode::MOVB_AR => 12,
        Opcode::MOVF_AR => 13,
        Opcode::MOVI_AR => 14,
        Opcode::MOVA_AR => 15,
        Opcode::MOVB_RA => 16,
        Opcode::MOVF_RA => 17,
        Opcode::MOVI_RA => 18,
        Opcode::MOVA_RA => 19,
        Opcode::LDB => 20,
        Opcode::LDF => 21,
        Opcode::LDI => 22,
        Opcode::LDA => 23,
        Opcode::ADDI => 24,
        Opcode::SUBI => 25,
        Opcode::MULI => 26,
        Opcode::DIVI => 27,
        Opcode::ADDI_I => 28,
        Opcode::SUBI_I => 29,
        Opcode::MULI_I => 30,
        Opcode::DIVI_I => 31,
        Opcode::ADDU => 32,
        Opcode::SUBU => 33,
        Opcode::MULU => 34,
        Opcode::DIVU => 35,
        Opcode::ADDU_I => 36,
        Opcode::SUBU_I => 37,
        Opcode::MULU_I => 38,
        Opcode::DIVU_I => 39,
        Opcode::ADDF => 40,
        Opcode::SUBF => 41,
        Opcode::MULF => 42,
        Opcode::DIVF => 43,
        Opcode::ADDF_I => 44,
        Opcode::SUBF_I => 45,
        Opcode::MULF_I => 46,
        Opcode::DIVF_I => 47,
        Opcode::JMP => 48,
        Opcode::JMPT => 49,
        Opcode::JMPF => 50,
        Opcode::DJMP => 51,
        Opcode::DJMPT => 52,
        Opcode::DJMPF => 53,
        Opcode::CALL => 54,
        Opcode::RET => 55,
        Opcode::NOT => 56,
        Opcode::AND => 57,
        Opcode::OR => 58,
        Opcode::EQI => 59,
        Opcode::NEQI => 60,
        Opcode::LTI => 61,
        Opcode::GTI => 62,
        Opcode::LTEQI => 63,
        Opcode::GTEQI => 64,
        Opcode::EQF => 65,
        Opcode::NEQF => 66,
        Opcode::LTF => 67,
        Opcode::GTF => 68,
        Opcode::LTEQF => 69,
        Opcode::GTEQF => 70,
    }
}

/// The opcode that a number stands for, if it stands for one.
pub open spec fn opcode_of(number: u8) -> Option<Opcode> {
    if number == 0 {
        Some(Opcode::NOOP)
    }     else if number == 1 {
        Some(Opcode::HALT)
    }     else if number == 2 {
        Some(Opcode::MOVB)
    }     else if number == 4 {
        Some(Opcode::MOVF)
    }     else if number == 5 {
        Some(Opcode::MOVI)
    }     else if number == 6 {
        Some(Opcode::MOVA)
    }     else if number == 7 {
        Some(Opcode::MOVB_A)
    }     else if number == 8 {
        Some(Opcode::MOVF_A)
    }     else if number == 9 {
        Some(Opcode::MOVI_A)
    }     else if number == 10 {
        Some(Opcode::MOVA_A)
    }     else if number == 11 {
        Some(Opcode::MOVN_A)
    }     else if number == 12 {
        Some(Opcode::MOVB_AR)
    }     else if number == 13 {
        Some(Opcode::MOVF_AR)
    }     else if number == 14 {
        Some(Opcode::MOVI_AR)
    }     else if number == 15 {
        Some(Opcode::MOVA_AR)
    }     else if number == 16 {
        Some(Opcode::MOVB_RA)
    }     else if number == 17 {
        Some(Opcode::MOVF_RA)
    }     else if number == 18 {
        Some(Opcode::MOVI_RA)
    }     else if number == 19 {
        Some(Opcode::MOVA_RA)
    }     else if number == 20 {
        Some(Opcode::LDB)
    }     else if number == 21 {
        Some(Opcode::LDF)
    }     else if number == 22 {
        Some(Opcode::LDI)
    }     else if number == 23 {
        Some(Opcode::LDA)
    }     else if number == 24 {
        Some(Opcode::ADDI)
    }     else if number == 25 {
        Some(Opcode::SUBI)
    }     else if number == 26 {
        Some(Opcode::MULI)
    }     else if number == 27 {
        Some(Opcode::DIVI)
    }     else if number == 28 {
        Some(Opcode::ADDI_I)
    }     else if number == 29 {
        Some(Opcode::SUBI_I)
    }     else if number == 30 {
        Some(Opcode::MULI_I)
    }     else if number == 31 {
        Some(Opcode::DIVI_I)
    }     else if number == 32 {
        Some(Opcode::ADDU)
    }     else if number == 33 {
        Some(Opcode::SUBU)
    }     else if number == 34 {
        Some(Opcode::MULU)
    }     else if number == 35 {
        Some(Opcode::DIVU)
    }     else if number == 36 {
        Some(Opcode::ADDU_I)
    }     else if number == 37 {
        Some(Opcode::SUBU_I)
    }     else if number == 38 {
        Some(Opcode::MULU_I)
    }     else if number == 39 {
        Some(Opcode::DIVU_I)
    }     else if number == 40 {
        Some(Opcode::ADDF)
    }     else if number == 41 {
        Some(Opcode::SUBF)
    }     else if number == 42 {
        Some(Opcode::MULF)
    }     else if number == 43 {
        Some(Opcode::DIVF)
    }     else if number == 44 {
        Some(Opcode::ADDF_I)
    }     else if number == 45 {
        Some(Opcode::SUBF_I)
    }     else if number == 46 {
        Some(Opcode::MULF_I)
    }     else if number == 47 {
        Some(Opcode::DIVF_I)
    }     else if number == 48 {
        Some(Opcode::JMP)
    }     else if number == 49 {
        Some(Opcode::JMPT)
    }     else if number == 50 {
        Some(Opcode::JMPF)
    }     else if number == 51 {
        Some(Opcode::DJMP)
    }     else if number == 52 {
        Some(Opcode::DJMPT)
    }     else if number == 53 {
        Some(Opcode::DJMPF)
    }     else if number == 54 {
        Some(Opcode::CALL)
    }     else if number == 55 {
        Some(Opcode::RET)
    }     else if number == 56 {
        Some(Opcode::NOT)
    }     else if number == 57 {
        Some(Opcode::AND)
    }     else if number == 58 {
        Some(Opcode::OR)
    }     else if number == 59 {
        Some(Opcode::EQI)
    }     else if number == 60 {
        Some(Opcode::NEQI)
    }     else if number == 61 {
        Some(Opcode::LTI)
    }     else if number == 62 {
        Some(Opcode::GTI)
    }     else if number == 63 {
        Some(Opcode::LTEQI)
    }     else if number == 64 {
        Some(Opcode::GTEQI)
    }     else if number == 65 {
        Some(Opcode::EQF)
    }     else if number == 66 {
        Some(Opcode::NEQF)
    }     else if number == 67 {
        Some(Opcode::LTF)
    }     else if number == 68 {
        Some(Opcode::GTF)
    }     else if number == 69 {
        Some(Opcode::LTEQF)
    }     else if number == 70 {
        Some(Opcode::GTEQF)
    } else {
        None
    }
}

/// The number of bytes that the operands of an opcode take. A register
/// takes one byte, an offset two, a float four, an integer or an address
/// eight.
pub open spec fn operand_bytes(opcode: Opcode) -> nat {
    match opcode {
        Opcode::NOOP => 0,
        Opcode::HALT => 0,
        Opcode::MOVB => 2,
        Opcode::MOVF => 2,
        Opcode::MOVI => 2,
        Opcode::MOVA => 2,
        Opcode::MOVB_A => 9,
        Opcode::MOVF_A => 9,
        Opcode::MOVI_A => 9,
        Opcode::MOVA_A => 9,
        Opcode::MOVN_A => 9,
        Opcode::MOVB_AR => 4,
        Opcode::MOVF_AR => 4,
        Opcode::MOVI_AR => 4,
        Opcode::MOVA_AR => 4,
        Opcode::MOVB_RA => 4,
        Opcode::MOVF_RA => 4,
        Opcode::MOVI_RA => 4,
        Opcode::MOVA_RA => 4,
        Opcode::LDB => 2,
        Opcode::LDF => 5,
        Opcode::LDI => 9,
        Opcode::LDA => 9,
        Opcode::ADDI => 2,
        Opcode::SUBI => 2,
        Opcode::MULI => 2,
        Opcode::DIVI => 2,
        Opcode::ADDI_I => 9,
        Opcode::SUBI_I => 9,
        Opcode::MULI_I => 9,
        Opcode::DIVI_I => 9,
        Opcode::ADDU => 2,
        Opcode::SUBU => 2,
        Opcode::MULU => 2,
        Opcode::DIVU => 2,
        Opcode::ADDU_I => 9,
        Opcode::SUBU_I => 9,
        Opcode::MULU_I => 9,
        Opcode::DIVU_I => 9,
        Opcode::ADDF => 2,
        Opcode::SUBF => 2,
        Opcode::MULF => 2,
        Opcode::DIVF => 2,
        Opcode::ADDF_I => 5,
        Opcode::SUBF_I => 5,
        Opcode::MULF_I => 5,
        Opcode::DIVF_I => 5,
        Opcode::JMP => 8,
        Opcode::JMPT => 9,
        Opcode::JMPF => 9,
        Opcode::DJMP => 1,
        Opcode::DJMPT => 2,
        Opcode::DJMPF => 2,
        Opcode::CALL => 8,
        Opcode::RET => 0,
        Opcode::NOT => 1,
        Opcode::AND => 2,
        Opcode::OR => 2,
        Opcode::EQI => 2,
        Opcode::NEQI => 2,
        Opcode::LTI => 2,
        Opcode::GTI => 2,
        Opcode::LTEQI => 2,
        Opcode::GTEQI => 2,
        Opcode::EQF => 2,
        Opcode::NEQF => 2,
        Opcode::LTF => 2,
        Opcode::GTF => 2,
        Opcode::LTEQF => 2,
        Opcode::GTEQF => 2,
    }
}

impl Opcode {
    /// The number that stands for this opcode in bytecode.
    pub fn number(&self) -> (number: u8)
        ensures
            number == opcode_number(*self),
    {
        match self {
            Opcode::NOOP => 0,
            Opcode::HALT => 1,
            Opcode::MOVB => 2,
            Opcode::MOVF => 4,
            Opcode::MOVI => 5,
            Opcode::MOVA => 6,
            Opcode::MOVB_A => 7,
            Opcode::MOVF_A => 8,
            Opcode::MOVI_A => 9,
            Opcode::MOVA_A => 10,
            Opcode::MOVN_A => 11,
            Opcode::MOVB_AR => 12,
            Opcode::MOVF_AR => 13,
            Opcode::MOVI_AR => 14,
            Opcode::MOVA_AR => 15,
            Opcode::MOVB_RA => 16,
            Opcode::MOVF_RA => 17,
            Opcode::MOVI_RA => 18,
            Opcode::MOVA_RA => 19,
            Opcode::LDB => 20,
            Opcode::LDF => 21,
            Opcode::LDI => 22,
            Opcode::LDA => 23,
            Opcode::ADDI => 24,
            Opcode::SUBI => 25,
            Opcode::MULI => 26,
            Opcode::DIVI => 27,
            Opcode::ADDI_I => 28,
            Opcode::SUBI_I => 29,
            Opcode::MULI_I => 30,
            Opcode::DIVI_I => 31,
            Opcode::ADDU => 32,
            Opcode::SUBU => 33,
            Opcode::MULU => 34,
            Opcode::DIVU => 35,
            Opcode::ADDU_I => 36,
            Opcode::SUBU_I => 37,
            Opcode::MULU_I => 38,
            Opcode::DIVU_I => 39,
            Opcode::ADDF => 40,
            Opcode::SUBF => 41,
            Opcode::MULF => 42,
            Opcode::DIVF => 43,
            Opcode::ADDF_I => 44,
            Opcode::SUBF_I => 45,
            Opcode::MULF_I => 46,
            Opcode::DIVF_I => 47,
            Opcode::JMP => 48,
            Opcode::JMPT => 49,
            Opcode::JMPF => 50,
            Opcode::DJMP => 51,
            Opcode::DJMPT => 52,
            Opcode::DJMPF => 53,
            Opcode::CALL => 54,
            Opcode::RET => 55,
            Opcode::NOT => 56,
            Opcode::AND => 57,
            Opcode::OR => 58,
            Opcode::EQI => 59,
            Opcode::NEQI => 60,
            Opcode::LTI => 61,
            Opcode::GTI => 62,
            Opcode::LTEQI => 63,
            Opcode::GTEQI => 64,
            Opcode::EQF => 65,
            Opcode::NEQF => 66,
            Opcode::LTF => 67,
            Opcode::GTF => 68,
            Opcode::LTEQF => 69,
            Opcode::GTEQF => 70,
        }
    }

    /// The opcode that a number stands for.
    pub fn from_u8(number: u8) -> (opcode: Option<Opcode>)
        ensures
            opcode == opcode_of(number),
    {
        if number == 0 {
            Some(Opcode::NOOP)
        }         else if number == 1 {
            Some(Opcode::HALT)
        }         else if number == 2 {
            Some(Opcode::MOVB)
        }         else if number == 4 {
            Some(Opcode::MOVF)
        }         else if number == 5 {
            Some(Opcode::MOVI)
        }         else if number == 6 {
            Some(Opcode::MOVA)
        }         else if number == 7 {
            Some(Opcode::MOVB_A)
        }         else if number == 8 {
            Some(Opcode::MOVF_A)
        }         else if number == 9 {
            Some(Opcode::MOVI_A)
        }         else if number == 10 {
            Some(Opcode::MOVA_A)
        }         else if number == 11 {
            Some(Opcode::MOVN_A)
        }         else if number == 12 {
            Some(Opcode::MOVB_AR)
        }         else if number == 13 {
            Some(Opcode::MOVF_AR)
        }         else if number == 14 {
            Some(Opcode::MOVI_AR)
        }         else if number == 15 {
            Some(Opcode::MOVA_AR)
        }         else if number == 16 {
            Some(Opcode::MOVB_RA)
        }         else if number == 17 {
            Some(Opcode::MOVF_RA)
        }         else if number == 18 {
            Some(Opcode::MOVI_RA)
        }         else if number == 19 {
            Some(Opcode::MOVA_RA)
        }         else if number == 20 {
            Some(Opcode::LDB)
        }         else if number == 21 {
            Some(Opcode::LDF)
        }         else if number == 22 {
            Some(Opcode::LDI)
        }         else if number == 23 {
            Some(Opcode::LDA)
        }         else if number == 24 {
            Some(Opcode::ADDI)
        }         else if number == 25 {
            Some(Opcode::SUBI)
        }         else if number == 26 {
            Some(Opcode::MULI)
        }         else if number == 27 {
            Some(Opcode::DIVI)
        }         else if number == 28 {
            Some(Opcode::ADDI_I)
        }         else if number == 29 {
            Some(Opcode::SUBI_I)
        }         else if number == 30 {
            Some(Opcode::MULI_I)
        }         else if number == 31 {
            Some(Opcode::DIVI_I)
        }         else if number == 32 {
            Some(Opcode::ADDU)
        }         else if number == 33 {
            Some(Opcode::SUBU)
        }         else if number == 34 {
            Some(Opcode::MULU)
        }         else if number == 35 {
            Some(Opcode::DIVU)
        }         else if number == 36 {
            Some(Opcode::ADDU_I)
        }         else if number == 37 {
            Some(Opcode::SUBU_I)
        }         else if number == 38 {
            Some(Opcode::MULU_I)
        }         else if number == 39 {
            Some(Opcode::DIVU_I)
        }         else if number == 40 {
            Some(Opcode::ADDF)
        }         else if number == 41 {
            Some(Opcode::SUBF)
        }         else if number == 42 {
            Some(Opcode::MULF)
        }         else if number == 43 {
            Some(Opcode::DIVF)
        }         else if number == 44 {
            Some(Opcode::ADDF_I)
        }         else if number == 45 {
            Some(Opcode::SUBF_I)
        }         else if number == 46 {
            Some(Opcode::MULF_I)
        }         else if number == 47 {
            Some(Opcode::DIVF_I)
        }         else if number == 48 {
            Some(Opcode::JMP)
        }         else if number == 49 {
            Some(Opcode::JMPT)
        }         else if number == 50 {
            Some(Opcode::JMPF)
        }         else if number == 51 {
            Some(Opcode::DJMP)
        }         else if number == 52 {
            Some(Opcode::DJMPT)
        }         else if number == 53 {
            Some(Opcode::DJMPF)
        }         else if number == 54 {
            Some(Opcode::CALL)
        }         else if number == 55 {
            Some(Opcode::RET)
        }         else if number == 56 {
            Some(Opcode::NOT)
        }         else if number == 57 {
            Some(Opcode::AND)
        }         else if number == 58 {
            Some(Opcode::OR)
        }         else if number == 59 {
            Some(Opcode::EQI)
        }         else if number == 60 {
            Some(Opcode::NEQI)
        }         else if number == 61 {
            Some(Opcode::LTI)
        }         else if number == 62 {
            Some(Opcode::GTI)
        }         else if number == 63 {
            Some(Opcode::LTEQI)
        }         else if number == 64 {
            Some(Opcode::GTEQI)
        }         else if number == 65 {
            Some(Opcode::EQF)
        }         else if number == 66 {
            Some(Opcode::NEQF)
        }         else if number == 67 {
            Some(Opcode::LTF)
        }         else if number == 68 {
            Some(Opcode::GTF)
        }         else if number == 69 {
            Some(Opcode::LTEQF)
        }         else if number == 70 {
            Some(Opcode::GTEQF)
        } else {
            None
        }
    }

    /// The number of bytes that the operands of this opcode take.
    pub fn operand_len(&self) -> (length: usize)
        ensures
            length == operand_bytes(*self),
    {
        match self {
            Opcode::NOOP => 0,
            Opcode::HALT => 0,
            Opcode::MOVB => 2,
            Opcode::MOVF => 2,
            Opcode::MOVI => 2,
            Opcode::MOVA => 2,
            Opcode::MOVB_A => 9,
            Opcode::MOVF_A => 9,
            Opcode::MOVI_A => 9,
            Opcode::MOVA_A => 9,
            Opcode::MOVN_A => 9,
            Opcode::MOVB_AR => 4,
            Opcode::MOVF_AR => 4,
            Opcode::MOVI_AR => 4,
            Opcode::MOVA_AR => 4,
            Opcode::MOVB_RA => 4,
            Opcode::MOVF_RA => 4,
            Opcode::MOVI_RA => 4,
            Opcode::MOVA_RA => 4,
            Opcode::LDB => 2,
            Opcode::LDF => 5,
            Opcode::LDI => 9,
            Opcode::LDA => 9,
            Opcode::ADDI => 2,
            Opcode::SUBI => 2,
            Opcode::MULI => 2,
            Opcode::DIVI => 2,
            Opcode::ADDI_I => 9,
            Opcode::SUBI_I => 9,
            Opcode::MULI_I => 9,
            Opcode::DIVI_I => 9,
            Opcode::ADDU => 2,
            Opcode::SUBU => 2,
            Opcode::MULU => 2,
            Opcode::DIVU => 2,
            Opcode::ADDU_I => 9,
            Opcode::SUBU_I => 9,
            Opcode::MULU_I => 9,
            Opcode::DIVU_I => 9,
            Opcode::ADDF => 2,
            Opcode::SUBF => 2,
            Opcode::MULF => 2,
            Opcode::DIVF => 2,
            Opcode::ADDF_I => 5,
            Opcode::SUBF_I => 5,
            Opcode::MULF_I => 5,
            Opcode::DIVF_I => 5,
            Opcode::JMP => 8,
            Opcode::JMPT => 9,
            Opcode::JMPF => 9,
            Opcode::DJMP => 1,
            Opcode::DJMPT => 2,
            Opcode::DJMPF => 2,
            Opcode::CALL => 8,
            Opcode::RET => 0,
            Opcode::NOT => 1,
            Opcode::AND => 2,
            Opcode::OR => 2,
            Opcode::EQI => 2,
            Opcode::NEQI => 2,
            Opcode::LTI => 2,
            Opcode::GTI => 2,
            Opcode::LTEQI => 2,
            Opcode::GTEQI => 2,
            Opcode::EQF => 2,
            Opcode::NEQF => 2,
            Opcode::LTF => 2,
            Opcode::GTF => 2,
            Opcode::LTEQF => 2,
            Opcode::GTEQF => 2,
        }
    }
}

/// The number of an opcode stands for that opcode and for no other.
pub proof fn lemma_opcode_number(opcode: Opcode)
    ensures
        opcode_of(opcode_number(opcode)) == Some(opcode),
{
}

/// A number that stands for an opcode is the number of that opcode.
pub proof fn lemma_opcode_of(number: u8)
    requires
        opcode_of(number) is Some,
    ensures
        opcode_number(opcode_of(number)->0) == number,
{
}

} // verus!
