//! The fields of a canonical 32-bit instruction word.

use vstd::prelude::*;

verus! {

/// Opcode of the register-register arithmetic instructions.
pub const OPCODE_OP: u32 = 0b0110011;

/// Opcode of the register-immediate arithmetic instructions.
pub const OPCODE_OP_IMM: u32 = 0b0010011;

/// Opcode of the load instructions.
pub const OPCODE_LOAD: u32 = 0b0000011;

/// Bits 0 to 6.
pub open spec fn opcode(w: u32) -> u32 {
    w & 0x7f
}

/// Bits 7 to 11: the destination register.
pub open spec fn rd(w: u32) -> u32 {
    (w >> 7) & 0x1f
}

/// Bits 12 to 14.
pub open spec fn funct3(w: u32) -> u32 {
    (w >> 12) & 0x7
}

/// Bits 15 to 19: the first source register.
pub open spec fn rs1(w: u32) -> u32 {
    (w >> 15) & 0x1f
}

/// Bits 20 to 24: the second source register of an R-type word.
pub open spec fn rs2(w: u32) -> u32 {
    (w >> 20) & 0x1f
}

/// Bits 25 to 31 of an R-type word.
pub open spec fn funct7(w: u32) -> u32 {
    (w >> 25) & 0x7f
}

/// Bits 20 to 31 as they stand: the immediate field of an I-type word.
pub open spec fn imm_field(w: u32) -> u32 {
    w >> 20
}

/// The immediate of an I-type word: bits 20 to 31 read as a two's complement
/// number.
pub open spec fn imm_i(w: u32) -> int {
    if imm_field(w) >= 2048 {
        imm_field(w) - 4096
    } else {
        imm_field(w) as int
    }
}

/// The word of an R-type instruction, field by field.
pub open spec fn rtype_word(funct7: u32, rs2: u32, rs1: u32, funct3: u32, rd: u32, opcode: u32) -> u32 {
    (funct7 << 25) | (rs2 << 20) | (rs1 << 15) | (funct3 << 12) | (rd << 7) | opcode
}

/// The word of an I-type instruction, field by field.
pub open spec fn itype_word(imm: u32, rs1: u32, funct3: u32, rd: u32, opcode: u32) -> u32 {
    (imm << 20) | (rs1 << 15) | (funct3 << 12) | (rd << 7) | opcode
}

/// An R-type word built from fields that fit gives each field back.
pub proof fn lemma_rtype_fields(funct7: u32, rs2: u32, rs1: u32, funct3: u32, rd: u32, op: u32)
    by (bit_vector)
    requires
        funct7 < 128,
        rs2 < 32,
        rs1 < 32,
        funct3 < 8,
        rd < 32,
        op < 128,
    ensures
        opcode(rtype_word(funct7, rs2, rs1, funct3, rd, op)) == op,
        self::rd(rtype_word(funct7, rs2, rs1, funct3, rd, op)) == rd,
        self::funct3(rtype_word(funct7, rs2, rs1, funct3, rd, op)) == funct3,
        self::rs1(rtype_word(funct7, rs2, rs1, funct3, rd, op)) == rs1,
        self::rs2(rtype_word(funct7, rs2, rs1, funct3, rd, op)) == rs2,
        self::funct7(rtype_word(funct7, rs2, rs1, funct3, rd, op)) == funct7,
{
}

/// An I-type word built from fields that fit gives each field back.
pub proof fn lemma_itype_fields(imm: u32, rs1: u32, funct3: u32, rd: u32, op: u32)
    by (bit_vector)
    requires
        imm < 4096,
        rs1 < 32,
        funct3 < 8,
        rd < 32,
        op < 128,
    ensures
        opcode(itype_word(imm, rs1, funct3, rd, op)) == op,
        self::rd(itype_word(imm, rs1, funct3, rd, op)) == rd,
        self::funct3(itype_word(imm, rs1, funct3, rd, op)) == funct3,
        self::rs1(itype_word(imm, rs1, funct3, rd, op)) == rs1,
        imm_field(itype_word(imm, rs1, funct3, rd, op)) == imm,
{
}

} // verus!
