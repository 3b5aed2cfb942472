//! Expansion of 16-bit compressed instructions into canonical 32-bit words.
//!
//! A compressed word is classified by its quadrant (bits 0 and 1, known to the
//! caller) and by the operation in bits 13 to 15. Each quadrant has one
//! function, which builds the equivalent full instruction or says why there is
//! none.

use vstd::prelude::*;
use vstd::pervasive::unreached;
use crate::DecodingError;
use crate::permute::Permutable;
use crate::permute::u16_bits::{lemma_scatter_steps_u16, scatter_u16};
use crate::word::{
    funct3, funct7, imm_field, imm_i, itype_word, lemma_itype_fields, lemma_rtype_fields, opcode,
    rd, rs1, rs2, rtype_word, OPCODE_LOAD, OPCODE_OP, OPCODE_OP_IMM,
};

verus! {

/// Number of the register that always reads zero.
pub const REGISTER_ZERO: u16 = 0;

/// Number of the stack pointer.
pub const REGISTER_SP: u16 = 2;

/// The R-type instructions that a compressed word can expand to.
#[derive(Clone, Copy, Debug, PartialEq, Eq)]
pub enum CrInstr {
    Sub,
}

/// The I-type instructions that a compressed word can expand to.
#[derive(Clone, Copy, Debug, PartialEq, Eq)]
pub enum CiInstr {
    Addi,
    Lw,
}

/// The layouts in which a compressed word stores an immediate.
#[derive(Clone, Copy, Debug, PartialEq, Eq)]
pub enum InstrFormat {
    Ci,
}

/// Bits 13 to 15 of a compressed word: the operation within its quadrant.
pub open spec fn c_funct3(i: u16) -> u16 {
    (i >> 13) & 0b111
}

/// Bits 7 to 11 of a compressed word: a full register number.
pub open spec fn c_rd(i: u16) -> u16 {
    (i >> 7) & 0b11111
}

/// Bit 12 of a compressed word.
pub open spec fn c_bit12(i: u16) -> u16 {
    (i >> 12) & 0b1
}

/// Bits 10 and 11 of a compressed word: the group within the arithmetic
/// operations of quadrant 1.
pub open spec fn c_alu_group(i: u16) -> u16 {
    (i >> 10) & 0b11
}

/// Bits 5 and 6 of a compressed word: the operation within the
/// register-register group of quadrant 1.
pub open spec fn c_alu_op(i: u16) -> u16 {
    (i >> 5) & 0b11
}

/// The register named by the three bits 7 to 9: one of registers 8 to 15.
pub open spec fn c_rd_short(i: u16) -> u16 {
    (8 + ((i >> 7) & 0b111)) as u16
}

/// The register named by the three bits 2 to 4: one of registers 8 to 15.
pub open spec fn c_rs2_short(i: u16) -> u16 {
    (8 + ((i >> 2) & 0b111)) as u16
}

/// The immediate of a CI-format word as it is stored: bit 12 of the word as
/// bit 5, bits 2 to 6 of the word as bits 0 to 4.
pub open spec fn ci_immediate(i: u16) -> u16 {
    (((i >> 12) & 0b1) << 5) | ((i >> 2) & 0b1_1111)
}

/// The stored immediate of a CI-format word extended to the twelve bits of
/// an I-type immediate field: bit 5, the sign, fills bits 6 to 11.
pub open spec fn ci_immediate_extended(i: u16) -> u16 {
    if ci_immediate(i) & 0b10_0000 != 0 {
        0b1111_1100_0000 | ci_immediate(i)
    } else {
        ci_immediate(i)
    }
}

/// A six-bit field read as a two's complement number.
pub open spec fn signed6(field: u16) -> int {
    if field >= 32 {
        field - 64
    } else {
        field as int
    }
}

/// The positions, most significant stored bit first, that the stored
/// immediate bits of a stack-relative word load have in the byte offset.
pub open spec fn lwsp_positions() -> Seq<usize> {
    seq![5, 4, 3, 2, 7, 6]
}

/// The byte offset of a stack-relative word load: bit 12 of the word is bit 5
/// of the offset, bits 4 to 6 are bits 2 to 4, bits 2 and 3 are bits 6 and 7.
pub open spec fn lwsp_offset(i: u16) -> u16 {
    (((i >> 12) & 0b1) << 5) | (((i >> 4) & 0b111) << 2) | (((i >> 2) & 0b11) << 6)
}

/// Packs the fields of an R-type instruction into its word.
pub fn build_rtype(instruction_type: CrInstr, rd: u16, rs1: u16, rs2: u16) -> (r: u32)
    ensures
        instruction_type == CrInstr::Sub ==> r == rtype_word(
            0b0100000,
            rs2 as u32,
            rs1 as u32,
            0b000,
            rd as u32,
            OPCODE_OP,
        ),
{
    let rd: u32 = rd as u32;
    let rs1: u32 = rs1 as u32;
    let rs2: u32 = rs2 as u32;
    match instruction_type {
        CrInstr::Sub => (0b0100000u32 << 25) | (rs2 << 20) | (rs1 << 15) | (0b000u32 << 12) | (rd
            << 7) | OPCODE_OP,
    }
}

/// Packs the fields of an I-type instruction into its word. A load takes the
/// stack pointer as its base, whatever `rs1` is.
pub fn build_itype(instruction_type: CiInstr, rd: u16, rs1: u16, imm: u16) -> (r: u32)
    ensures
        instruction_type == CiInstr::Addi ==> r == itype_word(
            imm as u32,
            rs1 as u32,
            0b000,
            rd as u32,
            OPCODE_OP_IMM,
        ),
        instruction_type == CiInstr::Lw ==> r == itype_word(
            imm as u32,
            REGISTER_SP as u32,
            0b010,
            rd as u32,
            OPCODE_LOAD,
        ),
{
    let rd: u32 = rd as u32;
    let rs1: u32 = rs1 as u32;
    let imm: u32 = imm as u32;
    let sp: u32 = REGISTER_SP as u32;
    match instruction_type {
        CiInstr::Addi => (imm << 20) | (rs1 << 15) | (0b000u32 << 12) | (rd << 7) | OPCODE_OP_IMM,
        CiInstr::Lw => (imm << 20) | (sp << 15) | (0b010u32 << 12) | (rd << 7) | OPCODE_LOAD,
    }
}

/// Gathers the immediate bits of a compressed word as they are stored,
/// without giving them their positional meaning.
pub fn get_imm(i: u16, fmt: InstrFormat) -> (r: u16)
    ensures
        fmt == InstrFormat::Ci ==> r == ci_immediate(i),
{
    match fmt {
        InstrFormat::Ci => {
            assert(((i >> 7) & 0b10_0000) | ((i >> 2) & 0b1_1111) == (((i >> 12) & 0b1) << 5) | ((i
                >> 2) & 0b1_1111)) by (bit_vector);
            ((i >> 7) & 0b10_0000) | ((i >> 2) & 0b1_1111)
        },
    }
}

/// Expands a compressed word of quadrant 0. No operation of this quadrant is
/// built yet: the all-zero operation is illegal, operation `100` is reserved.
pub fn decompress_q0(i: u16) -> (r: Result<u32, DecodingError>)
    ensures
        c_funct3(i) == 0b000 ==> r == Err::<u32, DecodingError>(DecodingError::Illegal),
        c_funct3(i) == 0b100 ==> r == Err::<u32, DecodingError>(DecodingError::Reserved),
        c_funct3(i) != 0b000 && c_funct3(i) != 0b100 ==> r == Err::<u32, DecodingError>(
            DecodingError::Unimplemented,
        ),
{
    match (i >> 13) & 0b111 {
        0b000 => Err(DecodingError::Illegal),
        0b100 => Err(DecodingError::Reserved),
        // C.FLD, C.LW, C.LD, C.FSD, C.SW, C.SD
        _ => Err(DecodingError::Unimplemented),
    }
}

/// The words of quadrant 1 that the decode table covers. In the
/// register-register group of the arithmetic operations only three values of
/// bit 12 and of bits 5 and 6 have an entry: `(0, 00)`, `(1, 10)` and
/// `(1, 11)`. A word of that group with another value must not reach the
/// decoder.
pub open spec fn q1_in_table(i: u16) -> bool {
    c_funct3(i) == 0b100 && c_alu_group(i) == 0b11 ==> {
        ||| c_bit12(i) == 0 && c_alu_op(i) == 0b00
        ||| c_bit12(i) == 1 && c_alu_op(i) == 0b10
        ||| c_bit12(i) == 1 && c_alu_op(i) == 0b11
    }
}

/// What a word of quadrant 1 that the table covers expands to.
pub open spec fn q1_expansion(i: u16) -> Result<u32, DecodingError>
    recommends
        q1_in_table(i),
{
    if c_funct3(i) == 0b010 {
        if c_rd(i) == 0 {
            Err(DecodingError::Reserved)
        } else {
            Ok(
                itype_word(
                    ci_immediate_extended(i) as u32,
                    REGISTER_ZERO as u32,
                    0b000,
                    c_rd(i) as u32,
                    OPCODE_OP_IMM,
                ),
            )
        }
    } else if c_funct3(i) == 0b100 && c_alu_group(i) == 0b11 {
        if c_bit12(i) == 0 && c_alu_op(i) == 0b00 {
            Ok(
                rtype_word(
                    0b0100000,
                    c_rs2_short(i) as u32,
                    c_rd_short(i) as u32,
                    0b000,
                    c_rd_short(i) as u32,
                    OPCODE_OP,
                ),
            )
        } else {
            Err(DecodingError::Reserved)
        }
    } else {
        Err(DecodingError::Unimplemented)
    }
}

/// Expands a compressed word of quadrant 1: a load of an immediate becomes an
/// add of the sign-extended immediate to the zero register, a
/// register-register subtract becomes the full subtract on registers 8 to 15.
/// A load of an immediate into register 0 is reserved.
pub fn decompress_q1(i: u16) -> (r: Result<u32, DecodingError>)
    requires
        q1_in_table(i),
    ensures
        r == q1_expansion(i),
{
    match (i >> 13) & 0b111 {
        // C.LI
        0b010 => {
            let rd = (i >> 7) & 0b11111;
            let stored = get_imm(i, InstrFormat::Ci);
            let imm = if stored & 0b10_0000 != 0 {
                0b1111_1100_0000 | stored
            } else {
                stored
            };
            if rd == 0 {
                Err(DecodingError::Reserved)
            } else {
                Ok(build_itype(CiInstr::Addi, rd, REGISTER_ZERO, imm))
            }
        },
        // MISC-ALU
        0b100 => match (i >> 10) & 0b11 {
            0b11 => {
                assert((i >> 7) & 0b111 < 8 && (i >> 2) & 0b111 < 8) by (bit_vector);
                let rs1_rd = 8 + ((i >> 7) & 0b111);
                let rs2 = 8 + ((i >> 2) & 0b111);
                match ((i >> 12) & 0b1, (i >> 5) & 0b11) {
                    (0, 0b00) => Ok(build_rtype(CrInstr::Sub, rs1_rd, rs1_rd, rs2)),
                    (1, 0b10) => Err(DecodingError::Reserved),
                    (1, 0b11) => Err(DecodingError::Reserved),
                    _ => unreached(),
                }
            },
            _ => Err(DecodingError::Unimplemented),
        },
        // C.ADDI, C.ADDIW, C.LUI/C.ADDI16SP, C.J, C.BEQZ, C.BNEZ
        _ => Err(DecodingError::Unimplemented),
    }
}

/// What a word of quadrant 2 expands to.
pub open spec fn q2_expansion(i: u16) -> Result<u32, DecodingError> {
    if c_funct3(i) == 0b010 {
        if c_rd(i) == 0 {
            Err(DecodingError::Reserved)
        } else {
            Ok(
                itype_word(
                    ci_immediate(i).inv_permute_spec(lwsp_positions()) as u32,
                    REGISTER_SP as u32,
                    0b010,
                    c_rd(i) as u32,
                    OPCODE_LOAD,
                ),
            )
        }
    } else {
        Err(DecodingError::Unimplemented)
    }
}

/// Expands a compressed word of quadrant 2: a stack-relative word load
/// becomes the full load with the stack pointer as its base. A load into
/// register 0 is reserved.
pub fn decompress_q2(i: u16) -> (r: Result<u32, DecodingError>)
    ensures
        r == q2_expansion(i),
{
    match (i >> 13) & 0b111 {
        // C.LWSP
        0b010 => {
            let rd = (i >> 7) & 0b11111;
            let positions: [usize; 6] = [5, 4, 3, 2, 7, 6];
            assert(positions@ =~= lwsp_positions());
            let imm = get_imm(i, InstrFormat::Ci).inv_permute(positions.as_slice());
            if rd == 0 {
                Err(DecodingError::Reserved)
            } else {
                Ok(build_itype(CiInstr::Lw, rd, 0, imm))
            }
        },
        // C.SLLI, C.FLDSP, C.LDSP, C.JR/C.MV/C.EBREAK/C.JALR/C.ADD, C.FSDSP, C.SWSP, C.SDSP
        _ => Err(DecodingError::Unimplemented),
    }
}

/// A load of an immediate into a register other than 0 expands to an add
/// immediate: its destination is that register, its source the zero register,
/// and its immediate is the stored immediate of the compressed word read as a
/// six-bit two's complement number.
pub proof fn lemma_li_expands_to_addi(i: u16)
    requires
        c_funct3(i) == 0b010,
        c_rd(i) != 0,
    ensures
        q1_in_table(i),
        q1_expansion(i) is Ok,
        opcode(q1_expansion(i)->Ok_0) == OPCODE_OP_IMM,
        funct3(q1_expansion(i)->Ok_0) == 0b000,
        rd(q1_expansion(i)->Ok_0) == c_rd(i),
        rs1(q1_expansion(i)->Ok_0) == REGISTER_ZERO,
        imm_field(q1_expansion(i)->Ok_0) == ci_immediate_extended(i),
        imm_i(q1_expansion(i)->Ok_0) == signed6(ci_immediate(i)),
{
    let stored = ci_immediate(i);
    assert(c_rd(i) < 32 && stored < 64) by (bit_vector)
        requires
            stored == ci_immediate(i),
    ;
    assert(stored < 64 ==> (stored & 0b10_0000 != 0 <==> stored >= 32) && (0b1111_1100_0000u16
        | stored) == 0b1111_1100_0000u16 + stored) by (bit_vector);
    lemma_itype_fields(ci_immediate_extended(i) as u32, 0, 0b000, c_rd(i) as u32, OPCODE_OP_IMM);
}

/// A compressed subtract expands to the full subtract whose destination and
/// first source are the register of bits 7 to 9 and whose second source is
/// the register of bits 2 to 4, each one of registers 8 to 15.
pub proof fn lemma_sub_expansion(i: u16)
    requires
        c_funct3(i) == 0b100,
        c_alu_group(i) == 0b11,
        c_bit12(i) == 0,
        c_alu_op(i) == 0b00,
    ensures
        q1_in_table(i),
        q1_expansion(i) is Ok,
        opcode(q1_expansion(i)->Ok_0) == OPCODE_OP,
        funct3(q1_expansion(i)->Ok_0) == 0b000,
        funct7(q1_expansion(i)->Ok_0) == 0b0100000,
        rd(q1_expansion(i)->Ok_0) == 8 + ((i >> 7) & 0b111),
        rs1(q1_expansion(i)->Ok_0) == 8 + ((i >> 7) & 0b111),
        rs2(q1_expansion(i)->Ok_0) == 8 + ((i >> 2) & 0b111),
{
    assert((i >> 7) & 0b111 < 8 && (i >> 2) & 0b111 < 8) by (bit_vector);
    lemma_rtype_fields(
        0b0100000,
        c_rs2_short(i) as u32,
        c_rd_short(i) as u32,
        0b000,
        c_rd_short(i) as u32,
        OPCODE_OP,
    );
}

/// In the register-register group of quadrant 1, bit 12 set together with
/// operation `10` or `11` is reserved.
pub proof fn lemma_alu_reserved(i: u16)
    requires
        c_funct3(i) == 0b100,
        c_alu_group(i) == 0b11,
        c_bit12(i) == 1,
        c_alu_op(i) == 0b10 || c_alu_op(i) == 0b11,
    ensures
        q1_in_table(i),
        q1_expansion(i) == Err::<u32, DecodingError>(DecodingError::Reserved),
{
}

/// Scattering the stored immediate of a stack-relative word load along its
/// positions gives the byte offset that the word encodes.
pub proof fn lemma_lwsp_offset(i: u16)
    ensures
        ci_immediate(i).inv_permute_spec(lwsp_positions()) == lwsp_offset(i),
{
    let x = ci_immediate(i);
    let p = lwsp_positions();
    assert(crate::permute::valid_permutation(p, 16));
    assert(crate::permute::distinct_positions(p));
    lemma_scatter_steps_u16(x, p, 1);
    lemma_scatter_steps_u16(x, p, 2);
    lemma_scatter_steps_u16(x, p, 3);
    lemma_scatter_steps_u16(x, p, 4);
    lemma_scatter_steps_u16(x, p, 5);
    lemma_scatter_steps_u16(x, p, 6);
    assert(scatter_u16(x, p, 0) == 0);
    assert(0u16 | (((x >> 0u16) & 1) << 6u16) | (((x >> 1u16) & 1) << 7u16) | (((x >> 2u16) & 1)
        << 2u16) | (((x >> 3u16) & 1) << 3u16) | (((x >> 4u16) & 1) << 4u16) | (((x >> 5u16) & 1)
        << 5u16) == lwsp_offset(i)) by (bit_vector)
        requires
            x == ci_immediate(i),
    ;
}

/// A stack-relative word load into a register other than 0 expands to a word
/// load into that register with the stack pointer as its base, whose
/// immediate is the stored immediate scattered along its positions: the byte
/// offset.
pub proof fn lemma_lwsp_expands_to_lw(i: u16)
    requires
        c_funct3(i) == 0b010,
        c_rd(i) != 0,
    ensures
        q2_expansion(i) is Ok,
        opcode(q2_expansion(i)->Ok_0) == OPCODE_LOAD,
        funct3(q2_expansion(i)->Ok_0) == 0b010,
        rd(q2_expansion(i)->Ok_0) == c_rd(i),
        rs1(q2_expansion(i)->Ok_0) == REGISTER_SP,
        imm_field(q2_expansion(i)->Ok_0) == ci_immediate(i).inv_permute_spec(lwsp_positions()),
        imm_i(q2_expansion(i)->Ok_0) == lwsp_offset(i),
{
    lemma_lwsp_offset(i);
    assert(c_rd(i) < 32 && lwsp_offset(i) < 256) by (bit_vector);
    lemma_itype_fields(lwsp_offset(i) as u32, 2, 0b010, c_rd(i) as u32, OPCODE_LOAD);
}

} // verus!
