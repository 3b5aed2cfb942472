use riscu::decompress::{
    build_itype, build_rtype, decompress_q0, decompress_q1, decompress_q2, get_imm, CiInstr,
    CrInstr, InstrFormat,
};
use riscu::DecodingError;

fn opcode(w: u32) -> u32 {
    w & 0x7f
}

fn rd(w: u32) -> u32 {
    (w >> 7) & 0x1f
}

fn funct3(w: u32) -> u32 {
    (w >> 12) & 0x7
}

fn rs1(w: u32) -> u32 {
    (w >> 15) & 0x1f
}

fn rs2(w: u32) -> u32 {
    (w >> 20) & 0x1f
}

fn funct7(w: u32) -> u32 {
    w >> 25
}

fn imm_i(w: u32) -> i32 {
    (w as i32) >> 20
}

#[test]
fn q0_all_zero_is_illegal() {
    assert_eq!(decompress_q0(0x0000), Err(DecodingError::Illegal));
}

#[test]
fn q0_classifies_every_word_by_its_top_bits() {
    for i in 0..=u16::MAX {
        let expected = match i >> 13 {
            0b000 => DecodingError::Illegal,
            0b100 => DecodingError::Reserved,
            _ => DecodingError::Unimplemented,
        };
        assert_eq!(decompress_q0(i), Err(expected), "word {:#06x}", i);
    }
}

#[test]
fn q0_operation_100_is_reserved() {
    assert_eq!(decompress_q0(0x8000), Err(DecodingError::Reserved));
    assert_eq!(decompress_q0(0x9ffc), Err(DecodingError::Reserved));
}

#[test]
fn q0_loads_and_stores_are_unimplemented() {
    for i in [0x2000u16, 0x4000, 0x6000, 0xa000, 0xc000, 0xe000] {
        assert_eq!(decompress_q0(i), Err(DecodingError::Unimplemented));
    }
}

#[test]
fn q1_li_expands_to_addi() {
    // c.li x1, 1
    assert_eq!(decompress_q1(0x4085), Ok(0x0010_0093));
    // c.li x10, 31
    assert_eq!(decompress_q1(0x457d), Ok(0x01f0_0513));
}

#[test]
fn q1_li_fields_for_every_register_and_immediate() {
    for rd_number in 1..32u16 {
        for imm in -32..32i32 {
            let stored = (imm & 0x3f) as u16;
            let i = 0b010 << 13 | (stored >> 5) << 12 | rd_number << 7 | (stored & 0x1f) << 2 | 0b01;
            let w = decompress_q1(i).unwrap();
            assert_eq!(opcode(w), 0b0010011);
            assert_eq!(funct3(w), 0b000);
            assert_eq!(rd(w), rd_number as u32);
            assert_eq!(rs1(w), 0);
            assert_eq!(imm_i(w), imm);
        }
    }
}

#[test]
fn q1_li_extends_the_sign_of_the_stored_immediate() {
    // c.li x10, -1
    assert_eq!(decompress_q1(0x557d), Ok(0xfff0_0513));
    // c.li x1, -32
    assert_eq!(decompress_q1(0x5081), Ok(0xfe00_0093));
    assert_eq!(imm_i(decompress_q1(0x5081).unwrap()), -32);
    // c.li x1, 31
    assert_eq!(decompress_q1(0x40fd), Ok(0x01f0_0093));
}

#[test]
fn q1_li_into_register_zero_is_reserved() {
    assert_eq!(decompress_q1(0x4001), Err(DecodingError::Reserved));
    assert_eq!(decompress_q1(0x507d), Err(DecodingError::Reserved));
}

#[test]
fn q1_sub_expands_to_sub() {
    // c.sub x8, x9
    assert_eq!(decompress_q1(0x8c05), Ok(0x4094_0433));
}

#[test]
fn q1_sub_fields_for_every_register_pair() {
    for rd_short in 0..8u16 {
        for rs2_short in 0..8u16 {
            let i = 0b100 << 13 | 0b11 << 10 | rd_short << 7 | rs2_short << 2 | 0b01;
            let w = decompress_q1(i).unwrap();
            assert_eq!(opcode(w), 0b0110011);
            assert_eq!(funct3(w), 0b000);
            assert_eq!(funct7(w), 0b0100000);
            assert_eq!(rd(w), 8 + rd_short as u32);
            assert_eq!(rs1(w), 8 + rd_short as u32);
            assert_eq!(rs2(w), 8 + rs2_short as u32);
        }
    }
}

#[test]
fn q1_alu_with_bit_12_and_high_operation_is_reserved() {
    assert_eq!(decompress_q1(0x9c45), Err(DecodingError::Reserved));
    assert_eq!(decompress_q1(0x9c65), Err(DecodingError::Reserved));
    assert_eq!(decompress_q1(0x9ffd), Err(DecodingError::Reserved));
}

#[test]
fn q1_other_operations_are_unimplemented() {
    for i in [0x0001u16, 0x2001, 0x6001, 0x8001, 0x8401, 0x8801, 0xa001, 0xc001, 0xe001] {
        assert_eq!(decompress_q1(i), Err(DecodingError::Unimplemented));
    }
}

#[test]
fn q2_lwsp_expands_to_lw() {
    // c.lwsp x1, 4(sp)
    assert_eq!(decompress_q2(0x4092), Ok(0x0041_2083));
    // c.lwsp x1, 64(sp)
    assert_eq!(decompress_q2(0x4086), Ok(0x0401_2083));
    // c.lwsp x15, 252(sp)
    assert_eq!(decompress_q2(0x57fe), Ok(0x0fc1_2783));
}

#[test]
fn q2_lwsp_fields_for_every_register_and_offset() {
    for rd_number in 1..32u16 {
        for offset in (0..256u16).step_by(4) {
            let stored = (offset >> 5 & 1) << 12 | (offset >> 2 & 0b111) << 4 | (offset >> 6) << 2;
            let i = 0b010 << 13 | rd_number << 7 | stored | 0b10;
            let w = decompress_q2(i).unwrap();
            assert_eq!(opcode(w), 0b0000011);
            assert_eq!(funct3(w), 0b010);
            assert_eq!(rd(w), rd_number as u32);
            assert_eq!(rs1(w), 2);
            assert_eq!(imm_i(w), offset as i32);
        }
    }
}

#[test]
fn q2_lwsp_into_register_zero_is_reserved() {
    assert_eq!(decompress_q2(0x4002), Err(DecodingError::Reserved));
    assert_eq!(decompress_q2(0x507e), Err(DecodingError::Reserved));
}

#[test]
fn q2_other_operations_are_unimplemented() {
    for i in [0x0002u16, 0x2002, 0x6002, 0x8002, 0xa002, 0xc002, 0xe002] {
        assert_eq!(decompress_q2(i), Err(DecodingError::Unimplemented));
    }
}

#[test]
fn decoding_is_the_same_on_every_call() {
    for i in [0x0000u16, 0x4085, 0x8c05, 0x9c45, 0x4092, 0xe002] {
        assert_eq!(decompress_q0(i), decompress_q0(i));
        assert_eq!(decompress_q1(i), decompress_q1(i));
        assert_eq!(decompress_q2(i), decompress_q2(i));
    }
}

#[test]
fn rtype_word_of_sub() {
    assert_eq!(build_rtype(CrInstr::Sub, 8, 8, 9), 0x4094_0433);
    assert_eq!(build_rtype(CrInstr::Sub, 0, 0, 0), 0x4000_0033);
    assert_eq!(build_rtype(CrInstr::Sub, 31, 30, 29), 0x41df_0fb3);
    assert_eq!(rs2(build_rtype(CrInstr::Sub, 31, 30, 29)), 29);
}

#[test]
fn itype_word_of_addi() {
    assert_eq!(build_itype(CiInstr::Addi, 1, 0, 1), 0x0010_0093);
    assert_eq!(build_itype(CiInstr::Addi, 10, 5, 31), 0x01f2_8513);
}

#[test]
fn itype_word_of_lw_has_the_stack_pointer_as_base() {
    assert_eq!(build_itype(CiInstr::Lw, 1, 0, 4), 0x0041_2083);
    assert_eq!(build_itype(CiInstr::Lw, 1, 7, 4), 0x0041_2083);
}

#[test]
fn stored_immediate_of_ci_format() {
    assert_eq!(get_imm(0x4085, InstrFormat::Ci), 1);
    assert_eq!(get_imm(0x457d, InstrFormat::Ci), 31);
    assert_eq!(get_imm(0x5081, InstrFormat::Ci), 32);
    assert_eq!(get_imm(0x107c, InstrFormat::Ci), 63);
    assert_eq!(get_imm(0xef83, InstrFormat::Ci), 0);
}
