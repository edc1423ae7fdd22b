#![allow(unused_imports)]
use x8086::isa::{Condition, Flag, Instruction, Mnemonic, Operand, Reg16, Reg8, Repeat, Width};
use x8086::decoder::{decode_one, format_instruction, DecodeError};
use x8086::decoder::modrm::{decode_modrm, ModRmResult};
use x8086::decoder::groups::{arithmetic_group_from_reg_field, shift_rotate_group_from_reg_field, unary_group_from_reg_field};

#[test]
fn mod11_decodes_register_direct() {
    // 11 000 001 -> mod=11, reg=000, rm=001
    let result = decode_modrm(&[0b11_000_001], Width::Word).unwrap();
    assert_eq!(result.reg_field, 0);
    assert_eq!(result.rm_operand, Operand::Reg16(Reg16::Cx));
    assert_eq!(result.consumed, 1);
}

#[test]
fn mod11_respects_byte_width() {
    let result = decode_modrm(&[0b11_000_001], Width::Byte).unwrap();
    assert_eq!(result.rm_operand, Operand::Reg8(Reg8::Cl));
}

#[test]
fn mod00_rm110_is_direct_address() {
    // 00 000 110 + disp16(0x1234 little-endian)
    let result = decode_modrm(&[0b00_000_110, 0x34, 0x12], Width::Word).unwrap();
    assert_eq!(result.rm_operand, Operand::mem_direct(0x1234));
    assert_eq!(result.consumed, 3);
}

#[test]
fn mod00_bx_si_has_no_displacement() {
    // [BX+SI]: mod=00, rm=000
    let result = decode_modrm(&[0b00_000_000], Width::Word).unwrap();
    assert_eq!(
        result.rm_operand,
        Operand::mem(Some(Reg16::Bx), Some(Reg16::Si), 0)
    );
    assert_eq!(result.consumed, 1);
}

#[test]
fn mod01_adds_signed_8bit_displacement() {
    // [BP+DI-2]: mod=01, rm=011, disp8 = 0xFE (-2)
    let result = decode_modrm(&[0b01_000_011, 0xFE], Width::Word).unwrap();
    assert_eq!(
        result.rm_operand,
        Operand::mem(Some(Reg16::Bp), Some(Reg16::Di), -2)
    );
    assert_eq!(result.consumed, 2);
}

#[test]
fn mod10_adds_16bit_displacement() {
    // [SI+0x0100]: mod=10, rm=100
    let result = decode_modrm(&[0b10_000_100, 0x00, 0x01], Width::Word).unwrap();
    assert_eq!(
        result.rm_operand,
        Operand::mem(Some(Reg16::Si), None, 0x0100)
    );
    assert_eq!(result.consumed, 3);
}

#[test]
fn mod00_bp_alone_is_disallowed_falls_back_to_bp_base() {
    // [BP] with no displacement doesn't exist in the encoding table;
    // mod=00 rm=110 is reserved for direct addressing instead. This
    // test documents mod=01 rm=110 (0-displacement-in-practice via
    // disp8=0) as the real way to encode a bare [BP].
    let result = decode_modrm(&[0b01_000_110, 0x00], Width::Word).unwrap();
    assert_eq!(result.rm_operand, Operand::mem(Some(Reg16::Bp), None, 0));
}

#[test]
fn reports_unexpected_end_of_input_when_displacement_is_missing() {
    assert_eq!(
        decode_modrm(&[0b01_000_000], Width::Word).unwrap_err(),
        DecodeError::UnexpectedEndOfInput
    );
}
