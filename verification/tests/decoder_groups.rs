#![allow(unused_imports)]
use x8086::isa::{Condition, Flag, Instruction, Mnemonic, Operand, Reg16, Reg8, Repeat, Width};
use x8086::decoder::{decode_one, format_instruction, DecodeError};
use x8086::decoder::modrm::{decode_modrm, ModRmResult};
use x8086::decoder::groups::{arithmetic_group_table, arithmetic_group_from_reg_field, shift_rotate_group_from_reg_field, unary_group_from_reg_field};

#[test]
fn arithmetic_group_matches_the_intel_encoding_table() {
    let expected = [
        Mnemonic::Add,
        Mnemonic::Or,
        Mnemonic::Adc,
        Mnemonic::Sbb,
        Mnemonic::And,
        Mnemonic::Sub,
        Mnemonic::Xor,
        Mnemonic::Cmp,
    ];
    assert_eq!(arithmetic_group_table(), expected);
    for (index, mnemonic) in expected.into_iter().enumerate() {
        assert_eq!(arithmetic_group_from_reg_field(index as u8), mnemonic);
    }
}

#[test]
fn shift_rotate_group_matches_the_intel_encoding_table() {
    assert_eq!(shift_rotate_group_from_reg_field(0), Mnemonic::Rol);
    assert_eq!(shift_rotate_group_from_reg_field(1), Mnemonic::Ror);
    assert_eq!(shift_rotate_group_from_reg_field(2), Mnemonic::Rcl);
    assert_eq!(shift_rotate_group_from_reg_field(3), Mnemonic::Rcr);
    assert_eq!(shift_rotate_group_from_reg_field(4), Mnemonic::Shl);
    assert_eq!(shift_rotate_group_from_reg_field(5), Mnemonic::Shr);
    assert_eq!(shift_rotate_group_from_reg_field(7), Mnemonic::Sar);
}

#[test]
fn unary_group_matches_the_intel_encoding_table() {
    assert_eq!(unary_group_from_reg_field(0), Mnemonic::Test);
    assert_eq!(unary_group_from_reg_field(1), Mnemonic::Test);
    assert_eq!(unary_group_from_reg_field(2), Mnemonic::Not);
    assert_eq!(unary_group_from_reg_field(3), Mnemonic::Neg);
    assert_eq!(unary_group_from_reg_field(4), Mnemonic::Mul);
    assert_eq!(unary_group_from_reg_field(5), Mnemonic::Imul);
    assert_eq!(unary_group_from_reg_field(6), Mnemonic::Div);
    assert_eq!(unary_group_from_reg_field(7), Mnemonic::Idiv);
}
