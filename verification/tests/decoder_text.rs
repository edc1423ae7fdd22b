#![allow(unused_imports)]
use x8086::isa::{Condition, Flag, Instruction, Mnemonic, Operand, Reg16, Reg8, Repeat, Width};
use x8086::decoder::{decode_one, format_instruction, DecodeError};
use x8086::decoder::modrm::{decode_modrm, ModRmResult};
use x8086::decoder::groups::{arithmetic_group_from_reg_field, shift_rotate_group_from_reg_field, unary_group_from_reg_field};

#[test]
fn formats_register_to_register_mov() {
    let instr = Instruction::new(
        Mnemonic::Mov,
        vec![Operand::Reg16(Reg16::Ax), Operand::Reg16(Reg16::Bx)],
        Some(Width::Word),
        2,
    );
    assert_eq!(format_instruction(&instr, 0), "MOV AX, BX");
}

#[test]
fn formats_small_immediates_in_decimal_and_large_ones_in_hex() {
    let small = Instruction::new(
        Mnemonic::Mov,
        vec![Operand::Reg16(Reg16::Cx), Operand::Immediate(5)],
        Some(Width::Word),
        3,
    );
    assert_eq!(format_instruction(&small, 0), "MOV CX, 5");

    let large = Instruction::new(
        Mnemonic::Mov,
        vec![Operand::Reg16(Reg16::Cx), Operand::Immediate(0x1234)],
        Some(Width::Word),
        3,
    );
    assert_eq!(format_instruction(&large, 0), "MOV CX, 1234h");
}

#[test]
fn formats_base_index_displacement_memory_operands() {
    let instr = Instruction::new(
        Mnemonic::Mov,
        vec![
            Operand::Reg8(Reg8::Al),
            Operand::mem(Some(Reg16::Bx), Some(Reg16::Si), -2),
        ],
        Some(Width::Byte),
        2,
    );
    assert_eq!(format_instruction(&instr, 0), "MOV AL, [BX+SI-2]");
}

#[test]
fn formats_direct_addressing_in_hex_with_segment_override() {
    let instr = Instruction::new(
        Mnemonic::Mov,
        vec![
            Operand::Reg8(Reg8::Al),
            Operand::mem_direct(0x10).with_segment_override(Reg16::Es),
        ],
        Some(Width::Byte),
        4,
    );
    assert_eq!(format_instruction(&instr, 0), "MOV AL, ES:[0010h]");
}

#[test]
fn adds_a_size_prefix_only_when_the_memory_operand_is_otherwise_ambiguous() {
    let ambiguous = Instruction::new(
        Mnemonic::Mov,
        vec![Operand::mem_direct(0x10), Operand::Immediate(5)],
        Some(Width::Byte),
        4,
    );
    assert_eq!(format_instruction(&ambiguous, 0), "MOV BYTE PTR [0010h], 5");

    let unambiguous = Instruction::new(
        Mnemonic::Mov,
        vec![Operand::Reg8(Reg8::Al), Operand::mem_direct(0x10)],
        Some(Width::Byte),
        3,
    );
    assert_eq!(format_instruction(&unambiguous, 0), "MOV AL, [0010h]");
}

#[test]
fn resolves_a_relative_jump_to_its_absolute_target_address() {
    // JMP SHORT +2, encoded at address 0x0100 as a 2-byte instruction:
    // target = 0x0100 + 2 (byte_len) + 2 (displacement) = 0x0104.
    let instr = Instruction::new(Mnemonic::Jmp, vec![Operand::Immediate(2)], None, 2);
    assert_eq!(format_instruction(&instr, 0x0100), "JMP 0104h");
}

#[test]
fn resolves_a_backward_conditional_jump() {
    // JE -5 at address 0x0010, 2 bytes long: target = 0x0010+2-5 = 0x000D.
    let instr = Instruction::new(
        Mnemonic::Jcc(Condition::Equal),
        vec![Operand::Immediate(-5)],
        None,
        2,
    );
    assert_eq!(format_instruction(&instr, 0x0010), "JE 000Dh");
}

#[test]
fn formats_operand_less_instructions_as_bare_mnemonics() {
    let instr = Instruction::new(Mnemonic::Hlt, vec![], None, 1);
    assert_eq!(format_instruction(&instr, 0), "HLT");
}

#[test]
fn formats_int_with_a_byte_vector() {
    let instr = Instruction::new(Mnemonic::Int, vec![Operand::Immediate(0x21)], None, 2);
    assert_eq!(format_instruction(&instr, 0), "INT 21h");
}
