#![allow(unused_imports)]
use x8086::isa::{Condition, Flag, Instruction, Mnemonic, Operand, Reg16, Reg8, Repeat, Width};
use x8086::decoder::{decode_one, format_instruction, DecodeError};
use x8086::decoder::modrm::{decode_modrm, ModRmResult};
use x8086::decoder::groups::{arithmetic_group_from_reg_field, shift_rotate_group_from_reg_field, unary_group_from_reg_field};

#[test]
fn empty_input_is_an_error() {
    assert_eq!(decode_one(&[]), Err(DecodeError::UnexpectedEndOfInput));
}

#[test]
fn unknown_opcode_is_reported() {
    // 0x0F: reserved on 8086/80186, deliberately undecoded.
    assert_eq!(
        decode_one(&[0x0F]).unwrap_err(),
        DecodeError::InvalidOpcode(0x0F)
    );
}

#[test]
fn decodes_hlt_and_processor_control_instructions() {
    for (byte, mnemonic) in [
        (0xF4, Mnemonic::Hlt),
        (0x90, Mnemonic::Nop),
        (0xF8, Mnemonic::Clc),
        (0xF9, Mnemonic::Stc),
        (0xF5, Mnemonic::Cmc),
        (0xFC, Mnemonic::Cld),
        (0xFD, Mnemonic::Std),
        (0xFA, Mnemonic::Cli),
        (0xFB, Mnemonic::Sti),
        (0x9C, Mnemonic::Pushf),
        (0x9D, Mnemonic::Popf),
        (0x9E, Mnemonic::Sahf),
        (0x9F, Mnemonic::Lahf),
        (0xD7, Mnemonic::Xlat),
        (0xC3, Mnemonic::Ret),
        (0xCC, Mnemonic::Int3),
        (0xCF, Mnemonic::Iret),
    ] {
        let (instr, len) = decode_one(&[byte]).unwrap();
        assert_eq!(instr.mnemonic, mnemonic, "opcode {byte:#04x}");
        assert_eq!(len, 1);
        assert!(instr.operands.is_empty());
    }
}

#[test]
fn decodes_mov_reg_to_reg() {
    // MOV CX, AX -> 89 C1 (mod=11 reg=000(AX) rm=001(CX), direction to rm)
    let (instr, len) = decode_one(&[0x89, 0b11_000_001]).unwrap();
    assert_eq!(instr.mnemonic, Mnemonic::Mov);
    assert_eq!(
        instr.operands,
        vec![Operand::Reg16(Reg16::Cx), Operand::Reg16(Reg16::Ax)]
    );
    assert_eq!(instr.width, Some(Width::Word));
    assert_eq!(len, 2);
}

#[test]
fn decodes_mov_reg_imm16() {
    // MOV AX, 0x1234 -> B8 34 12
    let (instr, len) = decode_one(&[0xB8, 0x34, 0x12]).unwrap();
    assert_eq!(instr.mnemonic, Mnemonic::Mov);
    assert_eq!(
        instr.operands,
        vec![Operand::Reg16(Reg16::Ax), Operand::Immediate(0x1234)]
    );
    assert_eq!(len, 3);
}

#[test]
fn decodes_mov_reg_imm8() {
    // MOV AL, 0x42 -> B0 42
    let (instr, len) = decode_one(&[0xB0, 0x42]).unwrap();
    assert_eq!(instr.mnemonic, Mnemonic::Mov);
    assert_eq!(
        instr.operands,
        vec![Operand::Reg8(Reg8::Al), Operand::Immediate(0x42)]
    );
    assert_eq!(len, 2);
}

#[test]
fn decodes_mov_memory_to_accumulator() {
    // MOV AX, [0x0100] -> A1 00 01
    let (instr, len) = decode_one(&[0xA1, 0x00, 0x01]).unwrap();
    assert_eq!(instr.mnemonic, Mnemonic::Mov);
    assert_eq!(
        instr.operands,
        vec![Operand::Reg16(Reg16::Ax), Operand::mem_direct(0x0100)]
    );
    assert_eq!(len, 3);
}

#[test]
fn decodes_mov_rm_immediate() {
    // MOV WORD [BX], 0x0005 -> C7 07 05 00
    let (instr, len) = decode_one(&[0xC7, 0b00_000_111, 0x05, 0x00]).unwrap();
    assert_eq!(instr.mnemonic, Mnemonic::Mov);
    assert_eq!(
        instr.operands,
        vec![
            Operand::mem(Some(Reg16::Bx), None, 0),
            Operand::Immediate(5)
        ]
    );
    assert_eq!(len, 4);
}

#[test]
fn decodes_mov_segment_register() {
    // MOV DS, AX -> 8E D8 (reg field 011 = DS)
    let (instr, len) = decode_one(&[0x8E, 0b11_011_000]).unwrap();
    assert_eq!(instr.mnemonic, Mnemonic::Mov);
    assert_eq!(
        instr.operands,
        vec![Operand::Reg16(Reg16::Ds), Operand::Reg16(Reg16::Ax)]
    );
    assert_eq!(len, 2);
}

#[test]
fn rejects_reserved_segment_register_encoding() {
    // reg field 100 (4) is not a valid segment register.
    assert_eq!(
        decode_one(&[0x8E, 0b11_100_000]).unwrap_err(),
        DecodeError::InvalidOpcode(0x8E)
    );
}

#[test]
fn decodes_lea() {
    // LEA AX, [BX+SI] -> 8D 00
    let (instr, len) = decode_one(&[0x8D, 0b00_000_000]).unwrap();
    assert_eq!(instr.mnemonic, Mnemonic::Lea);
    assert_eq!(
        instr.operands,
        vec![
            Operand::Reg16(Reg16::Ax),
            Operand::mem(Some(Reg16::Bx), Some(Reg16::Si), 0)
        ]
    );
    assert_eq!(len, 2);
}

#[test]
fn decodes_xchg_accumulator_form() {
    // XCHG AX, BX -> 93
    let (instr, len) = decode_one(&[0x93]).unwrap();
    assert_eq!(instr.mnemonic, Mnemonic::Xchg);
    assert_eq!(
        instr.operands,
        vec![Operand::Reg16(Reg16::Ax), Operand::Reg16(Reg16::Bx)]
    );
    assert_eq!(len, 1);
}

#[test]
fn decodes_all_eight_arithmetic_group_register_forms() {
    // opcode base -> mnemonic, using the "+2" (r8,r/m8 -> to reg) form
    // with mod=11 reg=000(AL) rm=001(CL) so it round-trips cleanly.
    let cases = [
        (0x02, Mnemonic::Add),
        (0x0A, Mnemonic::Or),
        (0x12, Mnemonic::Adc),
        (0x1A, Mnemonic::Sbb),
        (0x22, Mnemonic::And),
        (0x2A, Mnemonic::Sub),
        (0x32, Mnemonic::Xor),
        (0x3A, Mnemonic::Cmp),
    ];
    for (opcode, mnemonic) in cases {
        let (instr, len) = decode_one(&[opcode, 0b11_000_001]).unwrap();
        assert_eq!(instr.mnemonic, mnemonic, "opcode {opcode:#04x}");
        assert_eq!(
            instr.operands,
            vec![Operand::Reg8(Reg8::Al), Operand::Reg8(Reg8::Cl)]
        );
        assert_eq!(len, 2);
    }
}

#[test]
fn decodes_add_al_imm8() {
    // ADD AL, 5 -> 04 05
    let (instr, len) = decode_one(&[0x04, 0x05]).unwrap();
    assert_eq!(instr.mnemonic, Mnemonic::Add);
    assert_eq!(
        instr.operands,
        vec![Operand::Reg8(Reg8::Al), Operand::Immediate(5)]
    );
    assert_eq!(len, 2);
}

#[test]
fn decodes_sub_ax_imm16() {
    // SUB AX, 0x0100 -> 2D 00 01
    let (instr, len) = decode_one(&[0x2D, 0x00, 0x01]).unwrap();
    assert_eq!(instr.mnemonic, Mnemonic::Sub);
    assert_eq!(
        instr.operands,
        vec![Operand::Reg16(Reg16::Ax), Operand::Immediate(0x0100)]
    );
    assert_eq!(len, 3);
}

#[test]
fn decodes_immediate_group_16bit_form() {
    // ADD WORD [BX], 0x0010 -> 81 07 10 00 (reg field 000 = ADD)
    let (instr, len) = decode_one(&[0x81, 0b00_000_111, 0x10, 0x00]).unwrap();
    assert_eq!(instr.mnemonic, Mnemonic::Add);
    assert_eq!(
        instr.operands,
        vec![
            Operand::mem(Some(Reg16::Bx), None, 0),
            Operand::Immediate(0x10)
        ]
    );
    assert_eq!(len, 4);
}

#[test]
fn decodes_immediate_group_sign_extended_form() {
    // CMP CX, -1 -> 83 F9 FF (reg field 111 = CMP, rm=001=CX)
    let (instr, len) = decode_one(&[0x83, 0b11_111_001, 0xFF]).unwrap();
    assert_eq!(instr.mnemonic, Mnemonic::Cmp);
    assert_eq!(
        instr.operands,
        vec![Operand::Reg16(Reg16::Cx), Operand::Immediate(-1)]
    );
    assert_eq!(len, 3);
}

#[test]
fn decodes_test_forms() {
    // TEST AL, 0x0F -> A8 0F
    let (instr, len) = decode_one(&[0xA8, 0x0F]).unwrap();
    assert_eq!(instr.mnemonic, Mnemonic::Test);
    assert_eq!(
        instr.operands,
        vec![Operand::Reg8(Reg8::Al), Operand::Immediate(0x0F)]
    );
    assert_eq!(len, 2);
}

#[test]
fn decodes_inc_dec_register_forms() {
    // INC CX -> 41, DEC CX -> 49
    let (inc, inc_len) = decode_one(&[0x41]).unwrap();
    assert_eq!(inc.mnemonic, Mnemonic::Inc);
    assert_eq!(inc.operands, vec![Operand::Reg16(Reg16::Cx)]);
    assert_eq!(inc_len, 1);

    let (dec, dec_len) = decode_one(&[0x49]).unwrap();
    assert_eq!(dec.mnemonic, Mnemonic::Dec);
    assert_eq!(dec.operands, vec![Operand::Reg16(Reg16::Cx)]);
    assert_eq!(dec_len, 1);
}

#[test]
fn decodes_inc_dec_memory_byte_form() {
    // INC BYTE [BX] -> FE 07 (reg field 000 = INC)
    let (instr, len) = decode_one(&[0xFE, 0b00_000_111]).unwrap();
    assert_eq!(instr.mnemonic, Mnemonic::Inc);
    assert_eq!(instr.width, Some(Width::Byte));
    assert_eq!(len, 2);
}

#[test]
fn decodes_group_ff_push_form() {
    // PUSH WORD [BX] -> FF 37 (reg field 110 = PUSH)
    let (instr, len) = decode_one(&[0xFF, 0b00_110_111]).unwrap();
    assert_eq!(instr.mnemonic, Mnemonic::Push);
    assert_eq!(len, 2);
}

#[test]
fn group_ff_indirect_call_form_is_not_yet_supported() {
    // reg field 010 = CALL r/m16 (indirect) - deliberately deferred.
    assert_eq!(
        decode_one(&[0xFF, 0b00_010_111]).unwrap_err(),
        DecodeError::InvalidOpcode(0xFF)
    );
}

#[test]
fn decodes_push_pop_register_forms() {
    let (push, push_len) = decode_one(&[0x53]).unwrap(); // PUSH BX
    assert_eq!(push.mnemonic, Mnemonic::Push);
    assert_eq!(push.operands, vec![Operand::Reg16(Reg16::Bx)]);
    assert_eq!(push_len, 1);

    let (pop, pop_len) = decode_one(&[0x5B]).unwrap(); // POP BX
    assert_eq!(pop.mnemonic, Mnemonic::Pop);
    assert_eq!(pop.operands, vec![Operand::Reg16(Reg16::Bx)]);
    assert_eq!(pop_len, 1);
}

#[test]
fn decodes_push_pop_segment_registers() {
    for (byte, mnemonic, reg) in [
        (0x06, Mnemonic::Push, Reg16::Es),
        (0x07, Mnemonic::Pop, Reg16::Es),
        (0x0E, Mnemonic::Push, Reg16::Cs),
        (0x16, Mnemonic::Push, Reg16::Ss),
        (0x17, Mnemonic::Pop, Reg16::Ss),
        (0x1E, Mnemonic::Push, Reg16::Ds),
        (0x1F, Mnemonic::Pop, Reg16::Ds),
    ] {
        let (instr, len) = decode_one(&[byte]).unwrap();
        assert_eq!(instr.mnemonic, mnemonic, "opcode {byte:#04x}");
        assert_eq!(instr.operands, vec![Operand::Reg16(reg)]);
        assert_eq!(len, 1);
    }
}

#[test]
fn decodes_pop_rm_memory_form() {
    // POP WORD [BX] -> 8F 07
    let (instr, len) = decode_one(&[0x8F, 0b00_000_111]).unwrap();
    assert_eq!(instr.mnemonic, Mnemonic::Pop);
    assert_eq!(len, 2);
}

#[test]
fn decodes_all_sixteen_conditional_jumps() {
    let expected = [
        Condition::Overflow,
        Condition::NotOverflow,
        Condition::Below,
        Condition::AboveOrEqual,
        Condition::Equal,
        Condition::NotEqual,
        Condition::BelowOrEqual,
        Condition::Above,
        Condition::Sign,
        Condition::NotSign,
        Condition::Parity,
        Condition::NotParity,
        Condition::Less,
        Condition::GreaterOrEqual,
        Condition::LessOrEqual,
        Condition::Greater,
    ];
    for (index, condition) in expected.into_iter().enumerate() {
        let opcode = 0x70 + index as u8;
        let (instr, len) = decode_one(&[opcode, 0x02]).unwrap();
        assert_eq!(
            instr.mnemonic,
            Mnemonic::Jcc(condition),
            "opcode {opcode:#04x}"
        );
        assert_eq!(instr.operands, vec![Operand::Immediate(2)]);
        assert_eq!(len, 2);
    }
}

#[test]
fn decodes_negative_relative_jump() {
    // JMP short -2 -> EB FE
    let (instr, len) = decode_one(&[0xEB, 0xFE]).unwrap();
    assert_eq!(instr.mnemonic, Mnemonic::Jmp);
    assert_eq!(instr.operands, vec![Operand::Immediate(-2)]);
    assert_eq!(len, 2);
}

#[test]
fn decodes_near_jmp_and_call() {
    let (jmp, jmp_len) = decode_one(&[0xE9, 0x00, 0x01]).unwrap(); // JMP +0x0100
    assert_eq!(jmp.mnemonic, Mnemonic::Jmp);
    assert_eq!(jmp.operands, vec![Operand::Immediate(0x0100)]);
    assert_eq!(jmp_len, 3);

    let (call, call_len) = decode_one(&[0xE8, 0x00, 0x01]).unwrap(); // CALL +0x0100
    assert_eq!(call.mnemonic, Mnemonic::Call);
    assert_eq!(call.operands, vec![Operand::Immediate(0x0100)]);
    assert_eq!(call_len, 3);
}

#[test]
fn decodes_loop_family() {
    for (byte, mnemonic) in [
        (0xE0, Mnemonic::Loopne),
        (0xE1, Mnemonic::Loope),
        (0xE2, Mnemonic::Loop),
        (0xE3, Mnemonic::Jcxz),
    ] {
        let (instr, len) = decode_one(&[byte, 0xFC]).unwrap(); // rel8 = -4
        assert_eq!(instr.mnemonic, mnemonic, "opcode {byte:#04x}");
        assert_eq!(instr.operands, vec![Operand::Immediate(-4)]);
        assert_eq!(len, 2);
    }
}

#[test]
fn decodes_ret_with_immediate_pop_count() {
    // RET 4 -> C2 04 00
    let (instr, len) = decode_one(&[0xC2, 0x04, 0x00]).unwrap();
    assert_eq!(instr.mnemonic, Mnemonic::Ret);
    assert_eq!(instr.operands, vec![Operand::Immediate(4)]);
    assert_eq!(len, 3);
}

#[test]
fn decodes_int_with_vector_number() {
    // INT 0x21 -> CD 21
    let (instr, len) = decode_one(&[0xCD, 0x21]).unwrap();
    assert_eq!(instr.mnemonic, Mnemonic::Int);
    assert_eq!(instr.operands, vec![Operand::Immediate(0x21)]);
    assert_eq!(len, 2);
}

#[test]
fn decodes_shift_by_one_forms() {
    // SHL AL, 1 -> D0 E0 (reg field 100 = SHL, rm=000=AL)
    let (instr, len) = decode_one(&[0xD0, 0b11_100_000]).unwrap();
    assert_eq!(instr.mnemonic, Mnemonic::Shl);
    assert_eq!(
        instr.operands,
        vec![Operand::Reg8(Reg8::Al), Operand::Immediate(1)]
    );
    assert_eq!(instr.width, Some(Width::Byte));
    assert_eq!(len, 2);
}

#[test]
fn decodes_shift_by_cl_forms() {
    // SAR DX, CL -> D3 FA (reg field 111 = SAR, rm=010=DX)
    let (instr, len) = decode_one(&[0xD3, 0b11_111_010]).unwrap();
    assert_eq!(instr.mnemonic, Mnemonic::Sar);
    assert_eq!(
        instr.operands,
        vec![Operand::Reg16(Reg16::Dx), Operand::Reg8(Reg8::Cl)]
    );
    assert_eq!(len, 2);
}

#[test]
fn decodes_shift_by_immediate_80186_form() {
    // ROL AX, 4 -> C1 C0 04 (reg field 000 = ROL, rm=000=AX)
    let (instr, len) = decode_one(&[0xC1, 0b11_000_000, 0x04]).unwrap();
    assert_eq!(instr.mnemonic, Mnemonic::Rol);
    assert_eq!(
        instr.operands,
        vec![Operand::Reg16(Reg16::Ax), Operand::Immediate(4)]
    );
    assert_eq!(len, 3);
}

#[test]
fn decodes_all_eight_shift_rotate_reg_field_forms() {
    let cases = [
        (0b000, Mnemonic::Rol),
        (0b001, Mnemonic::Ror),
        (0b010, Mnemonic::Rcl),
        (0b011, Mnemonic::Rcr),
        (0b100, Mnemonic::Shl),
        (0b101, Mnemonic::Shr),
        (0b111, Mnemonic::Sar),
    ];
    for (reg_field, mnemonic) in cases {
        let modrm = 0b11_000_000 | (reg_field << 3);
        let (instr, _) = decode_one(&[0xD0, modrm]).unwrap();
        assert_eq!(instr.mnemonic, mnemonic, "reg field {reg_field:#05b}");
    }
}

#[test]
fn decodes_unary_group_mul_imul_div_idiv_neg_not() {
    let cases = [
        (0b010, Mnemonic::Not),
        (0b011, Mnemonic::Neg),
        (0b100, Mnemonic::Mul),
        (0b101, Mnemonic::Imul),
        (0b110, Mnemonic::Div),
        (0b111, Mnemonic::Idiv),
    ];
    for (reg_field, mnemonic) in cases {
        let modrm = 0b11_000_001 | (reg_field << 3); // rm = CX
        let (instr, len) = decode_one(&[0xF7, modrm]).unwrap();
        assert_eq!(instr.mnemonic, mnemonic, "reg field {reg_field:#05b}");
        assert_eq!(instr.operands, vec![Operand::Reg16(Reg16::Cx)]);
        assert_eq!(len, 2);
    }
}

#[test]
fn decodes_unary_group_test_with_immediate() {
    // TEST WORD [BX], 0x00FF -> F7 07 FF 00 (reg field 000 = TEST)
    let (instr, len) = decode_one(&[0xF7, 0b00_000_111, 0xFF, 0x00]).unwrap();
    assert_eq!(instr.mnemonic, Mnemonic::Test);
    assert_eq!(
        instr.operands,
        vec![
            Operand::mem(Some(Reg16::Bx), None, 0),
            Operand::Immediate(0xFF)
        ]
    );
    assert_eq!(len, 4);
}

#[test]
fn decodes_string_instructions_as_zero_operand_forms() {
    for (byte, mnemonic) in [
        (0xA4, Mnemonic::Movsb),
        (0xA5, Mnemonic::Movsw),
        (0xA6, Mnemonic::Cmpsb),
        (0xA7, Mnemonic::Cmpsw),
        (0xAA, Mnemonic::Stosb),
        (0xAB, Mnemonic::Stosw),
        (0xAC, Mnemonic::Lodsb),
        (0xAD, Mnemonic::Lodsw),
        (0xAE, Mnemonic::Scasb),
        (0xAF, Mnemonic::Scasw),
    ] {
        let (instr, len) = decode_one(&[byte]).unwrap();
        assert_eq!(instr.mnemonic, mnemonic, "opcode {byte:#04x}");
        assert!(instr.operands.is_empty());
        assert_eq!(len, 1);
    }
}

#[test]
fn decodes_rep_prefix_on_movsb() {
    // REP MOVSB -> F3 A4
    let (instr, len) = decode_one(&[0xF3, 0xA4]).unwrap();
    assert_eq!(instr.mnemonic, Mnemonic::Movsb);
    assert_eq!(instr.repeat, Some(Repeat::Rep));
    assert_eq!(len, 2);
}

#[test]
fn f3_prefix_on_cmps_means_repe_not_rep() {
    // REPE CMPSB -> F3 A6 (F3 means REPE, not unconditional REP, on CMPS)
    let (instr, len) = decode_one(&[0xF3, 0xA6]).unwrap();
    assert_eq!(instr.mnemonic, Mnemonic::Cmpsb);
    assert_eq!(instr.repeat, Some(Repeat::Repe));
    assert_eq!(len, 2);
}

#[test]
fn decodes_repne_prefix_on_scasb() {
    // REPNE SCASB -> F2 AE
    let (instr, len) = decode_one(&[0xF2, 0xAE]).unwrap();
    assert_eq!(instr.mnemonic, Mnemonic::Scasb);
    assert_eq!(instr.repeat, Some(Repeat::Repne));
    assert_eq!(len, 2);
}

#[test]
fn repeat_prefix_on_a_non_string_instruction_is_rejected() {
    // F3 90 would be a REP NOP - not a real repeatable instruction.
    assert_eq!(
        decode_one(&[0xF3, 0x90]).unwrap_err(),
        DecodeError::InvalidOpcode(0xF3)
    );
}

#[test]
fn truncated_instruction_reports_unexpected_end_of_input() {
    // MOV AX, imm16 with only one immediate byte present.
    assert_eq!(
        decode_one(&[0xB8, 0x34]).unwrap_err(),
        DecodeError::UnexpectedEndOfInput
    );
}
