//! Pure decode: bytes to `Instruction`.
//!
//! Coverage: MOV/PUSH/POP/XCHG/LEA, the ADD/OR/ADC/SBB/AND/SUB/XOR/CMP
//! group in register and immediate forms, TEST, INC/DEC, the jumps and the
//! LOOP family, near CALL/RET, INT/INT3/IRET, processor control, the
//! shift/rotate group (including the 80186 immediate-count form), the
//! F6/F7 unary group, the string instructions and their REP/REPE/REPNE
//! prefixes. Segment-override and LOCK prefixes, far and indirect
//! JMP/CALL are not decoded.
pub mod groups;
pub mod modrm;
pub mod text;

pub use text::format_instruction;

use crate::cpu::execute::{executable, executable_parts, is_string_mnemonic};
use crate::isa::{
    spec_reg16_from_index, spec_reg8_from_index, spec_segment_from_index, Condition, Instruction,
    Mnemonic, Operand, Reg16, Reg8, Repeat, Width,
};
use groups::{
    arithmetic_group_from_reg_field, shift_rotate_group_from_reg_field, spec_arithmetic_group,
    spec_shift_rotate_group, spec_unary_group, unary_group_from_reg_field,
};
use modrm::{decode_modrm_at, reg_operand, spec_modrm_at, spec_reg_operand};
use vstd::prelude::*;

verus! {

#[derive(Debug, Clone, Copy, PartialEq, Eq, Structural)]
pub enum DecodeError {
    /// Ran out of bytes in the middle of an instruction.
    UnexpectedEndOfInput,
    /// The opcode byte (or an opcode-extension field) names no known
    /// 8086/80186 instruction.
    InvalidOpcode(u8),
}

/// An instruction's fields with its operand list as a sequence:
/// (mnemonic, operands, width, byte length, repeat prefix).
pub type InstrView = (Mnemonic, Seq<Operand>, Option<Width>, u8, Option<Repeat>);

pub open spec fn iview(i: Instruction) -> InstrView {
    (i.mnemonic, i.operands@, i.width, i.byte_len, i.repeat)
}

pub type Decoded = Result<(InstrView, nat), DecodeError>;

pub open spec fn decoded_view(r: Result<(Instruction, usize), DecodeError>) -> Decoded {
    match r {
        Ok((i, n)) => Ok((iview(i), n as nat)),
        Err(e) => Err(e),
    }
}

/// The byte at `at`, sign-extended.
pub open spec fn spec_read_i8(s: Seq<u8>, at: int) -> Result<i8, DecodeError> {
    if 0 <= at < s.len() {
        Ok(s[at] as i8)
    } else {
        Err(DecodeError::UnexpectedEndOfInput)
    }
}

/// The little-endian word at `at`, as a signed value.
pub open spec fn spec_read_i16(s: Seq<u8>, at: int) -> Result<i16, DecodeError> {
    if 0 <= at && at + 1 < s.len() {
        Ok((s[at] + 256 * s[at + 1]) as u16 as i16)
    } else {
        Err(DecodeError::UnexpectedEndOfInput)
    }
}

/// Reads the byte at `offset`, sign-extended. Every consumer recovers the
/// raw bit pattern with a truncating cast, so one helper serves both
/// signed displacements and raw fields (addresses, vectors, counts).
pub fn read_i8(bytes: &[u8], offset: usize) -> (r: Result<i8, DecodeError>)
    ensures
        r == spec_read_i8(bytes@, offset as int),
{
    if offset < bytes.len() {
        Ok(bytes[offset] as i8)
    } else {
        Err(DecodeError::UnexpectedEndOfInput)
    }
}

/// Reads the little-endian word at `offset` as a signed value.
pub fn read_i16(bytes: &[u8], offset: usize) -> (r: Result<i16, DecodeError>)
    ensures
        r == spec_read_i16(bytes@, offset as int),
{
    if offset < bytes.len() && offset + 1 < bytes.len() {
        let low = bytes[offset] as u16;
        let high = bytes[offset + 1] as u16;
        Ok((low + 256 * high) as i16)
    } else {
        Err(DecodeError::UnexpectedEndOfInput)
    }
}

// --- the opcode table, as a specification ------------------------------------

pub open spec fn ok(m: Mnemonic, ops: Seq<Operand>, width: Option<Width>, len: nat) -> Decoded {
    Ok(((m, ops, width, len as u8, None), len))
}

pub open spec fn spec_condition_from_index(index: u8) -> Condition {
    match index % 16 {
        0 => Condition::Overflow,
        1 => Condition::NotOverflow,
        2 => Condition::Below,
        3 => Condition::AboveOrEqual,
        4 => Condition::Equal,
        5 => Condition::NotEqual,
        6 => Condition::BelowOrEqual,
        7 => Condition::Above,
        8 => Condition::Sign,
        9 => Condition::NotSign,
        10 => Condition::Parity,
        11 => Condition::NotParity,
        12 => Condition::Less,
        13 => Condition::GreaterOrEqual,
        14 => Condition::LessOrEqual,
        _ => Condition::Greater,
    }
}

pub open spec fn accumulator(width: Width) -> Operand {
    match width {
        Width::Byte => Operand::Reg8(Reg8::Al),
        Width::Word => Operand::Reg16(Reg16::Ax),
    }
}

/// `op r/m, reg` (to_reg false) or `op reg, r/m` (to_reg true).
pub open spec fn spec_two_operand(m: Mnemonic, s: Seq<u8>, width: Width, to_reg: bool) -> Decoded {
    match spec_modrm_at(s, 1, width) {
        Ok((reg, rm, n)) => {
            let r = spec_reg_operand(reg, width);
            ok(m, if to_reg { seq![r, rm] } else { seq![rm, r] }, Some(width), 1 + n)
        },
        Err(e) => Err(e),
    }
}

/// An immediate of the width, sign-extended, read at `at`.
pub open spec fn spec_read_imm(s: Seq<u8>, at: int, width: Width) -> Result<(i32, nat), DecodeError> {
    match width {
        Width::Byte => match spec_read_i8(s, at) {
            Ok(v) => Ok((v as i32, 1)),
            Err(e) => Err(e),
        },
        Width::Word => match spec_read_i16(s, at) {
            Ok(v) => Ok((v as i32, 2)),
            Err(e) => Err(e),
        },
    }
}

/// `op AL, imm8` / `op AX, imm16`.
pub open spec fn spec_acc_imm(m: Mnemonic, s: Seq<u8>, width: Width) -> Decoded {
    match spec_read_imm(s, 1, width) {
        Ok((v, n)) => ok(m, seq![accumulator(width), Operand::Immediate(v)], Some(width), 1 + n),
        Err(e) => Err(e),
    }
}

/// `op r/m, imm`, where the ModRM `reg` field picks the operation from a
/// group and the immediate has width `imm_width`.
pub open spec fn spec_rm_imm(
    group: spec_fn(u8) -> Mnemonic,
    s: Seq<u8>,
    width: Width,
    imm_width: Width,
) -> Decoded {
    match spec_modrm_at(s, 1, width) {
        Ok((reg, rm, n)) => match spec_read_imm(s, (1 + n) as int, imm_width) {
            Ok((v, k)) => ok(group(reg), seq![rm, Operand::Immediate(v)], Some(width), 1 + n + k),
            Err(e) => Err(e),
        },
        Err(e) => Err(e),
    }
}

/// A one-operand r/m form whose `reg` field is checked by `pick`.
pub open spec fn spec_rm_single(
    pick: spec_fn(u8) -> Option<Mnemonic>,
    s: Seq<u8>,
    width: Width,
) -> Decoded {
    match spec_modrm_at(s, 1, width) {
        Ok((reg, rm, n)) => match pick(reg) {
            Some(m) => ok(m, seq![rm], Some(width), 1 + n),
            None => Err(DecodeError::InvalidOpcode(s[0])),
        },
        Err(e) => Err(e),
    }
}

pub open spec fn spec_mov_sreg(s: Seq<u8>, to_reg: bool) -> Decoded {
    match spec_modrm_at(s, 1, Width::Word) {
        Ok((reg, rm, n)) => match spec_segment_from_index(reg) {
            Some(seg) => ok(
                Mnemonic::Mov,
                if to_reg {
                    seq![Operand::Reg16(seg), rm]
                } else {
                    seq![rm, Operand::Reg16(seg)]
                },
                Some(Width::Word),
                1 + n,
            ),
            None => Err(DecodeError::InvalidOpcode(s[0])),
        },
        Err(e) => Err(e),
    }
}

pub open spec fn spec_lea(s: Seq<u8>) -> Decoded {
    match spec_modrm_at(s, 1, Width::Word) {
        Ok((reg, rm, n)) => ok(
            Mnemonic::Lea,
            seq![Operand::Reg16(spec_reg16_from_index(reg)), rm],
            Some(Width::Word),
            1 + n,
        ),
        Err(e) => Err(e),
    }
}

pub open spec fn spec_mov_acc_mem(s: Seq<u8>, width: Width, to_reg: bool) -> Decoded {
    match spec_read_i16(s, 1) {
        Ok(a) => {
            let mem = Operand::Memory {
                segment_override: None,
                base: None,
                index: None,
                displacement: a as i32,
            };
            ok(
                Mnemonic::Mov,
                if to_reg {
                    seq![accumulator(width), mem]
                } else {
                    seq![mem, accumulator(width)]
                },
                Some(width),
                3,
            )
        },
        Err(e) => Err(e),
    }
}

pub open spec fn spec_mov_reg_imm(s: Seq<u8>, width: Width) -> Decoded {
    match spec_read_imm(s, 1, width) {
        Ok((v, n)) => ok(
            Mnemonic::Mov,
            seq![spec_reg_operand((s[0] % 8) as u8, width), Operand::Immediate(v)],
            Some(width),
            1 + n,
        ),
        Err(e) => Err(e),
    }
}

pub open spec fn spec_mov_rm_imm(s: Seq<u8>, width: Width) -> Decoded {
    match spec_modrm_at(s, 1, width) {
        Ok((reg, rm, n)) => if reg != 0 {
            Err(DecodeError::InvalidOpcode(s[0]))
        } else {
            match spec_read_imm(s, (1 + n) as int, width) {
                Ok((v, k)) => ok(
                    Mnemonic::Mov,
                    seq![rm, Operand::Immediate(v)],
                    Some(width),
                    1 + n + k,
                ),
                Err(e) => Err(e),
            }
        },
        Err(e) => Err(e),
    }
}

pub open spec fn spec_rel8(m: Mnemonic, s: Seq<u8>) -> Decoded {
    match spec_read_i8(s, 1) {
        Ok(v) => ok(m, seq![Operand::Immediate(v as i32)], None, 2),
        Err(e) => Err(e),
    }
}

pub open spec fn spec_rel16(m: Mnemonic, s: Seq<u8>) -> Decoded {
    match spec_read_i16(s, 1) {
        Ok(v) => ok(m, seq![Operand::Immediate(v as i32)], None, 3),
        Err(e) => Err(e),
    }
}

/// Where a shift/rotate's count comes from: 1, CL, or an immediate byte.
#[derive(Debug, Clone, Copy, PartialEq, Eq, Structural)]
pub enum ShiftCountSource {
    One,
    Cl,
    Imm8,
}

pub open spec fn spec_shift(s: Seq<u8>, width: Width, source: ShiftCountSource) -> Decoded {
    match spec_modrm_at(s, 1, width) {
        Ok((reg, rm, n)) => {
            let m = spec_shift_rotate_group(reg);
            match source {
                ShiftCountSource::One => ok(m, seq![rm, Operand::Immediate(1)], Some(width), 1 + n),
                ShiftCountSource::Cl => ok(
                    m,
                    seq![rm, Operand::Reg8(Reg8::Cl)],
                    Some(width),
                    1 + n,
                ),
                ShiftCountSource::Imm8 => match spec_read_i8(s, (1 + n) as int) {
                    Ok(v) => ok(m, seq![rm, Operand::Immediate(v as i32)], Some(width), 2 + n),
                    Err(e) => Err(e),
                },
            }
        },
        Err(e) => Err(e),
    }
}

/// F6/F7: TEST r/m, imm for fields 0/1, otherwise a one-operand form.
pub open spec fn spec_unary(s: Seq<u8>, width: Width) -> Decoded {
    match spec_modrm_at(s, 1, width) {
        Ok((reg, rm, n)) => {
            let m = spec_unary_group(reg);
            if m == Mnemonic::Test {
                match spec_read_imm(s, (1 + n) as int, width) {
                    Ok((v, k)) => ok(m, seq![rm, Operand::Immediate(v)], Some(width), 1 + n + k),
                    Err(e) => Err(e),
                }
            } else {
                ok(m, seq![rm], Some(width), 1 + n)
            }
        },
        Err(e) => Err(e),
    }
}

pub open spec fn pick_inc_dec(reg: u8) -> Option<Mnemonic> {
    if reg == 0 {
        Some(Mnemonic::Inc)
    } else if reg == 1 {
        Some(Mnemonic::Dec)
    } else {
        None
    }
}

pub open spec fn pick_group_ff(reg: u8) -> Option<Mnemonic> {
    if reg == 0 {
        Some(Mnemonic::Inc)
    } else if reg == 1 {
        Some(Mnemonic::Dec)
    } else if reg == 6 {
        Some(Mnemonic::Push)
    } else {
        None
    }
}

pub open spec fn pick_pop(reg: u8) -> Option<Mnemonic> {
    if reg == 0 {
        Some(Mnemonic::Pop)
    } else {
        None
    }
}

/// The immediate group (`0x80`..`0x83`): `op r/m, imm`.
pub open spec fn spec_immediate_group(s: Seq<u8>, width: Width, imm_width: Width) -> Decoded {
    spec_rm_imm(|r: u8| spec_arithmetic_group(r), s, width, imm_width)
}

/// `POP r/m16` (`0x8F /0`).
pub open spec fn spec_pop_rm(s: Seq<u8>) -> Decoded {
    spec_rm_single(|r: u8| pick_pop(r), s, Width::Word)
}

/// `INC`/`DEC r/m8` (`0xFE /0`, `/1`).
pub open spec fn spec_inc_dec_rm(s: Seq<u8>) -> Decoded {
    spec_rm_single(|r: u8| pick_inc_dec(r), s, Width::Byte)
}

/// The `0xFF` group: `INC`, `DEC`, `CALL`, `JMP`, `PUSH` on r/m16.
pub open spec fn spec_group_ff(s: Seq<u8>) -> Decoded {
    spec_rm_single(|r: u8| pick_group_ff(r), s, Width::Word)
}

/// The ADD..CMP group's six forms (opcode low bits 0-5).
pub open spec fn is_arithmetic_group_opcode(op: u8) -> bool {
    op < 0x40 && op % 8 <= 5
}

pub open spec fn spec_arithmetic_form(op: u8, s: Seq<u8>) -> Decoded {
    let m = spec_arithmetic_group(op / 8);
    match op % 8 {
        0 => spec_two_operand(m, s, Width::Byte, false),
        1 => spec_two_operand(m, s, Width::Word, false),
        2 => spec_two_operand(m, s, Width::Byte, true),
        3 => spec_two_operand(m, s, Width::Word, true),
        4 => spec_acc_imm(m, s, Width::Byte),
        _ => spec_acc_imm(m, s, Width::Word),
    }
}

/// Opcodes 00-7F outside the arithmetic group.
pub open spec fn spec_decode_low(op: u8, s: Seq<u8>) -> Decoded {
    if 0x40 <= op < 0x48 {
        ok(Mnemonic::Inc, seq![Operand::Reg16(spec_reg16_from_index(op))], Some(Width::Word), 1)
    } else if 0x48 <= op < 0x50 {
        ok(Mnemonic::Dec, seq![Operand::Reg16(spec_reg16_from_index(op))], Some(Width::Word), 1)
    } else if 0x50 <= op < 0x58 {
        ok(Mnemonic::Push, seq![Operand::Reg16(spec_reg16_from_index(op))], Some(Width::Word), 1)
    } else if 0x58 <= op < 0x60 {
        ok(Mnemonic::Pop, seq![Operand::Reg16(spec_reg16_from_index(op))], Some(Width::Word), 1)
    } else if 0x70 <= op < 0x80 {
        spec_rel8(Mnemonic::Jcc(spec_condition_from_index(op)), s)
    } else {
        let seg = |r: Reg16| seq![Operand::Reg16(r)];
        match op {
            0x06 => ok(Mnemonic::Push, seg(Reg16::Es), Some(Width::Word), 1),
            0x07 => ok(Mnemonic::Pop, seg(Reg16::Es), Some(Width::Word), 1),
            0x0E => ok(Mnemonic::Push, seg(Reg16::Cs), Some(Width::Word), 1),
            0x16 => ok(Mnemonic::Push, seg(Reg16::Ss), Some(Width::Word), 1),
            0x17 => ok(Mnemonic::Pop, seg(Reg16::Ss), Some(Width::Word), 1),
            0x1E => ok(Mnemonic::Push, seg(Reg16::Ds), Some(Width::Word), 1),
            0x1F => ok(Mnemonic::Pop, seg(Reg16::Ds), Some(Width::Word), 1),
            _ => Err(DecodeError::InvalidOpcode(op)),
        }
    }
}

/// Opcodes 80-BF.
pub open spec fn spec_decode_mid(op: u8, s: Seq<u8>) -> Decoded {
    if 0x91 <= op < 0x98 {
        ok(
            Mnemonic::Xchg,
            seq![Operand::Reg16(Reg16::Ax), Operand::Reg16(spec_reg16_from_index(op))],
            Some(Width::Word),
            1,
        )
    } else if 0xB0 <= op < 0xB8 {
        spec_mov_reg_imm(s, Width::Byte)
    } else if 0xB8 <= op {
        spec_mov_reg_imm(s, Width::Word)
    } else {
        match op {
            0x80 => spec_immediate_group(s, Width::Byte, Width::Byte),
            0x81 => spec_immediate_group(s, Width::Word, Width::Word),
            0x82 => spec_immediate_group(s, Width::Byte, Width::Byte),
            0x83 => spec_immediate_group(s, Width::Word, Width::Byte),
            0x84 => spec_two_operand(Mnemonic::Test, s, Width::Byte, false),
            0x85 => spec_two_operand(Mnemonic::Test, s, Width::Word, false),
            0x86 => spec_two_operand(Mnemonic::Xchg, s, Width::Byte, false),
            0x87 => spec_two_operand(Mnemonic::Xchg, s, Width::Word, false),
            0x88 => spec_two_operand(Mnemonic::Mov, s, Width::Byte, false),
            0x89 => spec_two_operand(Mnemonic::Mov, s, Width::Word, false),
            0x8A => spec_two_operand(Mnemonic::Mov, s, Width::Byte, true),
            0x8B => spec_two_operand(Mnemonic::Mov, s, Width::Word, true),
            0x8C => spec_mov_sreg(s, false),
            0x8D => spec_lea(s),
            0x8E => spec_mov_sreg(s, true),
            0x8F => spec_pop_rm(s),
            0x90 => ok(Mnemonic::Nop, seq![], None, 1),
            0x9C => ok(Mnemonic::Pushf, seq![], None, 1),
            0x9D => ok(Mnemonic::Popf, seq![], None, 1),
            0x9E => ok(Mnemonic::Sahf, seq![], None, 1),
            0x9F => ok(Mnemonic::Lahf, seq![], None, 1),
            0xA0 => spec_mov_acc_mem(s, Width::Byte, true),
            0xA1 => spec_mov_acc_mem(s, Width::Word, true),
            0xA2 => spec_mov_acc_mem(s, Width::Byte, false),
            0xA3 => spec_mov_acc_mem(s, Width::Word, false),
            0xA4 => ok(Mnemonic::Movsb, seq![], None, 1),
            0xA5 => ok(Mnemonic::Movsw, seq![], None, 1),
            0xA6 => ok(Mnemonic::Cmpsb, seq![], None, 1),
            0xA7 => ok(Mnemonic::Cmpsw, seq![], None, 1),
            0xA8 => spec_acc_imm(Mnemonic::Test, s, Width::Byte),
            0xA9 => spec_acc_imm(Mnemonic::Test, s, Width::Word),
            0xAA => ok(Mnemonic::Stosb, seq![], None, 1),
            0xAB => ok(Mnemonic::Stosw, seq![], None, 1),
            0xAC => ok(Mnemonic::Lodsb, seq![], None, 1),
            0xAD => ok(Mnemonic::Lodsw, seq![], None, 1),
            0xAE => ok(Mnemonic::Scasb, seq![], None, 1),
            0xAF => ok(Mnemonic::Scasw, seq![], None, 1),
            _ => Err(DecodeError::InvalidOpcode(op)),
        }
    }
}

/// Opcodes C0-FF other than the F2/F3 prefixes.
pub open spec fn spec_decode_high(op: u8, s: Seq<u8>) -> Decoded {
    match op {
        0xC0 => spec_shift(s, Width::Byte, ShiftCountSource::Imm8),
        0xC1 => spec_shift(s, Width::Word, ShiftCountSource::Imm8),
        0xC2 => match spec_read_i16(s, 1) {
            Ok(v) => ok(Mnemonic::Ret, seq![Operand::Immediate(v as i32)], None, 3),
            Err(e) => Err(e),
        },
        0xC3 => ok(Mnemonic::Ret, seq![], None, 1),
        0xC6 => spec_mov_rm_imm(s, Width::Byte),
        0xC7 => spec_mov_rm_imm(s, Width::Word),
        0xCC => ok(Mnemonic::Int3, seq![], None, 1),
        0xCD => match spec_read_i8(s, 1) {
            Ok(v) => ok(Mnemonic::Int, seq![Operand::Immediate(v as i32)], None, 2),
            Err(e) => Err(e),
        },
        0xCF => ok(Mnemonic::Iret, seq![], None, 1),
        0xD0 => spec_shift(s, Width::Byte, ShiftCountSource::One),
        0xD1 => spec_shift(s, Width::Word, ShiftCountSource::One),
        0xD2 => spec_shift(s, Width::Byte, ShiftCountSource::Cl),
        0xD3 => spec_shift(s, Width::Word, ShiftCountSource::Cl),
        0xD7 => ok(Mnemonic::Xlat, seq![], None, 1),
        0xE0 => spec_rel8(Mnemonic::Loopne, s),
        0xE1 => spec_rel8(Mnemonic::Loope, s),
        0xE2 => spec_rel8(Mnemonic::Loop, s),
        0xE3 => spec_rel8(Mnemonic::Jcxz, s),
        0xE8 => spec_rel16(Mnemonic::Call, s),
        0xE9 => spec_rel16(Mnemonic::Jmp, s),
        0xEB => spec_rel8(Mnemonic::Jmp, s),
        0xF4 => ok(Mnemonic::Hlt, seq![], None, 1),
        0xF5 => ok(Mnemonic::Cmc, seq![], None, 1),
        0xF6 => spec_unary(s, Width::Byte),
        0xF7 => spec_unary(s, Width::Word),
        0xF8 => ok(Mnemonic::Clc, seq![], None, 1),
        0xF9 => ok(Mnemonic::Stc, seq![], None, 1),
        0xFA => ok(Mnemonic::Cli, seq![], None, 1),
        0xFB => ok(Mnemonic::Sti, seq![], None, 1),
        0xFC => ok(Mnemonic::Cld, seq![], None, 1),
        0xFD => ok(Mnemonic::Std, seq![], None, 1),
        0xFE => spec_inc_dec_rm(s),
        0xFF => spec_group_ff(s),
        _ => Err(DecodeError::InvalidOpcode(op)),
    }
}

/// `F2` is always REPNE; `F3` is REP on MOVS/STOS/LODS and REPE on
/// CMPS/SCAS (the trailing opcode decides, as on real hardware).
pub open spec fn spec_repeat_for(prefix: u8, m: Mnemonic) -> Repeat {
    if prefix == 0xF2 {
        Repeat::Repne
    } else if m is Cmpsb || m is Cmpsw || m is Scasb || m is Scasw {
        Repeat::Repe
    } else {
        Repeat::Rep
    }
}

/// What the bytes at the front of `s` decode to: the instruction and how
/// many bytes it takes.
pub open spec fn spec_decode(s: Seq<u8>) -> Decoded
    decreases s.len(),
{
    if s.len() == 0 {
        Err(DecodeError::UnexpectedEndOfInput)
    } else {
        let op = s[0];
        if op == 0xF2 || op == 0xF3 {
            match spec_decode(s.subrange(1, s.len() as int)) {
                Ok((iv, n)) => if !is_string_mnemonic(iv.0) {
                    Err(DecodeError::InvalidOpcode(op))
                } else {
                    Ok(((iv.0, iv.1, iv.2, (1 + n) as u8, Some(spec_repeat_for(op, iv.0))), 1 + n))
                },
                Err(e) => Err(e),
            }
        } else if is_arithmetic_group_opcode(op) {
            spec_arithmetic_form(op, s)
        } else if op < 0x80 {
            spec_decode_low(op, s)
        } else if op < 0xC0 {
            spec_decode_mid(op, s)
        } else {
            spec_decode_high(op, s)
        }
    }
}


// --- what every decoded instruction satisfies -------------------------------------

proof fn lemma_modrm_sound(s: Seq<u8>, at: int, width: Width)
    ensures
        spec_modrm_at(s, at, width) matches Ok((reg, rm, n)) ==> 1 <= n <= 3 && at + n <= s.len()
            && !(rm is Immediate) && reg < 8,
{
}

proof fn lemma_imm_sound(s: Seq<u8>, at: int, width: Width)
    ensures
        spec_read_imm(s, at, width) matches Ok((v, k)) ==> 1 <= k <= 2 && at + k <= s.len(),
{
}

/// The mnemonics whose one operand is a relative displacement.
pub open spec fn is_branch(m: Mnemonic) -> bool {
    m is Jcc || m is Jmp || m is Call || m is Loop || m is Loope || m is Loopne || m is Jcxz
}

pub open spec fn decoded_sound(d: Decoded, len: nat) -> bool {
    d matches Ok((iv, n)) ==> 1 <= n <= len && executable_parts(iv.0, iv.1, iv.2)
}

proof fn lemma_forms_sound(s: Seq<u8>)
    ensures
        forall|m: Mnemonic, w: Width, t: bool|
            decoded_sound(#[trigger] spec_two_operand(m, s, w, t), s.len()),
        forall|m: Mnemonic, w: Width|
            m != Mnemonic::Xchg ==> decoded_sound(#[trigger] spec_acc_imm(m, s, w), s.len()),
        forall|w: Width, iw: Width|
            decoded_sound(
                #[trigger] spec_immediate_group(s, w, iw),
                s.len(),
            ),
        forall|w: Width, src: ShiftCountSource| decoded_sound(#[trigger] spec_shift(s, w, src), s.len()),
        forall|w: Width| decoded_sound(#[trigger] spec_unary(s, w), s.len()),
        forall|w: Width| decoded_sound(#[trigger] spec_mov_rm_imm(s, w), s.len()),
        forall|w: Width| decoded_sound(#[trigger] spec_mov_reg_imm(s, w), s.len()),
        forall|w: Width, t: bool| decoded_sound(#[trigger] spec_mov_acc_mem(s, w, t), s.len()),
        forall|t: bool| decoded_sound(#[trigger] spec_mov_sreg(s, t), s.len()),
        forall|m: Mnemonic| is_branch(m) ==> decoded_sound(#[trigger] spec_rel8(m, s), s.len()),
        forall|m: Mnemonic| is_branch(m) ==> decoded_sound(#[trigger] spec_rel16(m, s), s.len()),
        decoded_sound(spec_lea(s), s.len()),
        decoded_sound(spec_pop_rm(s), s.len()),
        decoded_sound(spec_inc_dec_rm(s), s.len()),
        decoded_sound(spec_group_ff(s), s.len()),
{
    lemma_modrm_sound(s, 1, Width::Byte);
    lemma_modrm_sound(s, 1, Width::Word);
    lemma_imm_sound(s, 1, Width::Byte);
    lemma_imm_sound(s, 1, Width::Word);
    if let Ok((reg, rm, n)) = spec_modrm_at(s, 1, Width::Byte) {
        lemma_imm_sound(s, (1 + n) as int, Width::Byte);
    }
    if let Ok((reg, rm, n)) = spec_modrm_at(s, 1, Width::Word) {
        lemma_imm_sound(s, (1 + n) as int, Width::Byte);
        lemma_imm_sound(s, (1 + n) as int, Width::Word);
    }
}

proof fn lemma_regions_sound(s: Seq<u8>)
    requires
        s.len() > 0,
    ensures
        is_arithmetic_group_opcode(s[0]) ==> decoded_sound(spec_arithmetic_form(s[0], s), s.len()),
        s[0] < 0x80 ==> decoded_sound(spec_decode_low(s[0], s), s.len()),
        0x80 <= s[0] < 0xC0 ==> decoded_sound(spec_decode_mid(s[0], s), s.len()),
        0xC0 <= s[0] ==> decoded_sound(spec_decode_high(s[0], s), s.len()),
{
    lemma_forms_sound(s);
}

/// Whatever decodes takes between 1 and all of the given bytes, and
/// is something `execute` accepts (operand count, width and a
/// non-immediate destination where it writes one).
pub proof fn lemma_decode_sound(s: Seq<u8>)
    ensures
        decoded_sound(spec_decode(s), s.len()),
    decreases s.len(),
{
    if s.len() > 0 {
        let op = s[0];
        if op == 0xF2 || op == 0xF3 {
            lemma_decode_sound(s.subrange(1, s.len() as int));
        } else {
            lemma_regions_sound(s);
        }
    }
}

// --- the decoder ---------------------------------------------------------------

fn ops0() -> (v: Vec<Operand>)
    ensures
        v@ == Seq::<Operand>::empty(),
{
    Vec::new()
}

fn ops1(a: Operand) -> (v: Vec<Operand>)
    ensures
        v@ == seq![a],
{
    let mut v = Vec::new();
    v.push(a);
    v
}

fn ops2(a: Operand, b: Operand) -> (v: Vec<Operand>)
    ensures
        v@ == seq![a, b],
{
    let mut v = Vec::new();
    v.push(a);
    v.push(b);
    v
}

fn done(m: Mnemonic, ops: Vec<Operand>, width: Option<Width>, len: usize) -> (r: Result<(Instruction, usize), DecodeError>)
    requires
        len < 256,
    ensures
        decoded_view(r) == ok(m, ops@, width, len as nat),
{
    Ok((Instruction::new(m, ops, width, len as u8), len))
}

fn condition_from_index(index: u8) -> (c: Condition)
    ensures
        c == spec_condition_from_index(index),
{
    match index % 16 {
        0 => Condition::Overflow,
        1 => Condition::NotOverflow,
        2 => Condition::Below,
        3 => Condition::AboveOrEqual,
        4 => Condition::Equal,
        5 => Condition::NotEqual,
        6 => Condition::BelowOrEqual,
        7 => Condition::Above,
        8 => Condition::Sign,
        9 => Condition::NotSign,
        10 => Condition::Parity,
        11 => Condition::NotParity,
        12 => Condition::Less,
        13 => Condition::GreaterOrEqual,
        14 => Condition::LessOrEqual,
        _ => Condition::Greater,
    }
}

fn accumulator_of(width: Width) -> (r: Operand)
    ensures
        r == accumulator(width),
{
    match width {
        Width::Byte => Operand::Reg8(Reg8::Al),
        Width::Word => Operand::Reg16(Reg16::Ax),
    }
}

fn read_imm(bytes: &[u8], at: usize, width: Width) -> (r: Result<(i32, usize), DecodeError>)
    ensures
        match (r, spec_read_imm(bytes@, at as int, width)) {
            (Ok((v, n)), Ok((w, k))) => v == w && n == k && n <= 2,
            (Err(e), Err(f)) => e == f,
            _ => false,
        },
{
    match width {
        Width::Byte => Ok((read_i8(bytes, at)? as i32, 1)),
        Width::Word => Ok((read_i16(bytes, at)? as i32, 2)),
    }
}

fn decode_modrm_two_operand(m: Mnemonic, bytes: &[u8], width: Width, to_reg: bool) -> (r: Result<(Instruction, usize), DecodeError>)
    ensures
        decoded_view(r) == spec_two_operand(m, bytes@, width, to_reg),
{
    let modrm = decode_modrm_at(bytes, 1, width)?;
    let reg = reg_operand(modrm.reg_field, width);
    let ops = if to_reg {
        ops2(reg, modrm.rm_operand)
    } else {
        ops2(modrm.rm_operand, reg)
    };
    done(m, ops, Some(width), 1 + modrm.consumed)
}

fn decode_acc_imm(m: Mnemonic, bytes: &[u8], width: Width) -> (r: Result<(Instruction, usize), DecodeError>)
    ensures
        decoded_view(r) == spec_acc_imm(m, bytes@, width),
{
    let (imm, n) = read_imm(bytes, 1, width)?;
    done(m, ops2(accumulator_of(width), Operand::Immediate(imm)), Some(width), 1 + n)
}

fn decode_arithmetic_group_form(opcode: u8, bytes: &[u8]) -> (r: Result<(Instruction, usize), DecodeError>)
    requires
        is_arithmetic_group_opcode(opcode),
    ensures
        decoded_view(r) == spec_arithmetic_form(opcode, bytes@),
{
    let m = arithmetic_group_from_reg_field(opcode / 8);
    match opcode % 8 {
        0 => decode_modrm_two_operand(m, bytes, Width::Byte, false),
        1 => decode_modrm_two_operand(m, bytes, Width::Word, false),
        2 => decode_modrm_two_operand(m, bytes, Width::Byte, true),
        3 => decode_modrm_two_operand(m, bytes, Width::Word, true),
        4 => decode_acc_imm(m, bytes, Width::Byte),
        _ => decode_acc_imm(m, bytes, Width::Word),
    }
}

/// `80`/`81`/`82`/`83`: the ModRM `reg` field picks the operation.
fn decode_immediate_group(bytes: &[u8], width: Width, imm_width: Width) -> (r: Result<(Instruction, usize), DecodeError>)
    ensures
        decoded_view(r) == spec_immediate_group(bytes@, width, imm_width),
{
    let modrm = decode_modrm_at(bytes, 1, width)?;
    let m = arithmetic_group_from_reg_field(modrm.reg_field);
    let (imm, k) = read_imm(bytes, 1 + modrm.consumed, imm_width)?;
    done(m, ops2(modrm.rm_operand, Operand::Immediate(imm)), Some(width), 1 + modrm.consumed + k)
}

fn decode_mov_sreg(bytes: &[u8], opcode: u8, to_reg: bool) -> (r: Result<(Instruction, usize), DecodeError>)
    requires
        bytes@.len() >= 1,
        bytes@[0] == opcode,
    ensures
        decoded_view(r) == spec_mov_sreg(bytes@, to_reg),
{
    let modrm = decode_modrm_at(bytes, 1, Width::Word)?;
    let segment = match Reg16::segment_from_index(modrm.reg_field) {
        Some(s) => s,
        None => return Err(DecodeError::InvalidOpcode(opcode)),
    };
    let seg = Operand::Reg16(segment);
    let ops = if to_reg {
        ops2(seg, modrm.rm_operand)
    } else {
        ops2(modrm.rm_operand, seg)
    };
    done(Mnemonic::Mov, ops, Some(Width::Word), 1 + modrm.consumed)
}

fn decode_lea(bytes: &[u8]) -> (r: Result<(Instruction, usize), DecodeError>)
    ensures
        decoded_view(r) == spec_lea(bytes@),
{
    let modrm = decode_modrm_at(bytes, 1, Width::Word)?;
    let dst = Operand::Reg16(Reg16::from_index(modrm.reg_field));
    done(Mnemonic::Lea, ops2(dst, modrm.rm_operand), Some(Width::Word), 1 + modrm.consumed)
}

/// `8F` (POP r/m), `FE` (INC/DEC r/m8) and `FF` (INC/DEC/PUSH r/m16).
/// The other `FF` forms (indirect and far CALL/JMP) are not decoded.
fn decode_rm_single(bytes: &[u8], opcode: u8) -> (r: Result<(Instruction, usize), DecodeError>)
    requires
        bytes@.len() >= 1,
        bytes@[0] == opcode,
        opcode == 0x8F || opcode == 0xFE || opcode == 0xFF,
    ensures
        decoded_view(r) == (if opcode == 0x8F {
            spec_pop_rm(bytes@)
        } else if opcode == 0xFE {
            spec_inc_dec_rm(bytes@)
        } else {
            spec_group_ff(bytes@)
        }),
{
    let width = if opcode == 0xFE {
        Width::Byte
    } else {
        Width::Word
    };
    let modrm = decode_modrm_at(bytes, 1, width)?;
    let f = modrm.reg_field;
    let m = if opcode == 0x8F {
        if f == 0 {
            Mnemonic::Pop
        } else {
            return Err(DecodeError::InvalidOpcode(opcode));
        }
    } else if f == 0 {
        Mnemonic::Inc
    } else if f == 1 {
        Mnemonic::Dec
    } else if f == 6 && opcode == 0xFF {
        Mnemonic::Push
    } else {
        return Err(DecodeError::InvalidOpcode(opcode));
    };
    done(m, ops1(modrm.rm_operand), Some(width), 1 + modrm.consumed)
}

fn decode_mov_acc_mem(bytes: &[u8], width: Width, to_reg: bool) -> (r: Result<(Instruction, usize), DecodeError>)
    ensures
        decoded_view(r) == spec_mov_acc_mem(bytes@, width, to_reg),
{
    let addr = read_i16(bytes, 1)? as i32;
    let mem = Operand::mem_direct(addr);
    let acc = accumulator_of(width);
    let ops = if to_reg {
        ops2(acc, mem)
    } else {
        ops2(mem, acc)
    };
    done(Mnemonic::Mov, ops, Some(width), 3)
}

fn decode_mov_reg_imm(opcode: u8, bytes: &[u8], width: Width) -> (r: Result<(Instruction, usize), DecodeError>)
    requires
        bytes@.len() >= 1,
        bytes@[0] == opcode,
    ensures
        decoded_view(r) == spec_mov_reg_imm(bytes@, width),
{
    let (imm, n) = read_imm(bytes, 1, width)?;
    done(
        Mnemonic::Mov,
        ops2(reg_operand(opcode % 8, width), Operand::Immediate(imm)),
        Some(width),
        1 + n,
    )
}

fn decode_mov_rm_imm(bytes: &[u8], width: Width, opcode: u8) -> (r: Result<(Instruction, usize), DecodeError>)
    requires
        bytes@.len() >= 1,
        bytes@[0] == opcode,
    ensures
        decoded_view(r) == spec_mov_rm_imm(bytes@, width),
{
    let modrm = decode_modrm_at(bytes, 1, width)?;
    if modrm.reg_field != 0 {
        return Err(DecodeError::InvalidOpcode(opcode));
    }
    let (imm, k) = read_imm(bytes, 1 + modrm.consumed, width)?;
    done(Mnemonic::Mov, ops2(modrm.rm_operand, Operand::Immediate(imm)), Some(width), 1 + modrm.consumed + k)
}

fn decode_rel8_branch(m: Mnemonic, bytes: &[u8]) -> (r: Result<(Instruction, usize), DecodeError>)
    ensures
        decoded_view(r) == spec_rel8(m, bytes@),
{
    let rel = read_i8(bytes, 1)? as i32;
    done(m, ops1(Operand::Immediate(rel)), None, 2)
}

fn decode_rel16_branch(m: Mnemonic, bytes: &[u8]) -> (r: Result<(Instruction, usize), DecodeError>)
    ensures
        decoded_view(r) == spec_rel16(m, bytes@),
{
    let rel = read_i16(bytes, 1)? as i32;
    done(m, ops1(Operand::Immediate(rel)), None, 3)
}

fn decode_shift_rotate(bytes: &[u8], width: Width, source: ShiftCountSource) -> (r: Result<(Instruction, usize), DecodeError>)
    ensures
        decoded_view(r) == spec_shift(bytes@, width, source),
{
    let modrm = decode_modrm_at(bytes, 1, width)?;
    let m = shift_rotate_group_from_reg_field(modrm.reg_field);
    let len = 1 + modrm.consumed;
    match source {
        ShiftCountSource::One => done(m, ops2(modrm.rm_operand, Operand::Immediate(1)), Some(width), len),
        ShiftCountSource::Cl => done(
            m,
            ops2(modrm.rm_operand, Operand::Reg8(Reg8::Cl)),
            Some(width),
            len,
        ),
        ShiftCountSource::Imm8 => {
            let imm = read_i8(bytes, len)? as i32;
            done(m, ops2(modrm.rm_operand, Operand::Immediate(imm)), Some(width), len + 1)
        },
    }
}

/// F6/F7: `TEST r/m, imm` (fields 0/1) or the one-operand NOT/NEG/MUL/
/// IMUL/DIV/IDIV (fields 2-7).
fn decode_unary_group(bytes: &[u8], width: Width) -> (r: Result<(Instruction, usize), DecodeError>)
    ensures
        decoded_view(r) == spec_unary(bytes@, width),
{
    let modrm = decode_modrm_at(bytes, 1, width)?;
    let m = unary_group_from_reg_field(modrm.reg_field);
    let len = 1 + modrm.consumed;
    if m == Mnemonic::Test {
        let (imm, k) = read_imm(bytes, len, width)?;
        return done(m, ops2(modrm.rm_operand, Operand::Immediate(imm)), Some(width), len + k);
    }
    done(m, ops1(modrm.rm_operand), Some(width), len)
}

fn simple(m: Mnemonic) -> (r: Result<(Instruction, usize), DecodeError>)
    ensures
        decoded_view(r) == ok(m, seq![], None, 1),
{
    done(m, ops0(), None, 1)
}

fn simple_reg16(m: Mnemonic, reg: Reg16) -> (r: Result<(Instruction, usize), DecodeError>)
    ensures
        decoded_view(r) == ok(m, seq![Operand::Reg16(reg)], Some(Width::Word), 1),
{
    done(m, ops1(Operand::Reg16(reg)), Some(Width::Word), 1)
}

fn decode_low(opcode: u8, bytes: &[u8]) -> (r: Result<(Instruction, usize), DecodeError>)
    requires
        bytes@.len() >= 1,
        bytes@[0] == opcode,
        opcode < 0x80,
    ensures
        decoded_view(r) == spec_decode_low(opcode, bytes@),
{
    if 0x40 <= opcode && opcode < 0x48 {
        simple_reg16(Mnemonic::Inc, Reg16::from_index(opcode))
    } else if 0x48 <= opcode && opcode < 0x50 {
        simple_reg16(Mnemonic::Dec, Reg16::from_index(opcode))
    } else if 0x50 <= opcode && opcode < 0x58 {
        simple_reg16(Mnemonic::Push, Reg16::from_index(opcode))
    } else if 0x58 <= opcode && opcode < 0x60 {
        simple_reg16(Mnemonic::Pop, Reg16::from_index(opcode))
    } else if 0x70 <= opcode {
        decode_rel8_branch(Mnemonic::Jcc(condition_from_index(opcode)), bytes)
    } else {
        match opcode {
            0x06 => simple_reg16(Mnemonic::Push, Reg16::Es),
            0x07 => simple_reg16(Mnemonic::Pop, Reg16::Es),
            0x0E => simple_reg16(Mnemonic::Push, Reg16::Cs),
            0x16 => simple_reg16(Mnemonic::Push, Reg16::Ss),
            0x17 => simple_reg16(Mnemonic::Pop, Reg16::Ss),
            0x1E => simple_reg16(Mnemonic::Push, Reg16::Ds),
            0x1F => simple_reg16(Mnemonic::Pop, Reg16::Ds),
            _ => Err(DecodeError::InvalidOpcode(opcode)),
        }
    }
}

fn decode_mid(opcode: u8, bytes: &[u8]) -> (r: Result<(Instruction, usize), DecodeError>)
    requires
        bytes@.len() >= 1,
        bytes@[0] == opcode,
        0x80 <= opcode < 0xC0,
    ensures
        decoded_view(r) == spec_decode_mid(opcode, bytes@),
{
    if 0x91 <= opcode && opcode < 0x98 {
        done(
            Mnemonic::Xchg,
            ops2(Operand::Reg16(Reg16::Ax), Operand::Reg16(Reg16::from_index(opcode))),
            Some(Width::Word),
            1,
        )
    } else if 0xB0 <= opcode && opcode < 0xB8 {
        decode_mov_reg_imm(opcode, bytes, Width::Byte)
    } else if 0xB8 <= opcode {
        decode_mov_reg_imm(opcode, bytes, Width::Word)
    } else {
        match opcode {
            0x80 => decode_immediate_group(bytes, Width::Byte, Width::Byte),
            0x81 => decode_immediate_group(bytes, Width::Word, Width::Word),
            0x82 => decode_immediate_group(bytes, Width::Byte, Width::Byte),
            0x83 => decode_immediate_group(bytes, Width::Word, Width::Byte),
            0x84 => decode_modrm_two_operand(Mnemonic::Test, bytes, Width::Byte, false),
            0x85 => decode_modrm_two_operand(Mnemonic::Test, bytes, Width::Word, false),
            0x86 => decode_modrm_two_operand(Mnemonic::Xchg, bytes, Width::Byte, false),
            0x87 => decode_modrm_two_operand(Mnemonic::Xchg, bytes, Width::Word, false),
            0x88 => decode_modrm_two_operand(Mnemonic::Mov, bytes, Width::Byte, false),
            0x89 => decode_modrm_two_operand(Mnemonic::Mov, bytes, Width::Word, false),
            0x8A => decode_modrm_two_operand(Mnemonic::Mov, bytes, Width::Byte, true),
            0x8B => decode_modrm_two_operand(Mnemonic::Mov, bytes, Width::Word, true),
            0x8C => decode_mov_sreg(bytes, opcode, false),
            0x8D => decode_lea(bytes),
            0x8E => decode_mov_sreg(bytes, opcode, true),
            0x8F => decode_rm_single(bytes, opcode),
            0x90 => simple(Mnemonic::Nop),
            0x9C => simple(Mnemonic::Pushf),
            0x9D => simple(Mnemonic::Popf),
            0x9E => simple(Mnemonic::Sahf),
            0x9F => simple(Mnemonic::Lahf),
            0xA0 => decode_mov_acc_mem(bytes, Width::Byte, true),
            0xA1 => decode_mov_acc_mem(bytes, Width::Word, true),
            0xA2 => decode_mov_acc_mem(bytes, Width::Byte, false),
            0xA3 => decode_mov_acc_mem(bytes, Width::Word, false),
            0xA4 => simple(Mnemonic::Movsb),
            0xA5 => simple(Mnemonic::Movsw),
            0xA6 => simple(Mnemonic::Cmpsb),
            0xA7 => simple(Mnemonic::Cmpsw),
            0xA8 => decode_acc_imm(Mnemonic::Test, bytes, Width::Byte),
            0xA9 => decode_acc_imm(Mnemonic::Test, bytes, Width::Word),
            0xAA => simple(Mnemonic::Stosb),
            0xAB => simple(Mnemonic::Stosw),
            0xAC => simple(Mnemonic::Lodsb),
            0xAD => simple(Mnemonic::Lodsw),
            0xAE => simple(Mnemonic::Scasb),
            0xAF => simple(Mnemonic::Scasw),
            _ => Err(DecodeError::InvalidOpcode(opcode)),
        }
    }
}

fn decode_high(opcode: u8, bytes: &[u8]) -> (r: Result<(Instruction, usize), DecodeError>)
    requires
        bytes@.len() >= 1,
        bytes@[0] == opcode,
        0xC0 <= opcode,
    ensures
        decoded_view(r) == spec_decode_high(opcode, bytes@),
{
    match opcode {
        0xC0 => decode_shift_rotate(bytes, Width::Byte, ShiftCountSource::Imm8),
        0xC1 => decode_shift_rotate(bytes, Width::Word, ShiftCountSource::Imm8),
        0xC2 => {
            let imm = read_i16(bytes, 1)? as i32;
            done(Mnemonic::Ret, ops1(Operand::Immediate(imm)), None, 3)
        },
        0xC3 => simple(Mnemonic::Ret),
        0xC6 => decode_mov_rm_imm(bytes, Width::Byte, opcode),
        0xC7 => decode_mov_rm_imm(bytes, Width::Word, opcode),
        0xCC => simple(Mnemonic::Int3),
        0xCD => {
            let number = read_i8(bytes, 1)? as i32;
            done(Mnemonic::Int, ops1(Operand::Immediate(number)), None, 2)
        },
        0xCF => simple(Mnemonic::Iret),
        0xD0 => decode_shift_rotate(bytes, Width::Byte, ShiftCountSource::One),
        0xD1 => decode_shift_rotate(bytes, Width::Word, ShiftCountSource::One),
        0xD2 => decode_shift_rotate(bytes, Width::Byte, ShiftCountSource::Cl),
        0xD3 => decode_shift_rotate(bytes, Width::Word, ShiftCountSource::Cl),
        0xD7 => simple(Mnemonic::Xlat),
        0xE0 => decode_rel8_branch(Mnemonic::Loopne, bytes),
        0xE1 => decode_rel8_branch(Mnemonic::Loope, bytes),
        0xE2 => decode_rel8_branch(Mnemonic::Loop, bytes),
        0xE3 => decode_rel8_branch(Mnemonic::Jcxz, bytes),
        0xE8 => decode_rel16_branch(Mnemonic::Call, bytes),
        0xE9 => decode_rel16_branch(Mnemonic::Jmp, bytes),
        0xEB => decode_rel8_branch(Mnemonic::Jmp, bytes),
        0xF4 => simple(Mnemonic::Hlt),
        0xF5 => simple(Mnemonic::Cmc),
        0xF6 => decode_unary_group(bytes, Width::Byte),
        0xF7 => decode_unary_group(bytes, Width::Word),
        0xF8 => simple(Mnemonic::Clc),
        0xF9 => simple(Mnemonic::Stc),
        0xFA => simple(Mnemonic::Cli),
        0xFB => simple(Mnemonic::Sti),
        0xFC => simple(Mnemonic::Cld),
        0xFD => simple(Mnemonic::Std),
        0xFE => decode_rm_single(bytes, opcode),
        0xFF => decode_rm_single(bytes, opcode),
        _ => Err(DecodeError::InvalidOpcode(opcode)),
    }
}

fn is_string_instruction(m: Mnemonic) -> (r: bool)
    ensures
        r == is_string_mnemonic(m),
{
    match m {
        Mnemonic::Movsb | Mnemonic::Movsw | Mnemonic::Cmpsb | Mnemonic::Cmpsw | Mnemonic::Stosb
        | Mnemonic::Stosw | Mnemonic::Lodsb | Mnemonic::Lodsw | Mnemonic::Scasb
        | Mnemonic::Scasw => true,
        _ => false,
    }
}

/// Decodes one instruction at the front of `bytes`; returns it and how
/// many bytes it took.
pub fn decode_one(bytes: &[u8]) -> (r: Result<(Instruction, usize), DecodeError>)
    ensures
        decoded_view(r) == spec_decode(bytes@),
        r matches Ok((i, n)) ==> 1 <= n <= bytes@.len() && executable(i),
    decreases bytes@.len(),
{
    proof {
        lemma_decode_sound(bytes@);
    }
    if bytes.len() == 0 {
        return Err(DecodeError::UnexpectedEndOfInput);
    }
    let opcode = bytes[0];
    if opcode == 0xF2 || opcode == 0xF3 {
        let mut rest: Vec<u8> = Vec::new();
        let mut i: usize = 1;
        while i < bytes.len()
            invariant
                1 <= i <= bytes@.len(),
                rest@ == bytes@.subrange(1, i as int),
            decreases bytes@.len() - i,
        {
            rest.push(bytes[i]);
            i = i + 1;
        }
        let (inner, inner_len) = decode_one(rest.as_slice())?;
        if !is_string_instruction(inner.mnemonic) {
            return Err(DecodeError::InvalidOpcode(opcode));
        }
        let repeat = if opcode == 0xF2 {
            Repeat::Repne
        } else {
            match inner.mnemonic {
                Mnemonic::Cmpsb | Mnemonic::Cmpsw | Mnemonic::Scasb | Mnemonic::Scasw => Repeat::Repe,
                _ => Repeat::Rep,
            }
        };
        proof {
            vstd::arithmetic::div_mod::lemma_small_mod(1, 256);
        }
        let len = 1 + inner_len;
        let mut instr = inner.with_repeat(repeat);
        instr.byte_len = len as u8;
        return Ok((instr, len));
    }
    if opcode < 0x40 && opcode % 8 <= 5 {
        decode_arithmetic_group_form(opcode, bytes)
    } else if opcode < 0x80 {
        decode_low(opcode, bytes)
    } else if opcode < 0xC0 {
        decode_mid(opcode, bytes)
    } else {
        decode_high(opcode, bytes)
    }
}

} // verus!
