//! `Instruction` to bytes: the encoder half of the model the decoder
//! decodes into. Not byte-optimal (word immediates and nonzero
//! displacements always take the full 16-bit form): correctness and
//! simplicity over code size.
use crate::isa::{
    spec_is_segment, spec_reg16_index, spec_reg8_index, spec_segment_index, Condition, Instruction,
    Mnemonic, Operand, Reg16, Reg8, Repeat, Width,
};
use super::parse_error::text_of;
use crate::textfmt::{push_signed_decimal, push_str, signed_decimal_text};
use vstd::prelude::*;

verus! {

#[derive(Debug, Clone, PartialEq, Eq)]
pub struct EncodeError(pub String);

/// Encoded bytes, or the message of why there are none.
pub type Encoded = Result<Seq<u8>, Seq<char>>;

/// The low byte and the high byte of the 16-bit two's-complement pattern
/// of `v`.
pub open spec fn le16(v: int) -> Seq<u8> {
    let u = v % 65536;
    seq![(u % 256) as u8, (u / 256) as u8]
}

/// Why an immediate does not fit its width.
pub open spec fn too_wide_message(value: i32, width: Width) -> Seq<char> {
    "value "@ + signed_decimal_text(value as int) + " does not fit in a "@ + width_name(width)
        + " immediate"@
}

pub open spec fn width_name(width: Width) -> Seq<char> {
    match width {
        Width::Byte => "Byte"@,
        Width::Word => "Word"@,
    }
}

/// An immediate of the width, which must fit it signed or unsigned.
pub open spec fn imm_bytes(value: i32, width: Width) -> Encoded {
    match width {
        Width::Byte => if -128 <= value <= 255 {
            Ok(seq![(value % 256) as u8])
        } else {
            Err(too_wide_message(value, width))
        },
        Width::Word => if -32768 <= value <= 65535 {
            Ok(le16(value as int))
        } else {
            Err(too_wide_message(value, width))
        },
    }
}

pub open spec fn width_bit_of(width: Width) -> u8 {
    match width {
        Width::Byte => 0,
        Width::Word => 1,
    }
}

/// The `r/m` field of a base/index combination (`[BP]`'s and the direct
/// address's field is 6).
pub open spec fn rm_field(base: Option<Reg16>, index: Option<Reg16>) -> Option<u8> {
    match (base, index) {
        (Some(Reg16::Bx), Some(Reg16::Si)) => Some(0u8),
        (Some(Reg16::Bx), Some(Reg16::Di)) => Some(1u8),
        (Some(Reg16::Bp), Some(Reg16::Si)) => Some(2u8),
        (Some(Reg16::Bp), Some(Reg16::Di)) => Some(3u8),
        (Some(Reg16::Si), None) => Some(4u8),
        (Some(Reg16::Di), None) => Some(5u8),
        (Some(Reg16::Bp), None) => Some(6u8),
        (Some(Reg16::Bx), None) => Some(7u8),
        (None, None) => Some(6u8),
        _ => None,
    }
}

/// ModRM (and displacement) bytes of a memory operand.
pub open spec fn memory_bytes(reg_field: u8, base: Option<Reg16>, index: Option<Reg16>, displacement: i32) -> Encoded {
    match rm_field(base, index) {
        None => Err("not a valid 8086 base/index addressing combination"@),
        Some(rm) => if base is None && index is None {
            Ok(seq![(reg_field * 8 + rm) as u8] + le16(displacement as int))
        } else if base == Some(Reg16::Bp) && index is None && displacement == 0 {
            Ok(seq![(64 + reg_field * 8 + rm) as u8, 0u8])
        } else if displacement == 0 {
            Ok(seq![(reg_field * 8 + rm) as u8])
        } else {
            Ok(seq![(128 + reg_field * 8 + rm) as u8] + le16(displacement as int))
        },
    }
}

/// ModRM (and displacement) bytes of an operand in the `r/m` role.
pub open spec fn rm_bytes(reg_field: u8, operand: Operand) -> Encoded {
    match operand {
        Operand::Reg8(r) => Ok(seq![(192 + reg_field * 8 + spec_reg8_index(r)) as u8]),
        Operand::Reg16(r) => match spec_reg16_index(r) {
            Some(i) => Ok(seq![(192 + reg_field * 8 + i) as u8]),
            None => Err("a segment register cannot be an r/m operand"@),
        },
        Operand::Memory { segment_override, base, index, displacement } => if segment_override is Some {
            Err("segment override prefixes are not supported by the assembler"@)
        } else {
            memory_bytes(reg_field, base, index, displacement)
        },
        Operand::Immediate(_) => Err("an immediate cannot be used as an r/m operand"@),
    }
}

/// `head` followed by the ModRM bytes.
pub open spec fn with_rm(head: Seq<u8>, reg_field: u8, operand: Operand) -> Encoded {
    match rm_bytes(reg_field, operand) {
        Ok(b) => Ok(head + b),
        Err(m) => Err(m),
    }
}

/// `bytes` followed by an immediate.
pub open spec fn then_imm(bytes: Encoded, value: i32, width: Width) -> Encoded {
    match bytes {
        Ok(b) => match imm_bytes(value, width) {
            Ok(i) => Ok(b + i),
            Err(m) => Err(m),
        },
        Err(m) => Err(m),
    }
}

/// The register field of a register operand.
pub open spec fn reg_field_of_spec(op: Operand) -> Option<u8> {
    match op {
        Operand::Reg8(r) => Some(spec_reg8_index(r)),
        Operand::Reg16(r) => spec_reg16_index(r),
        _ => None,
    }
}

/// The shared `r/m, reg` / `reg, r/m` pattern of MOV and the ALU group
/// (opcodes `base`..`base+3`).
pub open spec fn rm_reg_form(base: u8, dst: Operand, src: Operand, width: Width) -> Encoded {
    let w = width_bit_of(width);
    if dst is Memory && src is Memory {
        Err("both operands cannot be memory references"@)
    } else if dst is Memory || !(src is Memory) {
        match reg_field_of_spec(src) {
            Some(f) => with_rm(seq![(base + w) as u8], f, dst),
            None => Err("expected a register operand"@),
        }
    } else {
        match reg_field_of_spec(dst) {
            Some(f) => with_rm(seq![(base + 2 + w) as u8], f, src),
            None => Err("expected a register operand"@),
        }
    }
}

/// Which operand of TEST/XCHG plays `reg` and which `r/m`.
pub open spec fn split_spec(a: Operand, b: Operand) -> Option<(Operand, Operand)> {
    if a is Memory && b is Memory {
        None
    } else if a is Memory {
        Some((b, a))
    } else if b is Memory {
        Some((a, b))
    } else {
        Some((b, a))
    }
}

pub open spec fn condition_code(c: Condition) -> u8 {
    match c {
        Condition::Overflow => 0,
        Condition::NotOverflow => 1,
        Condition::Below => 2,
        Condition::AboveOrEqual => 3,
        Condition::Equal => 4,
        Condition::NotEqual => 5,
        Condition::BelowOrEqual => 6,
        Condition::Above => 7,
        Condition::Sign => 8,
        Condition::NotSign => 9,
        Condition::Parity => 10,
        Condition::NotParity => 11,
        Condition::Less => 12,
        Condition::GreaterOrEqual => 13,
        Condition::LessOrEqual => 14,
        Condition::Greater => 15,
    }
}

pub open spec fn arithmetic_index(m: Mnemonic) -> u8 {
    match m {
        Mnemonic::Add => 0,
        Mnemonic::Or => 1,
        Mnemonic::Adc => 2,
        Mnemonic::Sbb => 3,
        Mnemonic::And => 4,
        Mnemonic::Sub => 5,
        Mnemonic::Xor => 6,
        _ => 7,
    }
}

pub open spec fn shift_field(m: Mnemonic) -> u8 {
    match m {
        Mnemonic::Rol => 0,
        Mnemonic::Ror => 1,
        Mnemonic::Rcl => 2,
        Mnemonic::Rcr => 3,
        Mnemonic::Shl => 4,
        Mnemonic::Shr => 5,
        _ => 7,
    }
}

pub open spec fn unary_field(m: Mnemonic) -> u8 {
    match m {
        Mnemonic::Not => 2,
        Mnemonic::Neg => 3,
        Mnemonic::Mul => 4,
        Mnemonic::Imul => 5,
        Mnemonic::Div => 6,
        _ => 7,
    }
}

pub open spec fn string_opcode_of(m: Mnemonic) -> u8 {
    match m {
        Mnemonic::Movsb => 0xA4,
        Mnemonic::Movsw => 0xA5,
        Mnemonic::Cmpsb => 0xA6,
        Mnemonic::Cmpsw => 0xA7,
        Mnemonic::Stosb => 0xAA,
        Mnemonic::Stosw => 0xAB,
        Mnemonic::Lodsb => 0xAC,
        Mnemonic::Lodsw => 0xAD,
        Mnemonic::Scasb => 0xAE,
        _ => 0xAF,
    }
}

pub open spec fn is_accumulator_spec(op: Operand, width: Width) -> bool {
    (op == Operand::Reg8(Reg8::Al) && width == Width::Byte) || (op == Operand::Reg16(Reg16::Ax)
        && width == Width::Word)
}

/// How many operands each mnemonic reads.
pub open spec fn operands_needed(m: Mnemonic) -> nat {
    match m {
        Mnemonic::Mov | Mnemonic::Xchg | Mnemonic::Lea | Mnemonic::Add | Mnemonic::Adc
        | Mnemonic::Sub | Mnemonic::Sbb | Mnemonic::And | Mnemonic::Or | Mnemonic::Xor
        | Mnemonic::Cmp | Mnemonic::Test => 2,
        Mnemonic::Push | Mnemonic::Pop | Mnemonic::Inc | Mnemonic::Dec | Mnemonic::Jmp
        | Mnemonic::Jcc(_) | Mnemonic::Loop | Mnemonic::Loope | Mnemonic::Loopne | Mnemonic::Jcxz
        | Mnemonic::Call | Mnemonic::Int | Mnemonic::Shl | Mnemonic::Shr | Mnemonic::Sar
        | Mnemonic::Rol | Mnemonic::Ror | Mnemonic::Rcl | Mnemonic::Rcr | Mnemonic::Mul
        | Mnemonic::Imul | Mnemonic::Div | Mnemonic::Idiv | Mnemonic::Not | Mnemonic::Neg => 1,
        _ => 0,
    }
}

/// A relative displacement that fits a signed byte, as that byte.
pub open spec fn rel8(rel: i32) -> Encoded {
    if -128 <= rel <= 127 {
        Ok(seq![(rel % 256) as u8])
    } else {
        Err("branch target is out of rel8 range"@)
    }
}

/// A relative displacement that fits a signed word, as two bytes.
pub open spec fn rel16(rel: i32) -> Encoded {
    if -32768 <= rel <= 32767 {
        Ok(le16(rel as int))
    } else {
        Err("branch target is out of rel16 range"@)
    }
}

/// `r`, with `message` in place of its error.
pub open spec fn ranged(r: Encoded, message: Seq<char>) -> Encoded {
    match r {
        Ok(b) => Ok(b),
        Err(_) => Err(message),
    }
}

/// Why a branch displacement does not fit: `what` names the branch,
/// `form` the displacement's size.
pub open spec fn range_message(what: Seq<char>, form: Seq<char>, rel: i32) -> Seq<char> {
    what + " target is out of "@ + form + " range ("@ + signed_decimal_text(rel as int) + ")"@
}

pub open spec fn prefixed(head: Seq<u8>, tail: Encoded) -> Encoded {
    match tail {
        Ok(t) => Ok(head + t),
        Err(m) => Err(m),
    }
}

pub open spec fn encode_mov_spec(ops: Seq<Operand>, width: Option<Width>) -> Encoded {
    let dst = ops[0];
    let src = ops[1];
    match width {
        None => Err("MOV is missing a width"@),
        Some(w) => if dst is Reg16 && spec_is_segment(dst->Reg16_0) {
            with_rm(seq![0x8Eu8], spec_segment_index(dst->Reg16_0)->Some_0, src)
        } else if src is Reg16 && spec_is_segment(src->Reg16_0) {
            with_rm(seq![0x8Cu8], spec_segment_index(src->Reg16_0)->Some_0, dst)
        } else if src is Immediate {
            let v = src->Immediate_0;
            match dst {
                Operand::Reg8(r) => then_imm(Ok(seq![(0xB0 + spec_reg8_index(r)) as u8]), v, Width::Byte),
                Operand::Reg16(r) => match spec_reg16_index(r) {
                    Some(i) => then_imm(Ok(seq![(0xB8 + i) as u8]), v, Width::Word),
                    None => Err("this register cannot receive an immediate MOV"@),
                },
                Operand::Memory { .. } => then_imm(
                    with_rm(seq![if w == Width::Byte { 0xC6u8 } else { 0xC7u8 }], 0, dst),
                    v,
                    w,
                ),
                Operand::Immediate(_) => Err("cannot MOV into an immediate"@),
            }
        } else {
            rm_reg_form(0x88, dst, src, w)
        },
    }
}

pub open spec fn encode_push_spec(op: Operand) -> Encoded {
    match op {
        Operand::Reg16(Reg16::Es) => Ok(seq![0x06u8]),
        Operand::Reg16(Reg16::Cs) => Ok(seq![0x0Eu8]),
        Operand::Reg16(Reg16::Ss) => Ok(seq![0x16u8]),
        Operand::Reg16(Reg16::Ds) => Ok(seq![0x1Eu8]),
        Operand::Reg16(r) => match spec_reg16_index(r) {
            Some(i) => Ok(seq![(0x50 + i) as u8]),
            None => Err("this register cannot be pushed"@),
        },
        Operand::Memory { .. } => with_rm(seq![0xFFu8], 6, op),
        _ => Err("cannot PUSH this operand"@),
    }
}

pub open spec fn encode_pop_spec(op: Operand) -> Encoded {
    match op {
        Operand::Reg16(Reg16::Cs) => Err("POP CS is not a valid 8086 instruction"@),
        Operand::Reg16(Reg16::Es) => Ok(seq![0x07u8]),
        Operand::Reg16(Reg16::Ss) => Ok(seq![0x17u8]),
        Operand::Reg16(Reg16::Ds) => Ok(seq![0x1Fu8]),
        Operand::Reg16(r) => match spec_reg16_index(r) {
            Some(i) => Ok(seq![(0x58 + i) as u8]),
            None => Err("this register cannot be popped"@),
        },
        Operand::Memory { .. } => with_rm(seq![0x8Fu8], 0, op),
        _ => Err("cannot POP this operand"@),
    }
}

pub open spec fn encode_xchg_spec(a: Operand, b: Operand, width: Option<Width>) -> Encoded {
    match width {
        None => Err("XCHG is missing a width"@),
        Some(w) => {
            let ax_other: Option<Reg16> = if w == Width::Word {
                if a == Operand::Reg16(Reg16::Ax) && b is Reg16 {
                    Some(b->Reg16_0)
                } else if b == Operand::Reg16(Reg16::Ax) && a is Reg16 {
                    Some(a->Reg16_0)
                } else {
                    None
                }
            } else {
                None
            };
            match ax_other {
                Some(r) => match spec_reg16_index(r) {
                    Some(i) => Ok(seq![(0x90 + i) as u8]),
                    None => Err("this register cannot be exchanged"@),
                },
                None => match split_spec(a, b) {
                    None => Err("both operands cannot be memory references"@),
                    Some((reg_op, rm_op)) => match reg_field_of_spec(reg_op) {
                        Some(f) => with_rm(seq![if w == Width::Byte { 0x86u8 } else { 0x87u8 }], f, rm_op),
                        None => Err("expected a register operand"@),
                    },
                },
            }
        },
    }
}

pub open spec fn encode_lea_spec(dst: Operand, src: Operand) -> Encoded {
    if !(src is Memory) {
        Err("LEA's source operand must be a memory reference"@)
    } else {
        match reg_field_of_spec(dst) {
            Some(f) => with_rm(seq![0x8Du8], f, src),
            None => Err("expected a register operand"@),
        }
    }
}

pub open spec fn encode_arithmetic_spec(m: Mnemonic, dst: Operand, src: Operand, width: Option<Width>) -> Encoded {
    match width {
        None => Err("arithmetic/logic instruction is missing a width"@),
        Some(w) => {
            let index = arithmetic_index(m);
            if src is Immediate {
                let v = src->Immediate_0;
                if is_accumulator_spec(dst, w) {
                    then_imm(Ok(seq![(index * 8 + 4 + width_bit_of(w)) as u8]), v, w)
                } else {
                    then_imm(
                        with_rm(seq![if w == Width::Byte { 0x80u8 } else { 0x81u8 }], index, dst),
                        v,
                        w,
                    )
                }
            } else {
                rm_reg_form((index * 8) as u8, dst, src, w)
            }
        },
    }
}

pub open spec fn encode_inc_dec_spec(m: Mnemonic, op: Operand, width: Option<Width>) -> Encoded {
    match width {
        None => Err("INC/DEC is missing a width"@),
        Some(w) => {
            let inc = m == Mnemonic::Inc;
            if op is Reg16 {
                match spec_reg16_index(op->Reg16_0) {
                    Some(i) => Ok(seq![((if inc { 0x40u8 } else { 0x48u8 }) + i) as u8]),
                    None => Err("this register cannot be incremented or decremented"@),
                }
            } else {
                with_rm(
                    seq![if w == Width::Byte { 0xFEu8 } else { 0xFFu8 }],
                    if inc { 0 } else { 1 },
                    op,
                )
            }
        },
    }
}

pub open spec fn encode_test_spec(dst: Operand, src: Operand, width: Option<Width>) -> Encoded {
    match width {
        None => Err("TEST is missing a width"@),
        Some(w) => if src is Immediate {
            if is_accumulator_spec(dst, w) {
                then_imm(
                    Ok(seq![if w == Width::Byte { 0xA8u8 } else { 0xA9u8 }]),
                    src->Immediate_0,
                    w,
                )
            } else {
                Err("TEST reg/mem, immediate is only supported against AL/AX"@)
            }
        } else {
            match split_spec(dst, src) {
                None => Err("both operands cannot be memory references"@),
                Some((reg_op, rm_op)) => match reg_field_of_spec(reg_op) {
                    Some(f) => with_rm(seq![if w == Width::Byte { 0x84u8 } else { 0x85u8 }], f, rm_op),
                    None => Err("expected a register operand"@),
                },
            }
        },
    }
}

pub open spec fn encode_shift_spec(m: Mnemonic, ops: Seq<Operand>, width: Option<Width>) -> Encoded {
    match width {
        None => Err("shift/rotate instruction is missing a width"@),
        Some(w) => if ops.len() < 2 {
            Err("shift/rotate instruction requires a count operand"@)
        } else {
            let f = shift_field(m);
            let wb = width_bit_of(w);
            match ops[1] {
                Operand::Immediate(1) => with_rm(seq![(0xD0 + wb) as u8], f, ops[0]),
                Operand::Reg8(Reg8::Cl) => with_rm(seq![(0xD2 + wb) as u8], f, ops[0]),
                Operand::Immediate(n) => then_imm(
                    with_rm(seq![(0xC0 + wb) as u8], f, ops[0]),
                    n,
                    Width::Byte,
                ),
                _ => Err("invalid shift/rotate count operand - must be 1, CL, or an immediate"@),
            }
        },
    }
}

pub open spec fn encode_unary_spec(m: Mnemonic, op: Operand, width: Option<Width>) -> Encoded {
    match width {
        None => Err("instruction is missing a width"@),
        Some(w) => with_rm(seq![(0xF6 + width_bit_of(w)) as u8], unary_field(m), op),
    }
}

pub open spec fn encode_string_spec(m: Mnemonic, repeat: Option<Repeat>) -> Seq<u8> {
    match repeat {
        Some(Repeat::Rep) | Some(Repeat::Repe) => seq![0xF3u8, string_opcode_of(m)],
        Some(Repeat::Repne) => seq![0xF2u8, string_opcode_of(m)],
        None => seq![string_opcode_of(m)],
    }
}

/// The bytes that encode an instruction, or the message of why it has no
/// encoding here.
pub open spec fn encoding(instr: Instruction) -> Encoded {
    encoding_of(instr.mnemonic, instr.operands@, instr.width, instr.byte_len, instr.repeat)
}

/// `encoding` of an instruction given by its parts.
pub open spec fn encoding_of(
    mnemonic: Mnemonic,
    ops: Seq<Operand>,
    w: Option<Width>,
    byte_len: u8,
    repeat: Option<Repeat>,
) -> Encoded {
    let instr_mnemonic = mnemonic;
    match mnemonic {
        Mnemonic::Mov => encode_mov_spec(ops, w),
        Mnemonic::Push => encode_push_spec(ops[0]),
        Mnemonic::Pop => encode_pop_spec(ops[0]),
        Mnemonic::Xchg => encode_xchg_spec(ops[0], ops[1], w),
        Mnemonic::Lea => encode_lea_spec(ops[0], ops[1]),
        Mnemonic::Add | Mnemonic::Adc | Mnemonic::Sub | Mnemonic::Sbb | Mnemonic::And
        | Mnemonic::Or | Mnemonic::Xor | Mnemonic::Cmp => encode_arithmetic_spec(
            mnemonic,
            ops[0],
            ops[1],
            w,
        ),
        Mnemonic::Inc | Mnemonic::Dec => encode_inc_dec_spec(mnemonic, ops[0], w),
        Mnemonic::Test => encode_test_spec(ops[0], ops[1], w),
        Mnemonic::Jmp => match ops[0] {
            Operand::Immediate(rel) => if byte_len == 2 {
                prefixed(seq![0xEBu8], ranged(rel8(rel), range_message("JMP SHORT"@, "rel8"@, rel)))
            } else {
                prefixed(seq![0xE9u8], ranged(rel16(rel), range_message("JMP"@, "rel16"@, rel)))
            },
            _ => Err("expected an immediate/relative operand"@),
        },
        Mnemonic::Jcc(c) => match ops[0] {
            Operand::Immediate(rel) => if -128 <= rel <= 127 {
                prefixed(
                    seq![(0x70 + condition_code(c)) as u8],
                    ranged(rel8(rel), range_message("branch"@, "rel8"@, rel)),
                )
            } else {
                Err(
                    "conditional jump target is out of range ("@ + signed_decimal_text(rel as int)
                        + "); 8086 Jcc only has an 8-bit relative form"@,
                )
            },
            _ => Err("expected an immediate/relative operand"@),
        },
        Mnemonic::Loop | Mnemonic::Loope | Mnemonic::Loopne | Mnemonic::Jcxz => {
            let op: u8 = match mnemonic {
                Mnemonic::Loop => 0xE2,
                Mnemonic::Loope => 0xE1,
                Mnemonic::Loopne => 0xE0,
                _ => 0xE3,
            };
            match ops[0] {
                Operand::Immediate(rel) => prefixed(
                    seq![op],
                    ranged(rel8(rel), range_message("branch"@, "rel8"@, rel)),
                ),
                _ => Err("expected an immediate/relative operand"@),
            }
        },
        Mnemonic::Call => match ops[0] {
            Operand::Immediate(rel) => prefixed(
                seq![0xE8u8],
                ranged(rel16(rel), range_message("CALL"@, "rel16"@, rel)),
            ),
            _ => Err("expected an immediate/relative operand"@),
        },
        Mnemonic::Ret => if ops.len() == 0 {
            Ok(seq![0xC3u8])
        } else {
            match ops[0] {
                Operand::Immediate(v) => if 0 <= v <= 0xFFFF {
                    Ok(seq![0xC2u8] + le16(v as int))
                } else {
                    Err("RET pop count out of range: "@ + signed_decimal_text(v as int))
                },
                _ => Err("RET's operand must be an immediate pop count"@),
            }
        },
        Mnemonic::Int => match ops[0] {
            Operand::Immediate(v) => if 0 <= v <= 255 {
                Ok(seq![0xCDu8, v as u8])
            } else {
                Err("INT vector out of range: "@ + signed_decimal_text(v as int))
            },
            _ => Err("expected an immediate/relative operand"@),
        },
        Mnemonic::Int3 => Ok(seq![0xCCu8]),
        Mnemonic::Iret => Ok(seq![0xCFu8]),
        Mnemonic::Hlt => Ok(seq![0xF4u8]),
        Mnemonic::Nop => Ok(seq![0x90u8]),
        Mnemonic::Clc => Ok(seq![0xF8u8]),
        Mnemonic::Stc => Ok(seq![0xF9u8]),
        Mnemonic::Cmc => Ok(seq![0xF5u8]),
        Mnemonic::Cld => Ok(seq![0xFCu8]),
        Mnemonic::Std => Ok(seq![0xFDu8]),
        Mnemonic::Cli => Ok(seq![0xFAu8]),
        Mnemonic::Sti => Ok(seq![0xFBu8]),
        Mnemonic::Pushf => Ok(seq![0x9Cu8]),
        Mnemonic::Popf => Ok(seq![0x9Du8]),
        Mnemonic::Sahf => Ok(seq![0x9Eu8]),
        Mnemonic::Lahf => Ok(seq![0x9Fu8]),
        Mnemonic::Xlat => Ok(seq![0xD7u8]),
        Mnemonic::Shl | Mnemonic::Shr | Mnemonic::Sar | Mnemonic::Rol | Mnemonic::Ror
        | Mnemonic::Rcl | Mnemonic::Rcr => encode_shift_spec(mnemonic, ops, w),
        Mnemonic::Mul | Mnemonic::Imul | Mnemonic::Div | Mnemonic::Idiv | Mnemonic::Not
        | Mnemonic::Neg => encode_unary_spec(mnemonic, ops[0], w),
        Mnemonic::Movsb | Mnemonic::Movsw | Mnemonic::Cmpsb | Mnemonic::Cmpsw | Mnemonic::Stosb
        | Mnemonic::Stosw | Mnemonic::Lodsb | Mnemonic::Lodsw | Mnemonic::Scasb
        | Mnemonic::Scasw => Ok(encode_string_spec(mnemonic, repeat)),
        Mnemonic::Unknown => Err("cannot encode Mnemonic::Unknown"@),
    }
}

/// The result `r` agrees with `spec`: the same bytes, or an error with
/// the same message.
pub open spec fn agrees(r: Result<Vec<u8>, EncodeError>, spec: Encoded) -> bool {
    match r {
        Ok(b) => spec == Ok::<Seq<u8>, Seq<char>>(b@),
        Err(e) => spec == Err::<Seq<u8>, Seq<char>>(e.0@),
    }
}

fn fail(message: &str) -> (r: Result<Vec<u8>, EncodeError>)
    ensures
        r matches Err(e) && e.0@ == message@,
{
    Err(EncodeError(text_of(message)))
}

fn one(b: u8) -> (v: Vec<u8>)
    ensures
        v@ == seq![b],
{
    let mut v = Vec::new();
    v.push(b);
    v
}

fn two(a: u8, b: u8) -> (v: Vec<u8>)
    ensures
        v@ == seq![a, b],
{
    let mut v = Vec::new();
    v.push(a);
    v.push(b);
    v
}

fn le16_bytes(v: i32) -> (r: Vec<u8>)
    ensures
        r@ == le16(v as int),
{
    let u: u32 = ((v as i64 % 65536 + 65536) % 65536) as u32;
    assert(u == (v as int) % 65536);
    two((u % 256) as u8, (u / 256) as u8)
}

fn width_bit(width: Width) -> (r: u8)
    ensures
        r == width_bit_of(width),
{
    match width {
        Width::Byte => 0,
        Width::Word => 1,
    }
}

fn immediate_bytes(value: i32, width: Width) -> (r: Option<Vec<u8>>)
    ensures
        match r {
            Some(b) => imm_bytes(value, width) == Ok::<Seq<u8>, Seq<char>>(b@),
            None => imm_bytes(value, width) is Err,
        },
{
    match width {
        Width::Byte => if -128 <= value && value <= 255 {
            let b: u8 = ((value as i64 % 256 + 256) % 256) as u8;
            Some(one(b))
        } else {
            None
        },
        Width::Word => if -32768 <= value && value <= 65535 {
            Some(le16_bytes(value))
        } else {
            None
        },
    }
}

fn with_immediate(bytes: Vec<u8>, value: i32, width: Width) -> (r: Result<Vec<u8>, EncodeError>)
    ensures
        agrees(r, then_imm(Ok(bytes@), value, width)),
{
    match immediate_bytes(value, width) {
        Some(imm) => {
            let mut out = bytes;
            let mut tail = imm;
            out.append(&mut tail);
            Ok(out)
        },
        None => {
            let mut m = text_of("value ");
            push_signed_decimal(&mut m, value);
            push_str(&mut m, " does not fit in a ");
            push_str(
                &mut m,
                match width {
                    Width::Byte => "Byte",
                    Width::Word => "Word",
                },
            );
            push_str(&mut m, " immediate");
            Err(EncodeError(m))
        },
    }
}

fn rm_field_for(base: Option<Reg16>, index: Option<Reg16>) -> (r: Option<u8>)
    ensures
        r == rm_field(base, index),
        r matches Some(x) ==> x < 8,
{
    match (base, index) {
        (Some(Reg16::Bx), Some(Reg16::Si)) => Some(0),
        (Some(Reg16::Bx), Some(Reg16::Di)) => Some(1),
        (Some(Reg16::Bp), Some(Reg16::Si)) => Some(2),
        (Some(Reg16::Bp), Some(Reg16::Di)) => Some(3),
        (Some(Reg16::Si), None) => Some(4),
        (Some(Reg16::Di), None) => Some(5),
        (Some(Reg16::Bp), None) => Some(6),
        (Some(Reg16::Bx), None) => Some(7),
        (None, None) => Some(6),
        _ => None,
    }
}

fn encode_memory_operand(reg_field: u8, base: Option<Reg16>, index: Option<Reg16>, displacement: i32) -> (r:
    Result<Vec<u8>, EncodeError>)
    requires
        reg_field < 8,
    ensures
        agrees(r, memory_bytes(reg_field, base, index, displacement)),
{
    let rm = match rm_field_for(base, index) {
        Some(rm) => rm,
        None => {
            return fail("not a valid 8086 base/index addressing combination");
        },
    };
    if base.is_none() && index.is_none() {
        let mut bytes = one(reg_field * 8 + rm);
        let mut d = le16_bytes(displacement);
        bytes.append(&mut d);
        return Ok(bytes);
    }
    let bare_bp_zero = base == Some(Reg16::Bp) && index.is_none() && displacement == 0;
    if displacement == 0 && !bare_bp_zero {
        Ok(one(reg_field * 8 + rm))
    } else if bare_bp_zero {
        Ok(two(64 + reg_field * 8 + rm, 0))
    } else {
        let mut bytes = one(128 + reg_field * 8 + rm);
        let mut d = le16_bytes(displacement);
        bytes.append(&mut d);
        Ok(bytes)
    }
}

/// The ModRM byte (and displacement) for `operand` in the `r/m` role,
/// with `reg_field` as the other three bits.
fn encode_rm(reg_field: u8, operand: &Operand) -> (r: Result<Vec<u8>, EncodeError>)
    requires
        reg_field < 8,
    ensures
        agrees(r, rm_bytes(reg_field, *operand)),
{
    match *operand {
        Operand::Reg8(reg) => Ok(one(192 + reg_field * 8 + reg.to_index())),
        Operand::Reg16(reg) => match reg.to_index() {
            Some(i) => Ok(one(192 + reg_field * 8 + i)),
            None => fail("a segment register cannot be an r/m operand"),
        },
        Operand::Memory { segment_override, base, index, displacement } => {
            if segment_override.is_some() {
                return fail("segment override prefixes are not supported by the assembler");
            }
            encode_memory_operand(reg_field, base, index, displacement)
        },
        Operand::Immediate(_) => fail("an immediate cannot be used as an r/m operand"),
    }
}

/// `head` followed by the ModRM bytes of `operand`.
fn head_rm(head: Vec<u8>, reg_field: u8, operand: &Operand) -> (r: Result<Vec<u8>, EncodeError>)
    requires
        reg_field < 8,
    ensures
        agrees(r, with_rm(head@, reg_field, *operand)),
{
    match encode_rm(reg_field, operand) {
        Ok(rm) => {
            let mut out = head;
            let mut tail = rm;
            out.append(&mut tail);
            Ok(out)
        },
        Err(e) => Err(e),
    }
}

/// `head_rm` then an immediate.
fn head_rm_imm(head: Vec<u8>, reg_field: u8, operand: &Operand, value: i32, width: Width) -> (r:
    Result<Vec<u8>, EncodeError>)
    requires
        reg_field < 8,
    ensures
        agrees(r, then_imm(with_rm(head@, reg_field, *operand), value, width)),
{
    match head_rm(head, reg_field, operand) {
        Ok(bytes) => with_immediate(bytes, value, width),
        Err(e) => Err(e),
    }
}

fn reg_field_of(operand: &Operand) -> (r: Option<u8>)
    ensures
        r == reg_field_of_spec(*operand),
        r matches Some(x) ==> x < 8,
{
    match *operand {
        Operand::Reg8(r) => Some(r.to_index()),
        Operand::Reg16(r) => r.to_index(),
        _ => None,
    }
}

fn encode_rm_reg_form(base: u8, dst: &Operand, src: &Operand, width: Width) -> (r: Result<
    Vec<u8>,
    EncodeError,
>)
    requires
        base <= 0xF8,
    ensures
        agrees(r, rm_reg_form(base, *dst, *src, width)),
{
    let w = width_bit(width);
    let dst_mem = matches!(dst, Operand::Memory { .. });
    let src_mem = matches!(src, Operand::Memory { .. });
    if dst_mem && src_mem {
        return fail("both operands cannot be memory references");
    }
    if dst_mem || !src_mem {
        match reg_field_of(src) {
            Some(f) => head_rm(one(base + w), f, dst),
            None => fail("expected a register operand"),
        }
    } else {
        match reg_field_of(dst) {
            Some(f) => head_rm(one(base + 2 + w), f, src),
            None => fail("expected a register operand"),
        }
    }
}

fn split_reg_and_rm(a: Operand, b: Operand) -> (r: Option<(Operand, Operand)>)
    ensures
        r == split_spec(a, b),
{
    let a_mem = matches!(a, Operand::Memory { .. });
    let b_mem = matches!(b, Operand::Memory { .. });
    if a_mem && b_mem {
        None
    } else if a_mem {
        Some((b, a))
    } else if b_mem {
        Some((a, b))
    } else {
        Some((b, a))
    }
}

pub fn condition_index(condition: Condition) -> (r: u8)
    ensures
        r == condition_code(condition),
        r < 16,
{
    match condition {
        Condition::Overflow => 0,
        Condition::NotOverflow => 1,
        Condition::Below => 2,
        Condition::AboveOrEqual => 3,
        Condition::Equal => 4,
        Condition::NotEqual => 5,
        Condition::BelowOrEqual => 6,
        Condition::Above => 7,
        Condition::Sign => 8,
        Condition::NotSign => 9,
        Condition::Parity => 10,
        Condition::NotParity => 11,
        Condition::Less => 12,
        Condition::GreaterOrEqual => 13,
        Condition::LessOrEqual => 14,
        Condition::Greater => 15,
    }
}

fn is_accumulator(operand: Operand, width: Width) -> (r: bool)
    ensures
        r == is_accumulator_spec(operand, width),
{
    match (operand, width) {
        (Operand::Reg8(Reg8::Al), Width::Byte) => true,
        (Operand::Reg16(Reg16::Ax), Width::Word) => true,
        _ => false,
    }
}

fn encode_mov(instr: &Instruction) -> (r: Result<Vec<u8>, EncodeError>)
    requires
        instr.operands@.len() >= 2,
    ensures
        agrees(r, encode_mov_spec(instr.operands@, instr.width)),
{
    let width = match instr.width {
        Some(w) => w,
        None => {
            return fail("MOV is missing a width");
        },
    };
    let dst = instr.operands[0];
    let src = instr.operands[1];
    if let Operand::Reg16(r) = dst {
        if r.is_segment() {
            if let Some(seg) = r.to_segment_index() {
                return head_rm(one(0x8E), seg, &src);
            }
        }
    }
    if let Operand::Reg16(r) = src {
        if r.is_segment() {
            if let Some(seg) = r.to_segment_index() {
                return head_rm(one(0x8C), seg, &dst);
            }
        }
    }
    if let Operand::Immediate(value) = src {
        return match dst {
            Operand::Reg8(r) => with_immediate(one(0xB0 + r.to_index()), value, Width::Byte),
            Operand::Reg16(r) => match r.to_index() {
                Some(i) => with_immediate(one(0xB8 + i), value, Width::Word),
                None => fail("this register cannot receive an immediate MOV"),
            },
            Operand::Memory { .. } => {
                let opcode: u8 = match width {
                    Width::Byte => 0xC6,
                    Width::Word => 0xC7,
                };
                head_rm_imm(one(opcode), 0, &dst, value, width)
            },
            Operand::Immediate(_) => fail("cannot MOV into an immediate"),
        };
    }
    encode_rm_reg_form(0x88, &dst, &src, width)
}

fn encode_push(op: Operand) -> (r: Result<Vec<u8>, EncodeError>)
    ensures
        agrees(r, encode_push_spec(op)),
{
    match op {
        Operand::Reg16(Reg16::Es) => Ok(one(0x06)),
        Operand::Reg16(Reg16::Cs) => Ok(one(0x0E)),
        Operand::Reg16(Reg16::Ss) => Ok(one(0x16)),
        Operand::Reg16(Reg16::Ds) => Ok(one(0x1E)),
        Operand::Reg16(r) => match r.to_index() {
            Some(i) => Ok(one(0x50 + i)),
            None => fail("this register cannot be pushed"),
        },
        Operand::Memory { .. } => head_rm(one(0xFF), 6, &op),
        _ => fail("cannot PUSH this operand"),
    }
}

fn encode_pop(op: Operand) -> (r: Result<Vec<u8>, EncodeError>)
    ensures
        agrees(r, encode_pop_spec(op)),
{
    match op {
        Operand::Reg16(Reg16::Cs) => fail("POP CS is not a valid 8086 instruction"),
        Operand::Reg16(Reg16::Es) => Ok(one(0x07)),
        Operand::Reg16(Reg16::Ss) => Ok(one(0x17)),
        Operand::Reg16(Reg16::Ds) => Ok(one(0x1F)),
        Operand::Reg16(r) => match r.to_index() {
            Some(i) => Ok(one(0x58 + i)),
            None => fail("this register cannot be popped"),
        },
        Operand::Memory { .. } => head_rm(one(0x8F), 0, &op),
        _ => fail("cannot POP this operand"),
    }
}

fn encode_xchg(a: Operand, b: Operand, width: Option<Width>) -> (r: Result<Vec<u8>, EncodeError>)
    ensures
        agrees(r, encode_xchg_spec(a, b, width)),
{
    let w = match width {
        Some(w) => w,
        None => {
            return fail("XCHG is missing a width");
        },
    };
    let ax_other: Option<Reg16> = if w == Width::Word {
        match (a, b) {
            (Operand::Reg16(Reg16::Ax), Operand::Reg16(r)) => Some(r),
            (Operand::Reg16(r), Operand::Reg16(Reg16::Ax)) => Some(r),
            _ => None,
        }
    } else {
        None
    };
    if let Some(r) = ax_other {
        return match r.to_index() {
            Some(i) => Ok(one(0x90 + i)),
            None => fail("this register cannot be exchanged"),
        };
    }
    let opcode: u8 = match w {
        Width::Byte => 0x86,
        Width::Word => 0x87,
    };
    match split_reg_and_rm(a, b) {
        None => fail("both operands cannot be memory references"),
        Some((reg_op, rm_op)) => match reg_field_of(&reg_op) {
            Some(f) => head_rm(one(opcode), f, &rm_op),
            None => fail("expected a register operand"),
        },
    }
}

fn encode_lea(dst: Operand, src: Operand) -> (r: Result<Vec<u8>, EncodeError>)
    ensures
        agrees(r, encode_lea_spec(dst, src)),
{
    if !matches!(src, Operand::Memory { .. }) {
        return fail("LEA's source operand must be a memory reference");
    }
    match reg_field_of(&dst) {
        Some(f) => head_rm(one(0x8D), f, &src),
        None => fail("expected a register operand"),
    }
}

fn arithmetic_group_index(m: Mnemonic) -> (r: u8)
    ensures
        r == arithmetic_index(m),
        r < 8,
{
    match m {
        Mnemonic::Add => 0,
        Mnemonic::Or => 1,
        Mnemonic::Adc => 2,
        Mnemonic::Sbb => 3,
        Mnemonic::And => 4,
        Mnemonic::Sub => 5,
        Mnemonic::Xor => 6,
        _ => 7,
    }
}

fn encode_arithmetic_group(m: Mnemonic, dst: Operand, src: Operand, width: Option<Width>) -> (r:
    Result<Vec<u8>, EncodeError>)
    ensures
        agrees(r, encode_arithmetic_spec(m, dst, src, width)),
{
    let w = match width {
        Some(w) => w,
        None => {
            return fail("arithmetic/logic instruction is missing a width");
        },
    };
    let index = arithmetic_group_index(m);
    if let Operand::Immediate(value) = src {
        if is_accumulator(dst, w) {
            return with_immediate(one(index * 8 + 4 + width_bit(w)), value, w);
        }
        let opcode: u8 = match w {
            Width::Byte => 0x80,
            Width::Word => 0x81,
        };
        return head_rm_imm(one(opcode), index, &dst, value, w);
    }
    encode_rm_reg_form(index * 8, &dst, &src, w)
}

fn encode_inc_dec(m: Mnemonic, op: Operand, width: Option<Width>) -> (r: Result<Vec<u8>, EncodeError>)
    ensures
        agrees(r, encode_inc_dec_spec(m, op, width)),
{
    let w = match width {
        Some(w) => w,
        None => {
            return fail("INC/DEC is missing a width");
        },
    };
    let inc = m == Mnemonic::Inc;
    if let Operand::Reg16(r) = op {
        return match r.to_index() {
            Some(i) => Ok(
                one(
                    (if inc {
                        0x40u8
                    } else {
                        0x48u8
                    }) + i,
                ),
            ),
            None => fail("this register cannot be incremented or decremented"),
        };
    }
    let opcode: u8 = match w {
        Width::Byte => 0xFE,
        Width::Word => 0xFF,
    };
    head_rm(
        one(opcode),
        if inc {
            0
        } else {
            1
        },
        &op,
    )
}

fn encode_test(dst: Operand, src: Operand, width: Option<Width>) -> (r: Result<Vec<u8>, EncodeError>)
    ensures
        agrees(r, encode_test_spec(dst, src, width)),
{
    let w = match width {
        Some(w) => w,
        None => {
            return fail("TEST is missing a width");
        },
    };
    if let Operand::Immediate(value) = src {
        if is_accumulator(dst, w) {
            let opcode: u8 = match w {
                Width::Byte => 0xA8,
                Width::Word => 0xA9,
            };
            return with_immediate(one(opcode), value, w);
        }
        return fail("TEST reg/mem, immediate is only supported against AL/AX");
    }
    let opcode: u8 = match w {
        Width::Byte => 0x84,
        Width::Word => 0x85,
    };
    match split_reg_and_rm(dst, src) {
        None => fail("both operands cannot be memory references"),
        Some((reg_op, rm_op)) => match reg_field_of(&reg_op) {
            Some(f) => head_rm(one(opcode), f, &rm_op),
            None => fail("expected a register operand"),
        },
    }
}

fn shift_rotate_reg_field(m: Mnemonic) -> (r: u8)
    ensures
        r == shift_field(m),
        r < 8,
{
    match m {
        Mnemonic::Rol => 0,
        Mnemonic::Ror => 1,
        Mnemonic::Rcl => 2,
        Mnemonic::Rcr => 3,
        Mnemonic::Shl => 4,
        Mnemonic::Shr => 5,
        _ => 7,
    }
}

fn encode_shift_rotate(instr: &Instruction) -> (r: Result<Vec<u8>, EncodeError>)
    requires
        instr.operands@.len() >= 1,
    ensures
        agrees(r, encode_shift_spec(instr.mnemonic, instr.operands@, instr.width)),
{
    let w = match instr.width {
        Some(w) => w,
        None => {
            return fail("shift/rotate instruction is missing a width");
        },
    };
    if instr.operands.len() < 2 {
        return fail("shift/rotate instruction requires a count operand");
    }
    let dst = instr.operands[0];
    let f = shift_rotate_reg_field(instr.mnemonic);
    let wb = width_bit(w);
    match instr.operands[1] {
        Operand::Immediate(1) => head_rm(one(0xD0 + wb), f, &dst),
        Operand::Reg8(Reg8::Cl) => head_rm(one(0xD2 + wb), f, &dst),
        Operand::Immediate(n) => head_rm_imm(one(0xC0 + wb), f, &dst, n, Width::Byte),
        _ => fail("invalid shift/rotate count operand - must be 1, CL, or an immediate"),
    }
}

fn unary_group_reg_field(m: Mnemonic) -> (r: u8)
    ensures
        r == unary_field(m),
        r < 8,
{
    match m {
        Mnemonic::Not => 2,
        Mnemonic::Neg => 3,
        Mnemonic::Mul => 4,
        Mnemonic::Imul => 5,
        Mnemonic::Div => 6,
        _ => 7,
    }
}

fn encode_unary(m: Mnemonic, op: Operand, width: Option<Width>) -> (r: Result<Vec<u8>, EncodeError>)
    ensures
        agrees(r, encode_unary_spec(m, op, width)),
{
    let w = match width {
        Some(w) => w,
        None => {
            return fail("instruction is missing a width");
        },
    };
    head_rm(one(0xF6 + width_bit(w)), unary_group_reg_field(m), &op)
}

fn string_opcode(m: Mnemonic) -> (r: u8)
    ensures
        r == string_opcode_of(m),
{
    match m {
        Mnemonic::Movsb => 0xA4,
        Mnemonic::Movsw => 0xA5,
        Mnemonic::Cmpsb => 0xA6,
        Mnemonic::Cmpsw => 0xA7,
        Mnemonic::Stosb => 0xAA,
        Mnemonic::Stosw => 0xAB,
        Mnemonic::Lodsb => 0xAC,
        Mnemonic::Lodsw => 0xAD,
        Mnemonic::Scasb => 0xAE,
        _ => 0xAF,
    }
}

fn encode_string(m: Mnemonic, repeat: Option<Repeat>) -> (r: Vec<u8>)
    ensures
        r@ == encode_string_spec(m, repeat),
{
    match repeat {
        Some(Repeat::Rep) | Some(Repeat::Repe) => two(0xF3, string_opcode(m)),
        Some(Repeat::Repne) => two(0xF2, string_opcode(m)),
        None => one(string_opcode(m)),
    }
}

fn range_error(what: &str, form: &str, rel: i32) -> (r: Result<Vec<u8>, EncodeError>)
    ensures
        r matches Err(e) && e.0@ == range_message(what@, form@, rel),
{
    let mut m = text_of(what);
    push_str(&mut m, " target is out of ");
    push_str(&mut m, form);
    push_str(&mut m, " range (");
    push_signed_decimal(&mut m, rel);
    push_str(&mut m, ")");
    Err(EncodeError(m))
}

fn rel8_bytes(head: u8, rel: i32, what: &str) -> (r: Result<Vec<u8>, EncodeError>)
    ensures
        agrees(r, prefixed(seq![head], ranged(rel8(rel), range_message(what@, "rel8"@, rel)))),
{
    if -128 <= rel && rel <= 127 {
        let b: u8 = ((rel as i64 % 256 + 256) % 256) as u8;
        let v = two(head, b);
        assert(v@ =~= seq![head] + seq![(rel % 256) as u8]);
        Ok(v)
    } else {
        range_error(what, "rel8", rel)
    }
}

fn rel16_bytes(head: u8, rel: i32, what: &str) -> (r: Result<Vec<u8>, EncodeError>)
    ensures
        agrees(r, prefixed(seq![head], ranged(rel16(rel), range_message(what@, "rel16"@, rel)))),
{
    if -32768 <= rel && rel <= 32767 {
        let mut bytes = one(head);
        let mut d = le16_bytes(rel);
        bytes.append(&mut d);
        Ok(bytes)
    } else {
        range_error(what, "rel16", rel)
    }
}

/// The mnemonics whose encoding first checks that the instruction has a
/// width, before it reads any operand.
pub open spec fn width_checked_first(m: Mnemonic) -> bool {
    match m {
        Mnemonic::Mov | Mnemonic::Xchg | Mnemonic::Add | Mnemonic::Adc | Mnemonic::Sub
        | Mnemonic::Sbb | Mnemonic::And | Mnemonic::Or | Mnemonic::Xor | Mnemonic::Cmp
        | Mnemonic::Inc | Mnemonic::Dec | Mnemonic::Test | Mnemonic::Shl | Mnemonic::Shr
        | Mnemonic::Sar | Mnemonic::Rol | Mnemonic::Ror | Mnemonic::Rcl | Mnemonic::Rcr
        | Mnemonic::Mul | Mnemonic::Imul | Mnemonic::Div | Mnemonic::Idiv | Mnemonic::Not
        | Mnemonic::Neg => true,
        _ => false,
    }
}

/// The error of an instruction that needs a width and has none.
fn needs_width_first(m: Mnemonic) -> (r: bool)
    ensures
        r == width_checked_first(m),
{
    match m {
        Mnemonic::Mov | Mnemonic::Xchg | Mnemonic::Add | Mnemonic::Adc | Mnemonic::Sub
        | Mnemonic::Sbb | Mnemonic::And | Mnemonic::Or | Mnemonic::Xor | Mnemonic::Cmp
        | Mnemonic::Inc | Mnemonic::Dec | Mnemonic::Test | Mnemonic::Shl | Mnemonic::Shr
        | Mnemonic::Sar | Mnemonic::Rol | Mnemonic::Ror | Mnemonic::Rcl | Mnemonic::Rcr
        | Mnemonic::Mul | Mnemonic::Imul | Mnemonic::Div | Mnemonic::Idiv | Mnemonic::Not
        | Mnemonic::Neg => true,
        _ => false,
    }
}

fn missing_width(m: Mnemonic) -> (r: Result<Vec<u8>, EncodeError>)
    requires
        width_checked_first(m),
    ensures
        agrees(r, encoding_of(m, Seq::empty(), None, 0, None)),
{
    match m {
        Mnemonic::Mov => fail("MOV is missing a width"),
        Mnemonic::Xchg => fail("XCHG is missing a width"),
        Mnemonic::Inc | Mnemonic::Dec => fail("INC/DEC is missing a width"),
        Mnemonic::Test => fail("TEST is missing a width"),
        Mnemonic::Shl | Mnemonic::Shr | Mnemonic::Sar | Mnemonic::Rol | Mnemonic::Ror
        | Mnemonic::Rcl | Mnemonic::Rcr => fail("shift/rotate instruction is missing a width"),
        Mnemonic::Mul | Mnemonic::Imul | Mnemonic::Div | Mnemonic::Idiv | Mnemonic::Not
        | Mnemonic::Neg => fail("instruction is missing a width"),
        _ => fail("arithmetic/logic instruction is missing a width"),
    }
}

/// Encodes one instruction. An instruction that needs a width and has
/// none is refused before its operands are read, so it may have fewer
/// operands than its mnemonic takes.
#[verifier::rlimit(100)]
#[verifier::spinoff_prover]
pub fn encode_one(instr: &Instruction) -> (r: Result<Vec<u8>, EncodeError>)
    requires
        instr.operands@.len() >= operands_needed(instr.mnemonic) || (width_checked_first(
            instr.mnemonic,
        ) && instr.width is None),
    ensures
        agrees(r, encoding(*instr)),
{
    if instr.width.is_none() && needs_width_first(instr.mnemonic) {
        let r = missing_width(instr.mnemonic);
        assert(encoding(*instr) == encoding_of(instr.mnemonic, Seq::empty(), None, 0, None));
        return r;
    }
    let ops = &instr.operands;
    match instr.mnemonic {
        Mnemonic::Mov => encode_mov(instr),
        Mnemonic::Push => encode_push(ops[0]),
        Mnemonic::Pop => encode_pop(ops[0]),
        Mnemonic::Xchg => encode_xchg(ops[0], ops[1], instr.width),
        Mnemonic::Lea => encode_lea(ops[0], ops[1]),
        Mnemonic::Add | Mnemonic::Adc | Mnemonic::Sub | Mnemonic::Sbb | Mnemonic::And
        | Mnemonic::Or | Mnemonic::Xor | Mnemonic::Cmp => encode_arithmetic_group(
            instr.mnemonic,
            ops[0],
            ops[1],
            instr.width,
        ),
        Mnemonic::Inc | Mnemonic::Dec => encode_inc_dec(instr.mnemonic, ops[0], instr.width),
        Mnemonic::Test => encode_test(ops[0], ops[1], instr.width),
        Mnemonic::Jmp => match ops[0] {
            Operand::Immediate(rel) => if instr.byte_len == 2 {
                rel8_bytes(0xEB, rel, "JMP SHORT")
            } else {
                rel16_bytes(0xE9, rel, "JMP")
            },
            _ => fail("expected an immediate/relative operand"),
        },
        Mnemonic::Jcc(c) => match ops[0] {
            Operand::Immediate(rel) => {
                if -128 <= rel && rel <= 127 {
                    rel8_bytes(0x70 + condition_index(c), rel, "branch")
                } else {
                    let mut m = text_of("conditional jump target is out of range (");
                    push_signed_decimal(&mut m, rel);
                    push_str(&mut m, "); 8086 Jcc only has an 8-bit relative form");
                    Err(EncodeError(m))
                }
            },
            _ => fail("expected an immediate/relative operand"),
        },
        Mnemonic::Loop | Mnemonic::Loope | Mnemonic::Loopne | Mnemonic::Jcxz => {
            let opcode: u8 = match instr.mnemonic {
                Mnemonic::Loop => 0xE2,
                Mnemonic::Loope => 0xE1,
                Mnemonic::Loopne => 0xE0,
                _ => 0xE3,
            };
            match ops[0] {
                Operand::Immediate(rel) => rel8_bytes(opcode, rel, "branch"),
                _ => fail("expected an immediate/relative operand"),
            }
        },
        Mnemonic::Call => match ops[0] {
            Operand::Immediate(rel) => rel16_bytes(0xE8, rel, "CALL"),
            _ => fail("expected an immediate/relative operand"),
        },
        Mnemonic::Ret => {
            if ops.len() == 0 {
                Ok(one(0xC3))
            } else {
                match ops[0] {
                    Operand::Immediate(v) => if 0 <= v && v <= 0xFFFF {
                        let mut bytes = one(0xC2);
                        let mut d = le16_bytes(v);
                        bytes.append(&mut d);
                        Ok(bytes)
                    } else {
                        {
                            let mut m = text_of("RET pop count out of range: ");
                            push_signed_decimal(&mut m, v);
                            Err(EncodeError(m))
                        }
                    },
                    _ => fail("RET's operand must be an immediate pop count"),
                }
            }
        },
        Mnemonic::Int => match ops[0] {
            Operand::Immediate(v) => if 0 <= v && v <= 255 {
                Ok(two(0xCD, v as u8))
            } else {
                {
                    let mut m = text_of("INT vector out of range: ");
                    push_signed_decimal(&mut m, v);
                    Err(EncodeError(m))
                }
            },
            _ => fail("expected an immediate/relative operand"),
        },
        Mnemonic::Int3 => Ok(one(0xCC)),
        Mnemonic::Iret => Ok(one(0xCF)),
        Mnemonic::Hlt => Ok(one(0xF4)),
        Mnemonic::Nop => Ok(one(0x90)),
        Mnemonic::Clc => Ok(one(0xF8)),
        Mnemonic::Stc => Ok(one(0xF9)),
        Mnemonic::Cmc => Ok(one(0xF5)),
        Mnemonic::Cld => Ok(one(0xFC)),
        Mnemonic::Std => Ok(one(0xFD)),
        Mnemonic::Cli => Ok(one(0xFA)),
        Mnemonic::Sti => Ok(one(0xFB)),
        Mnemonic::Pushf => Ok(one(0x9C)),
        Mnemonic::Popf => Ok(one(0x9D)),
        Mnemonic::Sahf => Ok(one(0x9E)),
        Mnemonic::Lahf => Ok(one(0x9F)),
        Mnemonic::Xlat => Ok(one(0xD7)),
        Mnemonic::Shl | Mnemonic::Shr | Mnemonic::Sar | Mnemonic::Rol | Mnemonic::Ror
        | Mnemonic::Rcl | Mnemonic::Rcr => encode_shift_rotate(instr),
        Mnemonic::Mul | Mnemonic::Imul | Mnemonic::Div | Mnemonic::Idiv | Mnemonic::Not
        | Mnemonic::Neg => encode_unary(instr.mnemonic, ops[0], instr.width),
        Mnemonic::Movsb | Mnemonic::Movsw | Mnemonic::Cmpsb | Mnemonic::Cmpsw | Mnemonic::Stosb
        | Mnemonic::Stosw | Mnemonic::Lodsb | Mnemonic::Lodsw | Mnemonic::Scasb
        | Mnemonic::Scasw => Ok(encode_string(instr.mnemonic, instr.repeat)),
        Mnemonic::Unknown => fail("cannot encode Mnemonic::Unknown"),
    }
}

} // verus!
