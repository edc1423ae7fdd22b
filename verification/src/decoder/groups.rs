//! Opcode groups: instruction families that share one encoding and are
//! told apart by a 3-bit selector (the opcode's middle bits for the
//! arithmetic/logic group, the ModRM `reg` field for the others).
use crate::isa::Mnemonic;
use vstd::prelude::*;

verus! {

/// ADD, OR, ADC, SBB, AND, SUB, XOR, CMP in selector order.
pub open spec fn spec_arithmetic_group(field: u8) -> Mnemonic {
    match field % 8 {
        0 => Mnemonic::Add,
        1 => Mnemonic::Or,
        2 => Mnemonic::Adc,
        3 => Mnemonic::Sbb,
        4 => Mnemonic::And,
        5 => Mnemonic::Sub,
        6 => Mnemonic::Xor,
        _ => Mnemonic::Cmp,
    }
}

/// ROL, ROR, RCL, RCR, SHL, SHR, (reserved: SHL), SAR in selector order.
pub open spec fn spec_shift_rotate_group(field: u8) -> Mnemonic {
    match field % 8 {
        0 => Mnemonic::Rol,
        1 => Mnemonic::Ror,
        2 => Mnemonic::Rcl,
        3 => Mnemonic::Rcr,
        4 => Mnemonic::Shl,
        5 => Mnemonic::Shr,
        6 => Mnemonic::Shl,
        _ => Mnemonic::Sar,
    }
}

/// TEST, TEST, NOT, NEG, MUL, IMUL, DIV, IDIV in selector order.
pub open spec fn spec_unary_group(field: u8) -> Mnemonic {
    match field % 8 {
        0 => Mnemonic::Test,
        1 => Mnemonic::Test,
        2 => Mnemonic::Not,
        3 => Mnemonic::Neg,
        4 => Mnemonic::Mul,
        5 => Mnemonic::Imul,
        6 => Mnemonic::Div,
        _ => Mnemonic::Idiv,
    }
}

/// The arithmetic/logic operation a 3-bit selector names (its low three
/// bits are used).
pub fn arithmetic_group_from_reg_field(reg_field: u8) -> (m: Mnemonic)
    ensures
        m == spec_arithmetic_group(reg_field),
{
    match reg_field % 8 {
        0 => Mnemonic::Add,
        1 => Mnemonic::Or,
        2 => Mnemonic::Adc,
        3 => Mnemonic::Sbb,
        4 => Mnemonic::And,
        5 => Mnemonic::Sub,
        6 => Mnemonic::Xor,
        _ => Mnemonic::Cmp,
    }
}

/// The shift/rotate operation a ModRM `reg` field names. Field 6 is
/// reserved on real hardware and is mapped to SHL rather than rejected.
pub fn shift_rotate_group_from_reg_field(reg_field: u8) -> (m: Mnemonic)
    ensures
        m == spec_shift_rotate_group(reg_field),
{
    match reg_field % 8 {
        0 => Mnemonic::Rol,
        1 => Mnemonic::Ror,
        2 => Mnemonic::Rcl,
        3 => Mnemonic::Rcr,
        4 => Mnemonic::Shl,
        5 => Mnemonic::Shr,
        6 => Mnemonic::Shl,
        _ => Mnemonic::Sar,
    }
}

/// The F6/F7 operation a ModRM `reg` field names; fields 0 and 1 are
/// both TEST.
pub fn unary_group_from_reg_field(reg_field: u8) -> (m: Mnemonic)
    ensures
        m == spec_unary_group(reg_field),
{
    match reg_field % 8 {
        0 => Mnemonic::Test,
        1 => Mnemonic::Test,
        2 => Mnemonic::Not,
        3 => Mnemonic::Neg,
        4 => Mnemonic::Mul,
        5 => Mnemonic::Imul,
        6 => Mnemonic::Div,
        _ => Mnemonic::Idiv,
    }
}

/// The eight arithmetic/logic operations in selector order (the
/// `00..3D` opcodes' bits 3..5, or the immediate group's `reg` field).
pub fn arithmetic_group_table() -> (t: [Mnemonic; 8])
    ensures
        forall|i: int| 0 <= i < 8 ==> t@[i] == spec_arithmetic_group(i as u8),
{
    [
        Mnemonic::Add,
        Mnemonic::Or,
        Mnemonic::Adc,
        Mnemonic::Sbb,
        Mnemonic::And,
        Mnemonic::Sub,
        Mnemonic::Xor,
        Mnemonic::Cmp,
    ]
}

} // verus!
