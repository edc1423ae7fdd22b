//! ModRM byte decoding, the addressing-mode machinery shared by almost
//! every multi-byte instruction.
//!
//! Layout: `mod(2) reg(3) rm(3)`. `reg` is a register operand or an
//! opcode-extension selector (the caller decides which); `mod`+`rm`
//! select a register (`mod == 3`) or one of eight base+index forms with a
//! 0-, 8- or 16-bit displacement.
use super::{read_i16, read_i8, spec_read_i16, spec_read_i8, DecodeError};
use crate::isa::{spec_reg16_from_index, spec_reg8_from_index, Operand, Reg16, Reg8, Width};
use vstd::prelude::*;

verus! {

#[derive(Debug, Clone, Copy, PartialEq, Eq)]
pub struct ModRmResult {
    /// The raw 3-bit `reg` field.
    pub reg_field: u8,
    pub rm_operand: Operand,
    /// Bytes taken by the ModRM byte plus any displacement.
    pub consumed: usize,
}

/// The register a `rm`/`reg` field names at a given width.
pub open spec fn spec_reg_operand(field: u8, width: Width) -> Operand {
    match width {
        Width::Byte => Operand::Reg8(spec_reg8_from_index(field)),
        Width::Word => Operand::Reg16(spec_reg16_from_index(field)),
    }
}

/// The base and index registers of the eight memory forms.
pub open spec fn spec_rm_registers(rm: u8) -> (Option<Reg16>, Option<Reg16>) {
    match rm {
        0 => (Some(Reg16::Bx), Some(Reg16::Si)),
        1 => (Some(Reg16::Bx), Some(Reg16::Di)),
        2 => (Some(Reg16::Bp), Some(Reg16::Si)),
        3 => (Some(Reg16::Bp), Some(Reg16::Di)),
        4 => (Some(Reg16::Si), None),
        5 => (Some(Reg16::Di), None),
        6 => (Some(Reg16::Bp), None),
        _ => (Some(Reg16::Bx), None),
    }
}

/// The ModRM byte at `at` (and its displacement): `(reg field, r/m
/// operand, bytes consumed)`.
pub open spec fn spec_modrm_at(s: Seq<u8>, at: int, width: Width) -> Result<(u8, Operand, nat), DecodeError> {
    if at < 0 || at >= s.len() {
        Err(DecodeError::UnexpectedEndOfInput)
    } else {
        let b = s[at];
        let md = b / 64;
        let reg = (b / 8) % 8;
        let rm = b % 8;
        if md == 3 {
            Ok((reg, spec_reg_operand(rm, width), 1))
        } else if md == 0 && rm == 6 {
            match spec_read_i16(s, at + 1) {
                Ok(d) => Ok(
                    (
                        reg,
                        Operand::Memory {
                            segment_override: None,
                            base: None,
                            index: None,
                            displacement: d as i32,
                        },
                        3,
                    ),
                ),
                Err(e) => Err(e),
            }
        } else {
            let (base, index) = spec_rm_registers(rm);
            let disp: Result<(i32, nat), DecodeError> = if md == 0 {
                Ok((0i32, 0nat))
            } else if md == 1 {
                match spec_read_i8(s, at + 1) {
                    Ok(d) => Ok((d as i32, 1nat)),
                    Err(e) => Err(e),
                }
            } else {
                match spec_read_i16(s, at + 1) {
                    Ok(d) => Ok((d as i32, 2nat)),
                    Err(e) => Err(e),
                }
            };
            match disp {
                Ok((d, n)) => Ok(
                    (
                        reg,
                        Operand::Memory { segment_override: None, base, index, displacement: d },
                        1 + n,
                    ),
                ),
                Err(e) => Err(e),
            }
        }
    }
}

pub open spec fn modrm_view(r: Result<ModRmResult, DecodeError>) -> Result<(u8, Operand, nat), DecodeError> {
    match r {
        Ok(m) => Ok((m.reg_field, m.rm_operand, m.consumed as nat)),
        Err(e) => Err(e),
    }
}

fn rm_registers(rm: u8) -> (r: (Option<Reg16>, Option<Reg16>))
    ensures
        r == spec_rm_registers(rm),
{
    match rm {
        0 => (Some(Reg16::Bx), Some(Reg16::Si)),
        1 => (Some(Reg16::Bx), Some(Reg16::Di)),
        2 => (Some(Reg16::Bp), Some(Reg16::Si)),
        3 => (Some(Reg16::Bp), Some(Reg16::Di)),
        4 => (Some(Reg16::Si), None),
        5 => (Some(Reg16::Di), None),
        6 => (Some(Reg16::Bp), None),
        _ => (Some(Reg16::Bx), None),
    }
}

pub fn reg_operand(field: u8, width: Width) -> (r: Operand)
    ensures
        r == spec_reg_operand(field, width),
{
    match width {
        Width::Byte => Operand::Reg8(Reg8::from_index(field)),
        Width::Word => Operand::Reg16(Reg16::from_index(field)),
    }
}

/// Decodes the ModRM byte at index `at` of `bytes`.
pub fn decode_modrm_at(bytes: &[u8], at: usize, width: Width) -> (r: Result<ModRmResult, DecodeError>)
    ensures
        modrm_view(r) == spec_modrm_at(bytes@, at as int, width),
        r matches Ok(m) ==> 1 <= m.consumed <= 3 && at + m.consumed <= bytes@.len() && m.reg_field < 8,
{
    if at >= bytes.len() {
        return Err(DecodeError::UnexpectedEndOfInput);
    }
    let b = bytes[at];
    let md = b / 64;
    let reg_field = (b / 8) % 8;
    let rm = b % 8;
    if md == 3 {
        return Ok(ModRmResult { reg_field, rm_operand: reg_operand(rm, width), consumed: 1 });
    }
    // mod 00 with rm 110 is the irregular direct-address form.
    if md == 0 && rm == 6 {
        let disp = read_i16(bytes, at + 1)?;
        return Ok(
            ModRmResult { reg_field, rm_operand: Operand::mem_direct(disp as i32), consumed: 3 },
        );
    }
    let (base, index) = rm_registers(rm);
    let (displacement, disp_len): (i32, usize) = if md == 0 {
        (0, 0)
    } else if md == 1 {
        (read_i8(bytes, at + 1)? as i32, 1)
    } else {
        (read_i16(bytes, at + 1)? as i32, 2)
    };
    Ok(
        ModRmResult {
            reg_field,
            rm_operand: Operand::mem(base, index, displacement),
            consumed: 1 + disp_len,
        },
    )
}

/// Decodes the ModRM byte at the front of `bytes`.
pub fn decode_modrm(bytes: &[u8], width: Width) -> (r: Result<ModRmResult, DecodeError>)
    ensures
        modrm_view(r) == spec_modrm_at(bytes@, 0, width),
{
    decode_modrm_at(bytes, 0, width)
}

} // verus!
