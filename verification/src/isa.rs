//! The shared 8086/80186 instruction, register and operand model.
//!
//! The decoder turns bytes into these types and the assembler turns them
//! back into bytes; keeping both on one model is what keeps them in step.
use vstd::prelude::*;

verus! {

/// A 16-bit general-purpose or segment register (plus IP).
#[derive(Debug, Clone, Copy, PartialEq, Eq, Structural, Hash)]
pub enum Reg16 {
    Ax,
    Bx,
    Cx,
    Dx,
    Sp,
    Bp,
    Si,
    Di,
    Cs,
    Ds,
    Es,
    Ss,
    Ip,
}

/// An 8-bit general-purpose register (the halves of AX/BX/CX/DX).
#[derive(Debug, Clone, Copy, PartialEq, Eq, Structural, Hash)]
pub enum Reg8 {
    Al,
    Ah,
    Bl,
    Bh,
    Cl,
    Ch,
    Dl,
    Dh,
}

/// One bit of the FLAGS register.
#[derive(Debug, Clone, Copy, PartialEq, Eq, Structural, Hash)]
pub enum Flag {
    Carry,
    Parity,
    AuxCarry,
    Zero,
    Sign,
    Trap,
    Interrupt,
    Direction,
    Overflow,
}

/// Operand size of an instruction.
#[derive(Debug, Clone, Copy, PartialEq, Eq, Structural, Hash)]
pub enum Width {
    Byte,
    Word,
}

/// The sixteen conditions of the `Jcc` family, in opcode order.
#[derive(Debug, Clone, Copy, PartialEq, Eq, Structural, Hash)]
pub enum Condition {
    Overflow,
    NotOverflow,
    Below,
    AboveOrEqual,
    Equal,
    NotEqual,
    BelowOrEqual,
    Above,
    Sign,
    NotSign,
    Parity,
    NotParity,
    Less,
    GreaterOrEqual,
    LessOrEqual,
    Greater,
}

/// A string-instruction repeat prefix.
#[derive(Debug, Clone, Copy, PartialEq, Eq, Structural, Hash)]
pub enum Repeat {
    Rep,
    Repe,
    Repne,
}

/// Instruction mnemonics.
#[derive(Debug, Clone, Copy, PartialEq, Eq, Structural, Hash)]
pub enum Mnemonic {
    Mov,
    Push,
    Pop,
    Xchg,
    Lea,
    Add,
    Adc,
    Sub,
    Sbb,
    Cmp,
    Inc,
    Dec,
    And,
    Or,
    Xor,
    Test,
    Jmp,
    Jcc(Condition),
    Loop,
    Loope,
    Loopne,
    Jcxz,
    Call,
    Ret,
    Int,
    Int3,
    Iret,
    Hlt,
    Nop,
    Clc,
    Stc,
    Cmc,
    Cld,
    Std,
    Cli,
    Sti,
    Pushf,
    Popf,
    Sahf,
    Lahf,
    Xlat,
    Shl,
    Shr,
    Sar,
    Rol,
    Ror,
    Rcl,
    Rcr,
    Mul,
    Imul,
    Div,
    Idiv,
    Neg,
    Not,
    Movsb,
    Movsw,
    Cmpsb,
    Cmpsw,
    Stosb,
    Stosw,
    Lodsb,
    Lodsw,
    Scasb,
    Scasw,
    Unknown,
}

/// An operand: a register, an immediate value, or a memory reference
/// given by its segment:offset addressing components.
#[derive(Debug, Clone, Copy, PartialEq, Eq, Structural, Hash)]
pub enum Operand {
    Reg16(Reg16),
    Reg8(Reg8),
    Immediate(i32),
    Memory {
        segment_override: Option<Reg16>,
        base: Option<Reg16>,
        index: Option<Reg16>,
        displacement: i32,
    },
}

/// A decoded (or about-to-be-encoded) instruction.
#[derive(Debug, Clone, PartialEq, Eq)]
pub struct Instruction {
    pub mnemonic: Mnemonic,
    pub operands: Vec<Operand>,
    /// Operand size, for the instructions that have one.
    pub width: Option<Width>,
    /// Encoded length in bytes (0 while still unknown).
    pub byte_len: u8,
    /// A REP/REPE/REPNE prefix on a string instruction.
    pub repeat: Option<Repeat>,
}

/// Hardware register-field order of the 16-bit general registers.
pub open spec fn spec_reg16_from_index(index: u8) -> Reg16 {
    match index % 8 {
        0 => Reg16::Ax,
        1 => Reg16::Cx,
        2 => Reg16::Dx,
        3 => Reg16::Bx,
        4 => Reg16::Sp,
        5 => Reg16::Bp,
        6 => Reg16::Si,
        _ => Reg16::Di,
    }
}

/// Hardware register-field order of the 8-bit registers.
pub open spec fn spec_reg8_from_index(index: u8) -> Reg8 {
    match index % 8 {
        0 => Reg8::Al,
        1 => Reg8::Cl,
        2 => Reg8::Dl,
        3 => Reg8::Bl,
        4 => Reg8::Ah,
        5 => Reg8::Ch,
        6 => Reg8::Dh,
        _ => Reg8::Bh,
    }
}

/// The register-field number of a general 16-bit register (none for the
/// segment registers and IP).
pub open spec fn spec_reg16_index(reg: Reg16) -> Option<u8> {
    match reg {
        Reg16::Ax => Some(0u8),
        Reg16::Cx => Some(1u8),
        Reg16::Dx => Some(2u8),
        Reg16::Bx => Some(3u8),
        Reg16::Sp => Some(4u8),
        Reg16::Bp => Some(5u8),
        Reg16::Si => Some(6u8),
        Reg16::Di => Some(7u8),
        _ => None,
    }
}

pub open spec fn spec_reg8_index(reg: Reg8) -> u8 {
    match reg {
        Reg8::Al => 0,
        Reg8::Cl => 1,
        Reg8::Dl => 2,
        Reg8::Bl => 3,
        Reg8::Ah => 4,
        Reg8::Ch => 5,
        Reg8::Dh => 6,
        Reg8::Bh => 7,
    }
}

/// The `sreg` field number of a segment register.
pub open spec fn spec_segment_index(reg: Reg16) -> Option<u8> {
    match reg {
        Reg16::Es => Some(0u8),
        Reg16::Cs => Some(1u8),
        Reg16::Ss => Some(2u8),
        Reg16::Ds => Some(3u8),
        _ => None,
    }
}

pub open spec fn spec_segment_from_index(index: u8) -> Option<Reg16> {
    match index {
        0 => Some(Reg16::Es),
        1 => Some(Reg16::Cs),
        2 => Some(Reg16::Ss),
        3 => Some(Reg16::Ds),
        _ => None,
    }
}

pub open spec fn spec_is_segment(reg: Reg16) -> bool {
    reg is Cs || reg is Ds || reg is Es || reg is Ss
}

impl Reg16 {
    pub fn is_segment(self) -> (r: bool)
        ensures
            r == spec_is_segment(self),
    {
        match self {
            Reg16::Cs | Reg16::Ds | Reg16::Es | Reg16::Ss => true,
            _ => false,
        }
    }

    /// The general register with hardware field number `index & 7`.
    pub fn from_index(index: u8) -> (r: Reg16)
        ensures
            r == spec_reg16_from_index(index),
    {
        match index % 8 {
            0 => Reg16::Ax,
            1 => Reg16::Cx,
            2 => Reg16::Dx,
            3 => Reg16::Bx,
            4 => Reg16::Sp,
            5 => Reg16::Bp,
            6 => Reg16::Si,
            _ => Reg16::Di,
        }
    }

    /// The segment register with `sreg` field number `index`, if any.
    pub fn segment_from_index(index: u8) -> (r: Option<Reg16>)
        ensures
            r == spec_segment_from_index(index),
    {
        match index {
            0 => Some(Reg16::Es),
            1 => Some(Reg16::Cs),
            2 => Some(Reg16::Ss),
            3 => Some(Reg16::Ds),
            _ => None,
        }
    }

    pub fn to_index(self) -> (r: Option<u8>)
        ensures
            r == spec_reg16_index(self),
    {
        match self {
            Reg16::Ax => Some(0),
            Reg16::Cx => Some(1),
            Reg16::Dx => Some(2),
            Reg16::Bx => Some(3),
            Reg16::Sp => Some(4),
            Reg16::Bp => Some(5),
            Reg16::Si => Some(6),
            Reg16::Di => Some(7),
            _ => None,
        }
    }

    pub fn to_segment_index(self) -> (r: Option<u8>)
        ensures
            r == spec_segment_index(self),
    {
        match self {
            Reg16::Es => Some(0),
            Reg16::Cs => Some(1),
            Reg16::Ss => Some(2),
            Reg16::Ds => Some(3),
            _ => None,
        }
    }
}

impl Reg8 {
    pub fn from_index(index: u8) -> (r: Reg8)
        ensures
            r == spec_reg8_from_index(index),
    {
        match index % 8 {
            0 => Reg8::Al,
            1 => Reg8::Cl,
            2 => Reg8::Dl,
            3 => Reg8::Bl,
            4 => Reg8::Ah,
            5 => Reg8::Ch,
            6 => Reg8::Dh,
            _ => Reg8::Bh,
        }
    }

    pub fn to_index(self) -> (r: u8)
        ensures
            r == spec_reg8_index(self),
            r < 8,
    {
        match self {
            Reg8::Al => 0,
            Reg8::Cl => 1,
            Reg8::Dl => 2,
            Reg8::Bl => 3,
            Reg8::Ah => 4,
            Reg8::Ch => 5,
            Reg8::Dh => 6,
            Reg8::Bh => 7,
        }
    }
}

/// Every register-field number names exactly the register it came from.
pub proof fn lemma_reg_index_round_trip(index: u8)
    requires
        index < 8,
    ensures
        spec_reg16_index(spec_reg16_from_index(index)) == Some(index),
        spec_reg8_index(spec_reg8_from_index(index)) == index,
{
}

impl Operand {
    /// A memory operand with no segment override.
    pub fn mem(base: Option<Reg16>, index: Option<Reg16>, displacement: i32) -> (r: Operand)
        ensures
            r == (Operand::Memory { segment_override: None, base, index, displacement }),
    {
        Operand::Memory { segment_override: None, base, index, displacement }
    }

    /// A direct-address memory operand: no base or index register.
    pub fn mem_direct(address: i32) -> (r: Operand)
        ensures
            r == (Operand::Memory {
                segment_override: None,
                base: None,
                index: None,
                displacement: address,
            }),
    {
        Operand::Memory { segment_override: None, base: None, index: None, displacement: address }
    }

    /// The same operand with a segment override; registers and
    /// immediates are returned unchanged.
    pub fn with_segment_override(self, segment: Reg16) -> (r: Operand)
        ensures
            r == (match self {
                Operand::Memory { base, index, displacement, .. } => Operand::Memory {
                    segment_override: Some(segment),
                    base,
                    index,
                    displacement,
                },
                other => other,
            }),
    {
        match self {
            Operand::Memory { base, index, displacement, .. } => Operand::Memory {
                segment_override: Some(segment),
                base,
                index,
                displacement,
            },
            other => other,
        }
    }
}

impl Instruction {
    pub fn new(mnemonic: Mnemonic, operands: Vec<Operand>, width: Option<Width>, byte_len: u8) -> (r:
        Instruction)
        ensures
            r.mnemonic == mnemonic,
            r.operands@ == operands@,
            r.width == width,
            r.byte_len == byte_len,
            r.repeat is None,
    {
        Instruction { mnemonic, operands, width, byte_len, repeat: None }
    }

    /// The same instruction carrying a repeat prefix.
    pub fn with_repeat(self, repeat: Repeat) -> (r: Instruction)
        ensures
            r.mnemonic == self.mnemonic,
            r.operands@ == self.operands@,
            r.width == self.width,
            r.byte_len == self.byte_len,
            r.repeat == Some(repeat),
    {
        Instruction { repeat: Some(repeat), ..self }
    }
}

} // verus!
