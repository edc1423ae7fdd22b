//! The 8086 register file and the bit layout of FLAGS.
use crate::isa::{Flag, Reg16, Reg8};
use vstd::prelude::*;

verus! {

#[derive(Debug, Clone, Copy, PartialEq, Eq, Structural)]
pub struct Registers {
    pub ax: u16,
    pub bx: u16,
    pub cx: u16,
    pub dx: u16,
    pub sp: u16,
    pub bp: u16,
    pub si: u16,
    pub di: u16,
    pub cs: u16,
    pub ds: u16,
    pub es: u16,
    pub ss: u16,
    pub ip: u16,
    pub flags: u16,
}

/// Bit position of each flag within FLAGS.
pub open spec fn spec_flag_bit(flag: Flag) -> u16 {
    match flag {
        Flag::Carry => 0,
        Flag::Parity => 2,
        Flag::AuxCarry => 4,
        Flag::Zero => 6,
        Flag::Sign => 7,
        Flag::Trap => 8,
        Flag::Interrupt => 9,
        Flag::Direction => 10,
        Flag::Overflow => 11,
    }
}

/// Whether bit `bit` of `word` is set.
pub open spec fn bit_set(word: u16, bit: u16) -> bool {
    (word >> bit) & 1u16 == 1u16
}

/// `word` with bit `bit` forced to `value`.
pub open spec fn with_bit(word: u16, bit: u16, value: bool) -> u16 {
    if value {
        word | (1u16 << bit)
    } else {
        word & !(1u16 << bit)
    }
}

/// Upper byte of a word.
pub open spec fn high_byte(word: u16) -> u8 {
    (word / 256) as u8
}

/// Lower byte of a word.
pub open spec fn low_byte(word: u16) -> u8 {
    (word % 256) as u8
}

/// A word with its upper byte replaced.
pub open spec fn with_high_byte(word: u16, value: u8) -> u16 {
    (word % 256 + 256 * value) as u16
}

/// A word with its lower byte replaced.
pub open spec fn with_low_byte(word: u16, value: u8) -> u16 {
    ((word / 256) * 256 + value) as u16
}

impl Registers {
    pub open spec fn spec_get16(self, reg: Reg16) -> u16 {
        match reg {
            Reg16::Ax => self.ax,
            Reg16::Bx => self.bx,
            Reg16::Cx => self.cx,
            Reg16::Dx => self.dx,
            Reg16::Sp => self.sp,
            Reg16::Bp => self.bp,
            Reg16::Si => self.si,
            Reg16::Di => self.di,
            Reg16::Cs => self.cs,
            Reg16::Ds => self.ds,
            Reg16::Es => self.es,
            Reg16::Ss => self.ss,
            Reg16::Ip => self.ip,
        }
    }

    pub open spec fn spec_set16(self, reg: Reg16, value: u16) -> Registers {
        match reg {
            Reg16::Ax => Registers { ax: value, ..self },
            Reg16::Bx => Registers { bx: value, ..self },
            Reg16::Cx => Registers { cx: value, ..self },
            Reg16::Dx => Registers { dx: value, ..self },
            Reg16::Sp => Registers { sp: value, ..self },
            Reg16::Bp => Registers { bp: value, ..self },
            Reg16::Si => Registers { si: value, ..self },
            Reg16::Di => Registers { di: value, ..self },
            Reg16::Cs => Registers { cs: value, ..self },
            Reg16::Ds => Registers { ds: value, ..self },
            Reg16::Es => Registers { es: value, ..self },
            Reg16::Ss => Registers { ss: value, ..self },
            Reg16::Ip => Registers { ip: value, ..self },
        }
    }

    pub open spec fn spec_get8(self, reg: Reg8) -> u8 {
        match reg {
            Reg8::Al => low_byte(self.ax),
            Reg8::Ah => high_byte(self.ax),
            Reg8::Bl => low_byte(self.bx),
            Reg8::Bh => high_byte(self.bx),
            Reg8::Cl => low_byte(self.cx),
            Reg8::Ch => high_byte(self.cx),
            Reg8::Dl => low_byte(self.dx),
            Reg8::Dh => high_byte(self.dx),
        }
    }

    pub open spec fn spec_set8(self, reg: Reg8, value: u8) -> Registers {
        match reg {
            Reg8::Al => Registers { ax: with_low_byte(self.ax, value), ..self },
            Reg8::Ah => Registers { ax: with_high_byte(self.ax, value), ..self },
            Reg8::Bl => Registers { bx: with_low_byte(self.bx, value), ..self },
            Reg8::Bh => Registers { bx: with_high_byte(self.bx, value), ..self },
            Reg8::Cl => Registers { cx: with_low_byte(self.cx, value), ..self },
            Reg8::Ch => Registers { cx: with_high_byte(self.cx, value), ..self },
            Reg8::Dl => Registers { dx: with_low_byte(self.dx, value), ..self },
            Reg8::Dh => Registers { dx: with_high_byte(self.dx, value), ..self },
        }
    }

    pub open spec fn spec_get_flag(self, flag: Flag) -> bool {
        bit_set(self.flags, spec_flag_bit(flag))
    }

    pub open spec fn spec_with_flag(self, flag: Flag, value: bool) -> Registers {
        Registers { flags: with_bit(self.flags, spec_flag_bit(flag), value), ..self }
    }

    /// All registers and FLAGS zero.
    pub open spec fn zeroed() -> Registers {
        Registers {
            ax: 0,
            bx: 0,
            cx: 0,
            dx: 0,
            sp: 0,
            bp: 0,
            si: 0,
            di: 0,
            cs: 0,
            ds: 0,
            es: 0,
            ss: 0,
            ip: 0,
            flags: 0,
        }
    }

    pub fn new() -> (r: Registers)
        ensures
            r == Registers::zeroed(),
    {
        Registers {
            ax: 0,
            bx: 0,
            cx: 0,
            dx: 0,
            sp: 0,
            bp: 0,
            si: 0,
            di: 0,
            cs: 0,
            ds: 0,
            es: 0,
            ss: 0,
            ip: 0,
            flags: 0,
        }
    }

    pub fn get16(&self, reg: Reg16) -> (v: u16)
        ensures
            v == self.spec_get16(reg),
    {
        match reg {
            Reg16::Ax => self.ax,
            Reg16::Bx => self.bx,
            Reg16::Cx => self.cx,
            Reg16::Dx => self.dx,
            Reg16::Sp => self.sp,
            Reg16::Bp => self.bp,
            Reg16::Si => self.si,
            Reg16::Di => self.di,
            Reg16::Cs => self.cs,
            Reg16::Ds => self.ds,
            Reg16::Es => self.es,
            Reg16::Ss => self.ss,
            Reg16::Ip => self.ip,
        }
    }

    pub fn set16(&mut self, reg: Reg16, value: u16)
        ensures
            *final(self) == old(self).spec_set16(reg, value),
    {
        match reg {
            Reg16::Ax => self.ax = value,
            Reg16::Bx => self.bx = value,
            Reg16::Cx => self.cx = value,
            Reg16::Dx => self.dx = value,
            Reg16::Sp => self.sp = value,
            Reg16::Bp => self.bp = value,
            Reg16::Si => self.si = value,
            Reg16::Di => self.di = value,
            Reg16::Cs => self.cs = value,
            Reg16::Ds => self.ds = value,
            Reg16::Es => self.es = value,
            Reg16::Ss => self.ss = value,
            Reg16::Ip => self.ip = value,
        }
    }

    pub fn get8(&self, reg: Reg8) -> (v: u8)
        ensures
            v == self.spec_get8(reg),
    {
        match reg {
            Reg8::Al => (self.ax % 256) as u8,
            Reg8::Ah => (self.ax / 256) as u8,
            Reg8::Bl => (self.bx % 256) as u8,
            Reg8::Bh => (self.bx / 256) as u8,
            Reg8::Cl => (self.cx % 256) as u8,
            Reg8::Ch => (self.cx / 256) as u8,
            Reg8::Dl => (self.dx % 256) as u8,
            Reg8::Dh => (self.dx / 256) as u8,
        }
    }

    /// Writes one half of AX/BX/CX/DX, leaving the other half alone.
    pub fn set8(&mut self, reg: Reg8, value: u8)
        ensures
            *final(self) == old(self).spec_set8(reg, value),
    {
        match reg {
            Reg8::Al => self.ax = merge_low(self.ax, value),
            Reg8::Ah => self.ax = merge_high(self.ax, value),
            Reg8::Bl => self.bx = merge_low(self.bx, value),
            Reg8::Bh => self.bx = merge_high(self.bx, value),
            Reg8::Cl => self.cx = merge_low(self.cx, value),
            Reg8::Ch => self.cx = merge_high(self.cx, value),
            Reg8::Dl => self.dx = merge_low(self.dx, value),
            Reg8::Dh => self.dx = merge_high(self.dx, value),
        }
    }

    pub fn get_flag(&self, flag: Flag) -> (v: bool)
        ensures
            v == self.spec_get_flag(flag),
    {
        (self.flags >> flag_bit(flag)) & 1 == 1
    }

    pub fn set_flag(&mut self, flag: Flag, value: bool)
        ensures
            *final(self) == old(self).spec_with_flag(flag, value),
    {
        let bit = flag_bit(flag);
        if value {
            self.flags = self.flags | (1u16 << bit);
        } else {
            self.flags = self.flags & !(1u16 << bit);
        }
    }
}

fn merge_low(word: u16, value: u8) -> (r: u16)
    ensures
        r == with_low_byte(word, value),
{
    (word / 256) * 256 + value as u16
}

fn merge_high(word: u16, value: u8) -> (r: u16)
    ensures
        r == with_high_byte(word, value),
{
    word % 256 + 256 * (value as u16)
}

/// Bit position of each FLAGS bit.
fn flag_bit(flag: Flag) -> (r: u16)
    ensures
        r == spec_flag_bit(flag),
        r < 16,
{
    match flag {
        Flag::Carry => 0,
        Flag::Parity => 2,
        Flag::AuxCarry => 4,
        Flag::Zero => 6,
        Flag::Sign => 7,
        Flag::Trap => 8,
        Flag::Interrupt => 9,
        Flag::Direction => 10,
        Flag::Overflow => 11,
    }
}

/// Setting a flag and reading it back gives the value written, and
/// leaves every other flag as it was.
pub proof fn lemma_flag_set_get(regs: Registers, flag: Flag, value: bool, other: Flag)
    ensures
        regs.spec_with_flag(flag, value).spec_get_flag(flag) == value,
        other != flag ==> regs.spec_with_flag(flag, value).spec_get_flag(other)
            == regs.spec_get_flag(other),
{
    let w = regs.flags;
    let b = spec_flag_bit(flag);
    let c = spec_flag_bit(other);
    assert(b < 16 && c < 16);
    assert(bit_set(with_bit(w, b, value), b) == value) by (bit_vector)
        requires
            b < 16,
    ;
    if other != flag {
        assert(b != c);
        assert(bit_set(with_bit(w, b, value), c) == bit_set(w, c)) by (bit_vector)
            requires
                b < 16,
                c < 16,
                b != c,
        ;
    }
}

/// Writing a 16-bit register and reading it back gives the value
/// written; other registers are unchanged.
pub proof fn lemma_reg16_set_get(regs: Registers, reg: Reg16, value: u16, other: Reg16)
    ensures
        regs.spec_set16(reg, value).spec_get16(reg) == value,
        other != reg ==> regs.spec_set16(reg, value).spec_get16(other) == regs.spec_get16(other),
{
}

/// Writing an 8-bit half and reading it back gives the value written;
/// the other half of the same word is unchanged.
pub proof fn lemma_reg8_set_get(regs: Registers, reg: Reg8, value: u8, other: Reg8)
    ensures
        regs.spec_set8(reg, value).spec_get8(reg) == value,
        other != reg ==> regs.spec_set8(reg, value).spec_get8(other) == regs.spec_get8(other),
{
    lemma_byte_halves(regs.ax, value);
    lemma_byte_halves(regs.bx, value);
    lemma_byte_halves(regs.cx, value);
    lemma_byte_halves(regs.dx, value);
}

/// Replacing one byte of a word leaves the other byte alone.
pub proof fn lemma_byte_halves(word: u16, value: u8)
    ensures
        low_byte(with_low_byte(word, value)) == value,
        high_byte(with_low_byte(word, value)) == high_byte(word),
        high_byte(with_high_byte(word, value)) == value,
        low_byte(with_high_byte(word, value)) == low_byte(word),
{
    assert(((word / 256) * 256 + value) as u16 % 256 == value as u16 && ((word / 256) * 256 + value) as u16 / 256 == word / 256) by (nonlinear_arith)
        requires word < 65536, value < 256;
    assert((word % 256 + 256 * value) as u16 % 256 == word % 256 && (word % 256 + 256 * value) as u16 / 256 == value as u16) by (nonlinear_arith)
        requires word < 65536, value < 256;
}

} // verus!
