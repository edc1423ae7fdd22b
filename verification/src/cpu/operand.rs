//! Resolving operands against the live register file and memory: turns
//! "this operand is `[BX+SI+4]`" into a physical address and a value.
use super::registers::Registers;
use crate::isa::{Operand, Reg16, Width};
use crate::memory::{le16, phys, spec_resolve, undo_preserved, Memory, MEMORY_SIZE};
use vstd::prelude::*;

verus! {

/// `[BP+...]` defaults to the stack segment, everything else to the data
/// segment.
pub open spec fn spec_default_segment(base: Option<Reg16>) -> Reg16 {
    if base == Some(Reg16::Bp) {
        Reg16::Ss
    } else {
        Reg16::Ds
    }
}

pub open spec fn opt_reg_value(reg: Option<Reg16>, regs: Registers) -> int {
    match reg {
        Some(r) => regs.spec_get16(r) as int,
        None => 0,
    }
}

/// base + index + displacement, modulo 2^16.
pub open spec fn spec_effective_offset(
    base: Option<Reg16>,
    index: Option<Reg16>,
    displacement: i32,
    regs: Registers,
) -> u16 {
    ((opt_reg_value(base, regs) + opt_reg_value(index, regs) + (displacement as u16) as int)
        % 65536) as u16
}

/// The physical address a memory operand's components select.
pub open spec fn spec_memory_address(
    segment_override: Option<Reg16>,
    base: Option<Reg16>,
    index: Option<Reg16>,
    displacement: i32,
    regs: Registers,
) -> u32 {
    let seg = match segment_override {
        Some(s) => s,
        None => spec_default_segment(base),
    };
    spec_resolve(regs.spec_get16(seg), spec_effective_offset(base, index, displacement, regs))
}

/// The byte or word stored at a physical address.
pub open spec fn spec_read_memory(mem: Seq<u8>, address: u32, width: Width) -> u16 {
    match width {
        Width::Byte => mem[phys(address as int)] as u16,
        Width::Word => le16(mem[phys(address as int)], mem[phys(address as int + 1)]),
    }
}

/// Memory after storing the byte or word `value` at a physical address.
pub open spec fn spec_write_memory(mem: Seq<u8>, address: u32, width: Width, value: u16) -> Seq<u8> {
    match width {
        Width::Byte => mem.update(phys(address as int), (value % 256) as u8),
        Width::Word => mem.update(phys(address as int), (value % 256) as u8).update(
            phys(address as int + 1),
            (value / 256) as u8,
        ),
    }
}

/// Reading back what was just written gives the value (its low byte at
/// byte width), in any 1MB memory.
pub proof fn lemma_write_then_read(mem: Seq<u8>, address: u32, width: Width, value: u16)
    requires
        mem.len() == MEMORY_SIZE,
    ensures
        spec_write_memory(mem, address, width, value).len() == MEMORY_SIZE,
        spec_read_memory(spec_write_memory(mem, address, width, value), address, width) == match width {
            Width::Byte => value % 256,
            Width::Word => value,
        },
{
    let p = phys(address as int);
    let q = phys(address as int + 1);
    assert(0 <= p < MEMORY_SIZE);
    assert(0 <= q < MEMORY_SIZE);
    assert(p != q) by {
        assert(q == (p + 1) % (MEMORY_SIZE as int));
    }
    if width == Width::Word {
        let m2 = spec_write_memory(mem, address, width, value);
        assert(m2[p] == (value % 256) as u8);
        assert(m2[q] == (value / 256) as u8);
        assert((((value % 256) as u8) + 256 * ((value / 256) as u8)) as u16 == value);
    }
}

/// The value an operand denotes (an immediate keeps its low 16 bits).
pub open spec fn spec_read_operand(operand: Operand, width: Width, regs: Registers, mem: Seq<u8>) -> u16 {
    match operand {
        Operand::Reg8(r) => regs.spec_get8(r) as u16,
        Operand::Reg16(r) => regs.spec_get16(r),
        Operand::Immediate(v) => v as u16,
        Operand::Memory { segment_override, base, index, displacement } => spec_read_memory(
            mem,
            spec_memory_address(segment_override, base, index, displacement, regs),
            width,
        ),
    }
}

/// Registers after writing `value` to an operand.
pub open spec fn spec_write_operand_regs(operand: Operand, value: u16, regs: Registers) -> Registers {
    match operand {
        Operand::Reg8(r) => regs.spec_set8(r, (value % 256) as u8),
        Operand::Reg16(r) => regs.spec_set16(r, value),
        _ => regs,
    }
}

/// Memory after writing `value` to an operand.
pub open spec fn spec_write_operand_mem(
    operand: Operand,
    width: Width,
    value: u16,
    regs: Registers,
    mem: Seq<u8>,
) -> Seq<u8> {
    match operand {
        Operand::Memory { segment_override, base, index, displacement } => spec_write_memory(
            mem,
            spec_memory_address(segment_override, base, index, displacement, regs),
            width,
            value,
        ),
        _ => mem,
    }
}

fn default_segment(base: Option<Reg16>) -> (r: Reg16)
    ensures
        r == spec_default_segment(base),
{
    match base {
        Some(Reg16::Bp) => Reg16::Ss,
        _ => Reg16::Ds,
    }
}

fn opt_value(reg: Option<Reg16>, regs: &Registers) -> (v: u16)
    ensures
        v == opt_reg_value(reg, *regs),
{
    match reg {
        Some(r) => regs.get16(r),
        None => 0,
    }
}

/// The 16-bit offset a memory operand's components add up to, before a
/// segment is applied (what LEA loads).
pub fn effective_offset(base: Option<Reg16>, index: Option<Reg16>, displacement: i32, regs: &Registers) -> (r:
    u16)
    ensures
        r == spec_effective_offset(base, index, displacement, *regs),
{
    let b = opt_value(base, regs) as u32;
    let i = opt_value(index, regs) as u32;
    let d = (displacement as u16) as u32;
    ((b + i + d) % 65536) as u16
}

fn effective_physical_address(
    segment_override: Option<Reg16>,
    base: Option<Reg16>,
    index: Option<Reg16>,
    displacement: i32,
    regs: &Registers,
) -> (r: u32)
    ensures
        r == spec_memory_address(segment_override, base, index, displacement, *regs),
{
    let offset = effective_offset(base, index, displacement, regs);
    let segment_reg = match segment_override {
        Some(s) => s,
        None => default_segment(base),
    };
    Memory::resolve(regs.get16(segment_reg), offset)
}

pub fn read_operand(operand: &Operand, width: Width, regs: &Registers, memory: &Memory) -> (v: u16)
    ensures
        v == spec_read_operand(*operand, width, *regs, memory@),
{
    match *operand {
        Operand::Reg8(reg) => regs.get8(reg) as u16,
        Operand::Reg16(reg) => regs.get16(reg),
        Operand::Immediate(value) => value as u16,
        Operand::Memory { segment_override, base, index, displacement } => {
            let addr = effective_physical_address(
                segment_override,
                base,
                index,
                displacement,
                regs,
            );
            match width {
                Width::Byte => memory.read_u8(addr) as u16,
                Width::Word => memory.read_u16(addr),
            }
        },
    }
}

/// Stores `value` into a register or memory operand (an immediate is
/// never a destination).
pub fn write_operand(operand: &Operand, width: Width, value: u16, regs: &mut Registers, memory: &mut Memory)
    requires
        !(*operand is Immediate),
    ensures
        *final(regs) == spec_write_operand_regs(*operand, value, *old(regs)),
        final(memory)@ == spec_write_operand_mem(*operand, width, value, *old(regs), old(memory)@),
        undo_preserved(old(memory), final(memory)),
{
    match *operand {
        Operand::Reg8(reg) => regs.set8(reg, (value % 256) as u8),
        Operand::Reg16(reg) => regs.set16(reg, value),
        Operand::Immediate(_) => {},
        Operand::Memory { segment_override, base, index, displacement } => {
            let addr = effective_physical_address(
                segment_override,
                base,
                index,
                displacement,
                regs,
            );
            match width {
                Width::Byte => memory.write_u8(addr, (value % 256) as u8),
                Width::Word => memory.write_u16(addr, value),
            }
        },
    }
}

} // verus!
