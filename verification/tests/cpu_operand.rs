#![allow(unused_imports)]
use x8086::isa::{Condition, Flag, Instruction, Mnemonic, Operand, Reg16, Reg8, Repeat, Width};
use x8086::cpu::Registers;
use x8086::cpu::execute::{execute, ExecutionEffect};
use x8086::cpu::flags::{add_with_flags, set_flags_after_logic, sub_with_flags};
use x8086::cpu::operand::{effective_offset, read_operand, write_operand};
use x8086::memory::Memory;

#[test]
fn effective_offset_combines_base_index_and_displacement() {
    let mut regs = Registers::new();
    regs.bx = 0x0100;
    regs.si = 0x0010;
    assert_eq!(
        effective_offset(Some(Reg16::Bx), Some(Reg16::Si), 4, &regs),
        0x0114
    );
}

#[test]
fn effective_offset_with_no_base_or_index_is_just_the_displacement() {
    let regs = Registers::new();
    assert_eq!(effective_offset(None, None, 0x1234, &regs), 0x1234);
}

#[test]
fn bp_based_addressing_defaults_to_stack_segment() {
    let mut regs = Registers::new();
    regs.bp = 0x0010;
    regs.ss = 0x2000;
    regs.ds = 0x1000;
    let mut memory = Memory::new();
    memory.write_u8(Memory::resolve(0x2000, 0x0010), 0xAB);
    let operand = Operand::mem(Some(Reg16::Bp), None, 0);
    assert_eq!(read_operand(&operand, Width::Byte, &regs, &memory), 0xAB);
}

#[test]
fn non_bp_addressing_defaults_to_data_segment() {
    let mut regs = Registers::new();
    regs.bx = 0x0010;
    regs.ss = 0x2000;
    regs.ds = 0x1000;
    let mut memory = Memory::new();
    memory.write_u8(Memory::resolve(0x1000, 0x0010), 0xCD);
    let operand = Operand::mem(Some(Reg16::Bx), None, 0);
    assert_eq!(read_operand(&operand, Width::Byte, &regs, &memory), 0xCD);
}

#[test]
fn segment_override_wins_over_the_default() {
    let mut regs = Registers::new();
    regs.bx = 0x0010;
    regs.ds = 0x1000;
    regs.es = 0x3000;
    let mut memory = Memory::new();
    memory.write_u8(Memory::resolve(0x3000, 0x0010), 0xEF);
    let operand = Operand::mem(Some(Reg16::Bx), None, 0).with_segment_override(Reg16::Es);
    assert_eq!(read_operand(&operand, Width::Byte, &regs, &memory), 0xEF);
}

#[test]
fn write_then_read_round_trips_through_memory() {
    let mut regs = Registers::new();
    regs.bx = 0x0050;
    regs.ds = 0x0000;
    let mut memory = Memory::new();
    let operand = Operand::mem(Some(Reg16::Bx), None, 2);
    write_operand(&operand, Width::Word, 0xBEEF, &mut regs, &mut memory);
    assert_eq!(read_operand(&operand, Width::Word, &regs, &memory), 0xBEEF);
}

#[test]
fn byte_width_only_touches_the_low_byte_of_memory() {
    let mut regs = Registers::new();
    let mut memory = Memory::new();
    let operand = Operand::mem_direct(0x0010);
    memory.write_u16(0x0010, 0xFFFF);
    write_operand(&operand, Width::Byte, 0x00AB, &mut regs, &mut memory);
    assert_eq!(memory.read_u8(0x0010), 0xAB);
    assert_eq!(memory.read_u8(0x0011), 0xFF); // untouched
}
