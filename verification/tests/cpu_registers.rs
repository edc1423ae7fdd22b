#![allow(unused_imports)]
use x8086::isa::{Condition, Flag, Instruction, Mnemonic, Operand, Reg16, Reg8, Repeat, Width};
use x8086::cpu::Registers;
use x8086::cpu::execute::{execute, ExecutionEffect};
use x8086::cpu::flags::{add_with_flags, set_flags_after_logic, sub_with_flags};
use x8086::cpu::operand::{effective_offset, read_operand, write_operand};
use x8086::memory::Memory;

#[test]
fn registers_default_to_zero() {
    let regs = Registers::new();
    assert_eq!(regs.ax, 0);
    assert_eq!(regs.flags, 0);
}

#[test]
fn get16_set16_round_trip_for_every_register() {
    let all = [
        Reg16::Ax,
        Reg16::Bx,
        Reg16::Cx,
        Reg16::Dx,
        Reg16::Sp,
        Reg16::Bp,
        Reg16::Si,
        Reg16::Di,
        Reg16::Cs,
        Reg16::Ds,
        Reg16::Es,
        Reg16::Ss,
        Reg16::Ip,
    ];
    for reg in all {
        let mut regs = Registers::new();
        regs.set16(reg, 0xBEEF);
        assert_eq!(regs.get16(reg), 0xBEEF);
    }
}

#[test]
fn set8_only_touches_its_own_half_of_the_word() {
    let mut regs = Registers::new();
    regs.ax = 0x1234;
    regs.set8(Reg8::Al, 0xFF);
    assert_eq!(regs.ax, 0x12FF);
    regs.set8(Reg8::Ah, 0xAB);
    assert_eq!(regs.ax, 0xABFF);
}

#[test]
fn get8_reads_the_correct_half_of_the_word() {
    let mut regs = Registers::new();
    regs.dx = 0xCAFE;
    assert_eq!(regs.get8(Reg8::Dh), 0xCA);
    assert_eq!(regs.get8(Reg8::Dl), 0xFE);
}

#[test]
fn flag_get_set_round_trip_and_do_not_disturb_other_bits() {
    let all = [
        Flag::Carry,
        Flag::Parity,
        Flag::AuxCarry,
        Flag::Zero,
        Flag::Sign,
        Flag::Trap,
        Flag::Interrupt,
        Flag::Direction,
        Flag::Overflow,
    ];
    let mut regs = Registers::new();
    for flag in all {
        regs.set_flag(flag, true);
        assert!(regs.get_flag(flag), "{flag:?} should be set");
    }
    for flag in all {
        assert!(regs.get_flag(flag), "{flag:?} should still be set");
        regs.set_flag(flag, false);
        assert!(!regs.get_flag(flag), "{flag:?} should be cleared");
    }
    assert_eq!(regs.flags, 0);
}
