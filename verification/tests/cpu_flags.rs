#![allow(unused_imports)]
use x8086::isa::{Condition, Flag, Instruction, Mnemonic, Operand, Reg16, Reg8, Repeat, Width};
use x8086::cpu::Registers;
use x8086::cpu::execute::{execute, ExecutionEffect};
use x8086::cpu::flags::{add_with_flags, set_flags_after_logic, sub_with_flags};
use x8086::cpu::operand::{effective_offset, read_operand, write_operand};
use x8086::memory::Memory;

#[test]
fn add_sets_zero_flag_on_exact_wraparound() {
    let mut regs = Registers::new();
    let result = add_with_flags(&mut regs, 0xFFFF, 1, false, Width::Word);
    assert_eq!(result, 0);
    assert!(regs.get_flag(Flag::Zero));
    assert!(regs.get_flag(Flag::Carry));
}

#[test]
fn add_byte_width_carries_out_of_bit_7_not_bit_15() {
    let mut regs = Registers::new();
    let result = add_with_flags(&mut regs, 0xFF, 0x01, false, Width::Byte);
    assert_eq!(result, 0x00);
    assert!(regs.get_flag(Flag::Carry));
    assert!(regs.get_flag(Flag::Zero));
}

#[test]
fn add_detects_signed_overflow_positive_plus_positive() {
    // 0x7FFF + 1 = 0x8000: two positives producing a negative result.
    let mut regs = Registers::new();
    add_with_flags(&mut regs, 0x7FFF, 1, false, Width::Word);
    assert!(regs.get_flag(Flag::Overflow));
    assert!(regs.get_flag(Flag::Sign));
}

#[test]
fn add_does_not_flag_overflow_when_signs_differ() {
    // A large positive plus a negative can never signed-overflow.
    let mut regs = Registers::new();
    add_with_flags(&mut regs, 0x7FFF, 0xFFFF, false, Width::Word); // 0x7FFF + (-1)
    assert!(!regs.get_flag(Flag::Overflow));
}

#[test]
fn add_sets_aux_carry_on_nibble_boundary() {
    let mut regs = Registers::new();
    add_with_flags(&mut regs, 0x0F, 0x01, false, Width::Byte);
    assert!(regs.get_flag(Flag::AuxCarry));
}

#[test]
fn adc_includes_incoming_carry() {
    let mut regs = Registers::new();
    let result = add_with_flags(&mut regs, 1, 1, true, Width::Word);
    assert_eq!(result, 3);
}

#[test]
fn sub_sets_carry_as_borrow_when_subtrahend_is_larger() {
    let mut regs = Registers::new();
    let result = sub_with_flags(&mut regs, 0, 1, false, Width::Word);
    assert_eq!(result, 0xFFFF);
    assert!(regs.get_flag(Flag::Carry));
    assert!(regs.get_flag(Flag::Sign));
}

#[test]
fn sub_equal_operands_sets_zero_and_clears_carry() {
    let mut regs = Registers::new();
    let result = sub_with_flags(&mut regs, 5, 5, false, Width::Word);
    assert_eq!(result, 0);
    assert!(regs.get_flag(Flag::Zero));
    assert!(!regs.get_flag(Flag::Carry));
}

#[test]
fn sub_detects_signed_overflow_negative_minus_positive() {
    // 0x8000 (i16::MIN) - 1 overflows into positive territory.
    let mut regs = Registers::new();
    sub_with_flags(&mut regs, 0x8000, 1, false, Width::Word);
    assert!(regs.get_flag(Flag::Overflow));
}

#[test]
fn sbb_includes_incoming_borrow() {
    let mut regs = Registers::new();
    let result = sub_with_flags(&mut regs, 5, 2, true, Width::Word);
    assert_eq!(result, 2); // 5 - 2 - 1
}

#[test]
fn logic_ops_clear_carry_and_overflow_regardless_of_prior_state() {
    let mut regs = Registers::new();
    regs.set_flag(Flag::Carry, true);
    regs.set_flag(Flag::Overflow, true);
    set_flags_after_logic(&mut regs, 0x00FF, Width::Byte);
    assert!(!regs.get_flag(Flag::Carry));
    assert!(!regs.get_flag(Flag::Overflow));
    assert!(!regs.get_flag(Flag::Zero));
}

#[test]
fn logic_ops_set_parity_from_low_byte() {
    let mut regs = Registers::new();
    set_flags_after_logic(&mut regs, 0b0000_0011, Width::Byte); // two set bits: even parity
    assert!(regs.get_flag(Flag::Parity));
    set_flags_after_logic(&mut regs, 0b0000_0111, Width::Byte); // three set bits: odd parity
    assert!(!regs.get_flag(Flag::Parity));
}
