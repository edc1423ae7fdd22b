#![allow(unused_imports)]
use x8086::isa::{Condition, Flag, Instruction, Mnemonic, Operand, Reg16, Reg8, Repeat, Width};
use x8086::cpu::Registers;
use x8086::cpu::execute::{execute, ExecutionEffect};
use x8086::cpu::flags::{add_with_flags, set_flags_after_logic, sub_with_flags};
use x8086::cpu::operand::{effective_offset, read_operand, write_operand};
use x8086::memory::Memory;
use x8086::debugger::{Breakpoints, History, HistoryEntry};
use x8086::debugger::watch::{evaluate, parse_register_or_raw_address, WatchSize, WatchTarget};

#[test]
fn parses_16_bit_general_and_segment_registers_case_insensitively() {
    assert_eq!(
        parse_register_or_raw_address("ax"),
        Some(WatchTarget::Reg16(Reg16::Ax))
    );
    assert_eq!(
        parse_register_or_raw_address("Cs"),
        Some(WatchTarget::Reg16(Reg16::Cs))
    );
    assert_eq!(
        parse_register_or_raw_address("ip"),
        Some(WatchTarget::Reg16(Reg16::Ip))
    );
}

#[test]
fn parses_8_bit_register_halves() {
    assert_eq!(
        parse_register_or_raw_address("bh"),
        Some(WatchTarget::Reg8(Reg8::Bh))
    );
}

#[test]
fn parses_flags_register_and_individual_flag_bits() {
    assert_eq!(
        parse_register_or_raw_address("FLAGS"),
        Some(WatchTarget::Flags)
    );
    assert_eq!(
        parse_register_or_raw_address("zf"),
        Some(WatchTarget::Flag(Flag::Zero))
    );
    assert_eq!(
        parse_register_or_raw_address("of"),
        Some(WatchTarget::Flag(Flag::Overflow))
    );
}

#[test]
fn parses_sized_raw_memory_addresses_in_hex_or_decimal() {
    assert_eq!(
        parse_register_or_raw_address("byte [0x10]"),
        Some(WatchTarget::Memory {
            address: 0x10,
            size: WatchSize::Byte
        })
    );
    assert_eq!(
        parse_register_or_raw_address("WORD[1234h]"),
        Some(WatchTarget::Memory {
            address: 0x1234,
            size: WatchSize::Word
        })
    );
    assert_eq!(
        parse_register_or_raw_address("byte [16]"),
        Some(WatchTarget::Memory {
            address: 16,
            size: WatchSize::Byte
        })
    );
}

#[test]
fn bare_bracketed_address_without_a_size_prefix_is_unsupported() {
    assert_eq!(parse_register_or_raw_address("[0x10]"), None);
}

#[test]
fn unrecognized_text_is_none_not_an_error() {
    assert_eq!(parse_register_or_raw_address("msg"), None);
    assert_eq!(parse_register_or_raw_address(""), None);
    assert_eq!(parse_register_or_raw_address("byte [zz]"), None);
}

#[test]
fn evaluate_reads_registers_flags_and_memory() {
    let mut registers = Registers::new();
    registers.ax = 0xBEEF;
    registers.set_flag(Flag::Zero, true);
    let mut memory = Memory::new();
    memory.write_u8(0x10, 0x42);
    memory.write_u16(0x20, 0xCAFE);

    assert_eq!(
        evaluate(WatchTarget::Reg16(Reg16::Ax), &registers, &memory),
        0xBEEF
    );
    assert_eq!(
        evaluate(WatchTarget::Flag(Flag::Zero), &registers, &memory),
        1
    );
    assert_eq!(
        evaluate(
            WatchTarget::Memory {
                address: 0x10,
                size: WatchSize::Byte
            },
            &registers,
            &memory
        ),
        0x42
    );
    assert_eq!(
        evaluate(
            WatchTarget::Memory {
                address: 0x20,
                size: WatchSize::Word
            },
            &registers,
            &memory
        ),
        0xCAFE
    );
}
