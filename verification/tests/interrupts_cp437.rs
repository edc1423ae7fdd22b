#![allow(unused_imports)]
use x8086::cpu::Registers;
use x8086::interrupts::cp437::to_char;
use x8086::interrupts::{handle_interrupt, InterruptOutcome, IoSink};
use x8086::memory::Memory;

#[test]
fn ascii_range_is_unchanged() {
    assert_eq!(to_char(b'A'), 'A');
    assert_eq!(to_char(b'$'), '$');
    assert_eq!(to_char(b'\n'), '\n');
    assert_eq!(to_char(0), '\0');
    assert_eq!(to_char(127), '\u{7F}');
}

#[test]
fn extended_range_uses_cp437_not_latin1() {
    // 0xC9 is '╔' (box-drawing) under CP437, but 'É' under Latin-1 -
    // exactly the kind of divergence that showed up as garbage.
    assert_eq!(to_char(0xC9), '╔');
    assert_eq!(to_char(0xB2), '▓');
    assert_eq!(to_char(0xE1), 'ß');
    assert_eq!(to_char(0x87), 'ç');
}

#[test]
fn every_extended_byte_has_its_own_non_ascii_character() {
    let mut seen: Vec<char> = Vec::new();
    for byte in 128u8..=255 {
        let c = to_char(byte);
        assert!((c as u32) >= 128, "byte {byte:#x} mapped into ASCII");
        assert!(!seen.contains(&c), "byte {byte:#x} shares its character");
        seen.push(c);
    }
    assert_eq!(seen.len(), 128);
}
