use x8086::isa::{Instruction, Mnemonic, Reg16};
use x8086::memory::Memory;

#[test]
fn resolve_computes_paragraph_shifted_address() {
    assert_eq!(Memory::resolve(0x07C0, 0x0010), 0x07C10);
    assert_eq!(Memory::resolve(0x0000, 0x0000), 0x00000);
}

#[test]
fn resolve_wraps_at_one_megabyte_boundary() {
    assert_eq!(
        Memory::resolve(0xFFFF, 0xFFFF),
        (0xFFFF0u32 + 0xFFFF) & 0xFFFFF
    );
}

#[test]
fn u8_round_trip_read_write() {
    let mut mem = Memory::new();
    mem.write_u8(0x1234, 0xAB);
    assert_eq!(mem.read_u8(0x1234), 0xAB);
    assert_eq!(mem.read_u8(0x1235), 0x00);
}

#[test]
fn u16_round_trip_is_little_endian() {
    let mut mem = Memory::new();
    mem.write_u16(0x2000, 0x1234);
    assert_eq!(mem.read_u8(0x2000), 0x34);
    assert_eq!(mem.read_u8(0x2001), 0x12);
    assert_eq!(mem.read_u16(0x2000), 0x1234);
}

#[test]
fn write_observer_is_notified_with_old_and_new_values() {
    let mut mem = Memory::new();
    mem.set_observer();

    mem.write_u8(0x0100, 0x42);
    mem.write_u8(0x0100, 0x42); // no-op write: value unchanged, no event
    mem.write_u8(0x0100, 0x43);

    assert_eq!(mem.take_writes(), vec![(0x0100, 0x00, 0x42), (0x0100, 0x42, 0x43)]);
    assert!(mem.take_writes().is_empty(), "taking the record empties it");
}

#[test]
fn writes_are_not_recorded_without_an_observer() {
    let mut mem = Memory::new();
    mem.write_u8(0x0100, 0x42);
    mem.set_observer();
    mem.clear_observer();
    mem.write_u8(0x0101, 0x43);
    assert!(mem.take_writes().is_empty());
}

#[test]
fn addresses_wrap_at_one_megabyte() {
    let mut mem = Memory::new();
    mem.write_u8(0x10_0005, 0x77);
    assert_eq!(mem.read_u8(0x5), 0x77);
    mem.write_u16(0xF_FFFF, 0xBEEF);
    assert_eq!(mem.read_u8(0xF_FFFF), 0xEF);
    assert_eq!(mem.read_u8(0x0), 0xBE, "the high byte wraps to address 0");
}

#[test]
fn segment_registers_are_classified_correctly() {
    assert!(Reg16::Cs.is_segment());
    assert!(Reg16::Ds.is_segment());
    assert!(!Reg16::Ax.is_segment());
    assert!(!Reg16::Ip.is_segment());
}

#[test]
fn instruction_can_be_constructed_with_no_operands() {
    let hlt = Instruction {
        mnemonic: Mnemonic::Hlt,
        operands: vec![],
        width: None,
        byte_len: 1,
        repeat: None,
    };
    assert_eq!(hlt.mnemonic, Mnemonic::Hlt);
    assert!(hlt.operands.is_empty());
}
