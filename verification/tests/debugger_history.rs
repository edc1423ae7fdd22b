#![allow(unused_imports)]
use x8086::isa::{Condition, Flag, Instruction, Mnemonic, Operand, Reg16, Reg8, Repeat, Width};
use x8086::cpu::Registers;
use x8086::cpu::execute::{execute, ExecutionEffect};
use x8086::cpu::flags::{add_with_flags, set_flags_after_logic, sub_with_flags};
use x8086::cpu::operand::{effective_offset, read_operand, write_operand};
use x8086::memory::Memory;
use x8086::debugger::{Breakpoints, History, HistoryEntry};
use x8086::debugger::watch::{evaluate, parse_register_or_raw_address, WatchSize, WatchTarget};

#[test]
fn toggle_sets_then_clears_a_breakpoint() {
    let mut bp = Breakpoints::new();
    assert!(!bp.is_set(0x100));
    assert!(bp.toggle(0x100));
    assert!(bp.is_set(0x100));
    assert!(!bp.toggle(0x100));
    assert!(!bp.is_set(0x100));
}

#[test]
fn clear_all_removes_every_breakpoint() {
    let mut bp = Breakpoints::new();
    bp.toggle(0x100);
    bp.toggle(0x200);
    bp.clear_all();
    assert!(!bp.is_set(0x100));
    assert!(!bp.is_set(0x200));
}

#[test]
fn history_pops_most_recent_entry_first() {
    let mut history = History::new(10);
    let mut regs_a = Registers::new();
    regs_a.ax = 1;
    let mut regs_b = Registers::new();
    regs_b.ax = 2;

    history.push(HistoryEntry {
        registers_before: regs_a,
        memory_diffs: vec![(0x10, 0x00)],
    });
    history.push(HistoryEntry {
        registers_before: regs_b,
        memory_diffs: vec![(0x20, 0x00)],
    });

    let last = history.pop().expect("should have an entry");
    assert_eq!(last.registers_before.ax, 2);
    let first = history.pop().expect("should have an entry");
    assert_eq!(first.registers_before.ax, 1);
    assert!(history.pop().is_none());
}

#[test]
fn history_is_bounded_and_drops_oldest_entries() {
    let mut history = History::new(2);
    for i in 0..5u16 {
        let mut regs = Registers::new();
        regs.ax = i;
        history.push(HistoryEntry {
            registers_before: regs,
            memory_diffs: vec![],
        });
    }
    assert_eq!(history.len(), 2);
    // Only the last two pushes (ax=3, ax=4) should have survived.
    assert_eq!(history.pop().unwrap().registers_before.ax, 4);
    assert_eq!(history.pop().unwrap().registers_before.ax, 3);
    assert!(history.pop().is_none());
}

#[test]
fn pop_on_empty_history_is_none_not_a_panic() {
    let mut history = History::new(4);
    assert!(history.pop().is_none());
}
