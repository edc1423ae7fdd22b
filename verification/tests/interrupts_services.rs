#![allow(unused_imports)]
use x8086::cpu::Registers;
use x8086::interrupts::cp437::to_char;
use x8086::interrupts::{handle_interrupt, InterruptOutcome, IoSink};
use x8086::memory::Memory;

#[derive(Default)]
struct RecordingSink {
    output: String,
    cleared: bool,
    keys: Vec<(u8, u8)>,
}
impl IoSink for RecordingSink {
    fn console_write(&mut self, text: &str) {
        self.output.push_str(text);
    }
    fn console_clear(&mut self) {
        self.cleared = true;
    }
    fn read_key(&mut self) -> Option<(u8, u8)> {
        if self.keys.is_empty() {
            None
        } else {
            Some(self.keys.remove(0))
        }
    }
}

#[test]
fn int20h_terminates_with_zero_exit_code() {
    let mut regs = Registers::new();
    let mut memory = Memory::new();
    let mut sink = RecordingSink::default();
    let outcome = handle_interrupt(0x20, &mut regs, &mut memory, &mut sink, true);
    assert_eq!(outcome, InterruptOutcome::Terminate { exit_code: 0 });
}

#[test]
fn int21h_ah4c_terminates_with_al_exit_code() {
    let mut regs = Registers::new();
    regs.ax = 0x4C07; // AH=4Ch, AL=07h
    let mut memory = Memory::new();
    let mut sink = RecordingSink::default();
    let outcome = handle_interrupt(0x21, &mut regs, &mut memory, &mut sink, true);
    assert_eq!(outcome, InterruptOutcome::Terminate { exit_code: 0x07 });
}

#[test]
fn int21h_ah02_prints_character_in_dl() {
    let mut regs = Registers::new();
    regs.ax = 0x0200; // AH=02h
    regs.dx = b'X' as u16;
    let mut memory = Memory::new();
    let mut sink = RecordingSink::default();
    let outcome = handle_interrupt(0x21, &mut regs, &mut memory, &mut sink, true);
    assert_eq!(outcome, InterruptOutcome::Continue);
    assert_eq!(sink.output, "X");
}

#[test]
fn int21h_ah09_prints_dollar_terminated_string() {
    let mut regs = Registers::new();
    regs.ax = 0x0900; // AH=09h
    regs.ds = 0x0000;
    regs.dx = 0x0100;
    let mut memory = Memory::new();
    for (offset, byte) in b"Hi!$".iter().enumerate() {
        memory.write_u8(0x0100 + offset as u32, *byte);
    }
    let mut sink = RecordingSink::default();
    let outcome = handle_interrupt(0x21, &mut regs, &mut memory, &mut sink, true);
    assert_eq!(outcome, InterruptOutcome::Continue);
    assert_eq!(sink.output, "Hi!");
}

#[test]
fn int21h_ah01_reads_and_echoes_a_key() {
    let mut regs = Registers::new();
    regs.ax = 0x0100; // AH=01h
    let mut memory = Memory::new();
    let mut sink = RecordingSink {
        keys: vec![(0x1E, b'a')],
        ..Default::default()
    };
    let outcome = handle_interrupt(0x21, &mut regs, &mut memory, &mut sink, true);
    assert_eq!(outcome, InterruptOutcome::Continue);
    assert_eq!(regs.ax as u8, b'a');
    assert_eq!(sink.output, "a");
}

#[test]
fn int21h_ah01_reports_needs_keyboard_input_when_no_key_is_available() {
    let mut regs = Registers::new();
    regs.ax = 0x0100;
    let mut memory = Memory::new();
    let mut sink = RecordingSink::default();
    let outcome = handle_interrupt(0x21, &mut regs, &mut memory, &mut sink, true);
    assert_eq!(outcome, InterruptOutcome::NeedsKeyboardInput);
    assert_eq!(
        sink.output, "",
        "must not echo anything until a key is actually available"
    );
}

#[test]
fn int16h_ah00_returns_scancode_and_ascii_without_echoing() {
    let mut regs = Registers::new();
    regs.ax = 0x0000; // AH=00h
    let mut memory = Memory::new();
    let mut sink = RecordingSink {
        keys: vec![(0x1E, b'a')],
        ..Default::default()
    };
    let outcome = handle_interrupt(0x16, &mut regs, &mut memory, &mut sink, true);
    assert_eq!(outcome, InterruptOutcome::Continue);
    assert_eq!(regs.ax, 0x1E61); // AH=scancode, AL='a'=0x61
    assert_eq!(sink.output, "", "INT 16h/00h does not echo");
}

#[test]
fn int16h_ah00_reports_needs_keyboard_input_when_no_key_is_available() {
    let mut regs = Registers::new();
    regs.ax = 0x0000;
    let mut memory = Memory::new();
    let mut sink = RecordingSink::default();
    let outcome = handle_interrupt(0x16, &mut regs, &mut memory, &mut sink, true);
    assert_eq!(outcome, InterruptOutcome::NeedsKeyboardInput);
}

#[test]
fn int10h_ah0e_writes_teletype_output() {
    let mut regs = Registers::new();
    regs.ax = 0x0E41; // AH=0Eh, AL='A'
    let mut memory = Memory::new();
    let mut sink = RecordingSink::default();
    let outcome = handle_interrupt(0x10, &mut regs, &mut memory, &mut sink, true);
    assert_eq!(outcome, InterruptOutcome::Continue);
    assert_eq!(sink.output, "A");
}

/// Drives AH=0Ah to completion the way `Emulator::step` really would:
/// one `handle_interrupt` call per available key, `first_attempt` set
/// only on the very first call, looping on `NeedsKeyboardInput` until
/// the line is done (or `max_polls` is hit, so a bug that never
/// completes fails the test instead of hanging it).
fn drive_buffered_input(
    regs: &mut Registers,
    memory: &mut Memory,
    sink: &mut RecordingSink,
    max_polls: usize,
) -> InterruptOutcome {
    let mut first_attempt = true;
    for _ in 0..max_polls {
        let outcome = handle_interrupt(0x21, regs, memory, sink, first_attempt);
        first_attempt = false;
        if outcome != InterruptOutcome::NeedsKeyboardInput {
            return outcome;
        }
    }
    panic!("buffered input never completed within {max_polls} polls");
}

/// `buff DB 7,0,7 DUP('$')` - byte 0 is the max length, byte 1 is the
/// (initially garbage) count, and the rest is scratch space for typed
/// characters. The exact structure real emu8086/MASM programs use.
fn make_input_buffer(memory: &mut Memory, addr: u32, max_len: u8, garbage_count: u8) {
    memory.write_u8(addr, max_len);
    memory.write_u8(addr.wrapping_add(1), garbage_count);
}

#[test]
fn int21h_ah0a_reads_a_line_echoing_each_character_and_stopping_at_enter() {
    let mut regs = Registers::new();
    regs.ax = 0x0A00; // AH=0Ah
    regs.ds = 0x0000;
    regs.dx = 0x0200;
    let mut memory = Memory::new();
    make_input_buffer(&mut memory, 0x0200, 10, 0);
    let mut sink = RecordingSink {
        keys: vec![(0, b'4'), (0, b'2'), (0, b'\r')],
        ..Default::default()
    };

    let outcome = drive_buffered_input(&mut regs, &mut memory, &mut sink, 10);

    assert_eq!(outcome, InterruptOutcome::Continue);
    assert_eq!(
        sink.output, "42\r\n",
        "each typed digit echoes, Enter ends the line"
    );
    assert_eq!(
        memory.read_u8(0x0201),
        2,
        "byte 1 becomes the character count"
    );
    assert_eq!(memory.read_u8(0x0202), b'4');
    assert_eq!(memory.read_u8(0x0203), b'2');
}

#[test]
fn int21h_ah0a_reports_needs_keyboard_input_when_no_key_is_available_yet() {
    let mut regs = Registers::new();
    regs.ax = 0x0A00;
    regs.ds = 0x0000;
    regs.dx = 0x0200;
    let mut memory = Memory::new();
    make_input_buffer(&mut memory, 0x0200, 10, 0);
    let mut sink = RecordingSink::default();

    let outcome = handle_interrupt(0x21, &mut regs, &mut memory, &mut sink, true);

    assert_eq!(outcome, InterruptOutcome::NeedsKeyboardInput);
    assert_eq!(sink.output, "");
}

#[test]
fn int21h_ah0a_stops_accepting_characters_once_max_length_is_reached() {
    let mut regs = Registers::new();
    regs.ax = 0x0A00;
    regs.ds = 0x0000;
    regs.dx = 0x0200;
    let mut memory = Memory::new();
    make_input_buffer(&mut memory, 0x0200, 2, 0);
    let mut sink = RecordingSink {
        // Three digits typed against a 2-character buffer, then Enter.
        keys: vec![(0, b'1'), (0, b'2'), (0, b'3'), (0, b'\r')],
        ..Default::default()
    };

    let outcome = drive_buffered_input(&mut regs, &mut memory, &mut sink, 10);

    assert_eq!(outcome, InterruptOutcome::Continue);
    assert_eq!(
        memory.read_u8(0x0201),
        2,
        "the third digit is silently dropped"
    );
    assert_eq!(memory.read_u8(0x0202), b'1');
    assert_eq!(memory.read_u8(0x0203), b'2');
    assert_eq!(
        sink.output, "12\r\n",
        "the dropped digit isn't echoed either"
    );
}

#[test]
fn int21h_ah0a_backspace_decrements_the_count_without_going_negative() {
    let mut regs = Registers::new();
    regs.ax = 0x0A00;
    regs.ds = 0x0000;
    regs.dx = 0x0200;
    let mut memory = Memory::new();
    make_input_buffer(&mut memory, 0x0200, 10, 0);
    let mut sink = RecordingSink {
        // 'a', backspace (erases it), backspace again (nothing left
        // to erase - must not underflow), 'b', Enter.
        keys: vec![(0, b'a'), (0, 0x08), (0, 0x08), (0, b'b'), (0, b'\r')],
        ..Default::default()
    };

    let outcome = drive_buffered_input(&mut regs, &mut memory, &mut sink, 10);

    assert_eq!(outcome, InterruptOutcome::Continue);
    assert_eq!(memory.read_u8(0x0201), 1, "only 'b' should remain");
    assert_eq!(memory.read_u8(0x0202), b'b');
}

#[test]
fn int21h_ah0a_resets_a_stale_count_left_over_from_a_previous_read() {
    // A program that calls AH=0Ah twice into the same buffer leaves
    // the first read's count sitting in byte 1 - first_attempt must
    // reset it, or the second read would start appending after
    // characters that were never actually typed this time.
    let mut regs = Registers::new();
    regs.ax = 0x0A00;
    regs.ds = 0x0000;
    regs.dx = 0x0200;
    let mut memory = Memory::new();
    make_input_buffer(&mut memory, 0x0200, 10, 5); // stale count of 5
    let mut sink = RecordingSink {
        keys: vec![(0, b'9'), (0, b'\r')],
        ..Default::default()
    };

    let outcome = drive_buffered_input(&mut regs, &mut memory, &mut sink, 10);

    assert_eq!(outcome, InterruptOutcome::Continue);
    assert_eq!(
        memory.read_u8(0x0201),
        1,
        "count reset before counting the new input"
    );
    assert_eq!(memory.read_u8(0x0202), b'9');
}

#[test]
fn int10h_ah13_writes_a_counted_string_from_es_bp() {
    let mut regs = Registers::new();
    regs.ax = 0x1301; // AH=13h, AL=01 (chars only, advance cursor)
    regs.es = 0x0000;
    regs.bp = 0x0300;
    regs.cx = 5;
    let mut memory = Memory::new();
    for (offset, byte) in b"Hello".iter().enumerate() {
        memory.write_u8(0x0300 + offset as u32, *byte);
    }
    let mut sink = RecordingSink::default();

    let outcome = handle_interrupt(0x10, &mut regs, &mut memory, &mut sink, true);

    assert_eq!(outcome, InterruptOutcome::Continue);
    assert_eq!(sink.output, "Hello");
}

#[test]
fn int10h_ah13_skips_interleaved_attribute_bytes_in_modes_2_and_3() {
    let mut regs = Registers::new();
    regs.ax = 0x1302; // AL=02: each character is followed by an attribute
    regs.es = 0x0000;
    regs.bp = 0x0300;
    regs.cx = 3;
    let mut memory = Memory::new();
    for (offset, byte) in b"H\x07i\x07!\x07".iter().enumerate() {
        memory.write_u8(0x0300 + offset as u32, *byte);
    }
    let mut sink = RecordingSink::default();

    handle_interrupt(0x10, &mut regs, &mut memory, &mut sink, true);

    assert_eq!(
        sink.output, "Hi!",
        "CX counts characters, not bytes - the attribute bytes are stepped over"
    );
}

#[test]
fn int10h_ah13_with_a_zero_length_writes_nothing() {
    let mut regs = Registers::new();
    regs.ax = 0x1301;
    regs.cx = 0;
    let mut memory = Memory::new();
    let mut sink = RecordingSink::default();

    handle_interrupt(0x10, &mut regs, &mut memory, &mut sink, true);

    assert_eq!(sink.output, "");
}

#[test]
fn unknown_interrupt_number_is_a_no_op() {
    let mut regs = Registers::new();
    let mut memory = Memory::new();
    let mut sink = RecordingSink::default();
    let outcome = handle_interrupt(0xFF, &mut regs, &mut memory, &mut sink, true);
    assert_eq!(outcome, InterruptOutcome::Continue);
    assert_eq!(sink.output, "");
}
