#![allow(unused_imports)]
use x8086::assembler::{assemble, tokenize, TokenKind};
use x8086::cpu::Registers;
use x8086::debugger::{Breakpoints, History, HistoryEntry};
use x8086::decoder::{decode_one, DecodeError};
use x8086::emulator::{DisassembledLine, Emulator, RunOutcome, StepOutcome};
use x8086::interrupts::cp437::to_char;
use x8086::interrupts::{complete_service, handle_interrupt, InterruptOutcome, IoSink};
use x8086::memory::{Memory, MEMORY_SIZE};

struct KeySink {
    output: String,
    keys: Vec<(u8, u8)>,
    reads: usize,
}

impl IoSink for KeySink {
    fn console_write(&mut self, text: &str) {
        self.output.push_str(text);
    }
    fn console_clear(&mut self) {
        self.output.clear();
    }
    fn read_key(&mut self) -> Option<(u8, u8)> {
        self.reads += 1;
        if self.keys.is_empty() {
            None
        } else {
            Some(self.keys.remove(0))
        }
    }
}

fn sink(keys: Vec<(u8, u8)>) -> KeySink {
    KeySink { output: String::new(), keys, reads: 0 }
}

fn clean(source: &str) -> Vec<u8> {
    let result = assemble(source);
    assert!(result.diagnostics.is_empty(), "{source:?}: {:?}", result.diagnostics);
    result.machine_code
}

#[test]
fn a_negated_symbol_is_subtracted_from_zero() {
    assert_eq!(clean("k EQU 5\nMOV AX, -k\n"), vec![0xB8, 0xFB, 0xFF]);
    assert_eq!(clean("MOV AX, - -7\n"), clean("MOV AX, 7\n"));
    assert_eq!(clean("MOV AX, 10 + -3\n"), clean("MOV AX, 7\n"));
}

#[test]
fn a_lone_sign_is_still_an_error() {
    let result = assemble("MOV AX, -\n");
    assert!(!result.diagnostics.is_empty());
}

#[test]
fn tokenizing_ascii_source_keeps_the_token_text() {
    let tokens = tokenize("MOV AX, 5");
    let texts: Vec<&str> = tokens.iter().map(|t| t.text.as_str()).collect();
    assert_eq!(texts, vec!["MOV", "AX", ",", "5"]);
    assert_eq!(tokens[1].kind, TokenKind::Register);
}

#[test]
fn a_dollar_at_the_start_prints_nothing() {
    let mut regs = Registers::new();
    regs.ax = 0x0900;
    regs.dx = 0x0040;
    let mut memory = Memory::new();
    memory.write_u8(0x40, b'$');
    let mut io = sink(vec![]);
    assert_eq!(handle_interrupt(0x21, &mut regs, &mut memory, &mut io, true), InterruptOutcome::Continue);
    assert_eq!(io.output, "");
    assert_eq!(io.reads, 0, "printing never asks for a key");
}

#[test]
fn printing_maps_extended_bytes_through_code_page_437() {
    let mut regs = Registers::new();
    regs.ax = 0x0200;
    regs.dx = 0xC9;
    let mut memory = Memory::new();
    let mut io = sink(vec![]);
    handle_interrupt(0x21, &mut regs, &mut memory, &mut io, true);
    assert_eq!(io.output, "\u{2554}");
    assert_eq!(to_char(0xC9), '\u{2554}');
}

#[test]
fn a_pending_key_is_left_alone_by_services_that_print() {
    let mut regs = Registers::new();
    regs.ax = 0x0E41;
    let mut memory = Memory::new();
    let mut io = sink(vec![(0x1E, b'a')]);
    handle_interrupt(0x10, &mut regs, &mut memory, &mut io, true);
    assert_eq!(io.reads, 0);
    assert_eq!(io.keys.len(), 1);
}

#[test]
fn complete_service_takes_the_key_as_an_argument() {
    let mut regs = Registers::new();
    regs.ax = 0x0100;
    let mut memory = Memory::new();
    let (outcome, text) = complete_service(0x21, &mut regs, &mut memory, Some((0x1E, b'z')), true);
    assert_eq!(outcome, InterruptOutcome::Continue);
    assert_eq!(text, Some("z".to_string()));
    assert_eq!(regs.ax, 0x017A, "AH keeps the service number, AL gets the key");
}

#[test]
fn buffered_input_ignores_a_zero_key_and_keeps_within_the_maximum() {
    let mut regs = Registers::new();
    regs.ax = 0x0A00;
    regs.dx = 0x0300;
    let mut memory = Memory::new();
    memory.write_u8(0x300, 1);
    let mut io = sink(vec![(0x3B, 0), (0, b'x'), (0, b'y'), (0, b'\r')]);
    let mut first = true;
    let mut outcome = InterruptOutcome::NeedsKeyboardInput;
    for _ in 0..10 {
        outcome = handle_interrupt(0x21, &mut regs, &mut memory, &mut io, first);
        first = false;
        if outcome != InterruptOutcome::NeedsKeyboardInput {
            break;
        }
    }
    assert_eq!(outcome, InterruptOutcome::Continue);
    assert_eq!(memory.read_u8(0x301), 1);
    assert_eq!(memory.read_u8(0x302), b'x');
    assert_eq!(io.output, "x\r\n");
}

#[test]
fn terminate_reports_al_as_the_exit_code_through_the_emulator() {
    let mut emulator = Emulator::new();
    // MOV AX, 4C03h; INT 21h
    emulator.load_program(&[0xB8, 0x03, 0x4C, 0xCD, 0x21]);
    assert_eq!(emulator.step().unwrap(), StepOutcome::Continued);
    assert_eq!(emulator.step().unwrap(), StepOutcome::Halted);
    assert!(emulator.halted);
    assert_eq!(emulator.step().unwrap(), StepOutcome::Halted);
}

#[test]
fn step_back_does_not_take_back_printed_text() {
    let mut emulator = Emulator::new();
    // MOV DL, 'Q'; MOV AH, 2; INT 21h; HLT
    emulator.load_program(&[0xB2, b'Q', 0xB4, 0x02, 0xCD, 0x21, 0xF4]);
    assert_eq!(emulator.run(10), RunOutcome::Halted);
    assert_eq!(emulator.console_output(), "Q");
    assert!(emulator.step_back());
    assert!(emulator.step_back());
    assert_eq!(emulator.registers.ip, 4);
    assert_eq!(emulator.console_output(), "Q");
}

#[test]
fn step_then_step_back_restores_registers_and_memory() {
    let mut emulator = Emulator::new();
    // MOV WORD [0x20], 0x1234 (C7 06 20 00 34 12)
    emulator.load_program(&[0xC7, 0x06, 0x20, 0x00, 0x34, 0x12]);
    let registers_before = emulator.registers;
    let memory_before = emulator.read_memory(0x20, 2);
    assert_eq!(emulator.step().unwrap(), StepOutcome::Continued);
    assert_eq!(emulator.read_memory(0x20, 2), vec![0x34, 0x12]);
    assert!(emulator.step_back());
    assert_eq!(emulator.registers, registers_before);
    assert_eq!(emulator.read_memory(0x20, 2), memory_before);
    assert!(!emulator.can_step_back());
}

#[test]
fn a_later_step_after_step_back_is_undone_on_its_own() {
    let mut emulator = Emulator::new();
    // MOV BYTE [0x30], 1 ; MOV BYTE [0x30], 2
    emulator.load_program(&[0xC6, 0x06, 0x30, 0x00, 0x01, 0xC6, 0x06, 0x30, 0x00, 0x02]);
    emulator.step().unwrap();
    assert!(emulator.step_back());
    assert_eq!(emulator.read_memory(0x30, 1), vec![0]);
    emulator.step().unwrap();
    emulator.step().unwrap();
    assert_eq!(emulator.read_memory(0x30, 1), vec![2]);
    assert!(emulator.step_back());
    assert_eq!(emulator.read_memory(0x30, 1), vec![1]);
    assert!(emulator.step_back());
    assert_eq!(emulator.read_memory(0x30, 1), vec![0]);
}

#[test]
fn a_decode_error_changes_nothing() {
    let mut emulator = Emulator::new();
    emulator.load_program(&[0x0F]);
    let before = emulator.registers;
    assert_eq!(emulator.step(), Err(DecodeError::InvalidOpcode(0x0F)));
    assert_eq!(emulator.registers, before);
    assert!(!emulator.can_step_back());
    assert_eq!(emulator.run(5), RunOutcome::DecodeError);
}

#[test]
fn read_memory_wraps_and_is_clamped_to_the_address_space() {
    let mut emulator = Emulator::new();
    emulator.write_memory_byte(0xF_FFFF, 0xAA);
    emulator.write_memory_byte(0, 0xBB);
    assert_eq!(emulator.read_memory(0xF_FFFF, 2), vec![0xAA, 0xBB]);
    assert_eq!(emulator.read_memory(0, u32::MAX).len(), MEMORY_SIZE);
    assert!(emulator.read_memory(5, 0).is_empty());
}

#[test]
fn disassembly_of_an_undecodable_byte_uses_two_hex_digits() {
    let mut emulator = Emulator::new();
    emulator.load_program(&[0x0F, 0x0F]);
    assert_eq!(
        emulator.disassemble(0, 1),
        vec![DisassembledLine { address: 0, text: "DB 0Fh".to_string(), byte_len: 1 }]
    );
    assert_eq!(emulator.disassemble(7, 0), vec![]);
}

#[test]
fn run_to_cursor_at_the_current_address_runs_on() {
    let mut emulator = Emulator::new();
    // NOP; NOP; HLT
    emulator.load_program(&[0x90, 0x90, 0xF4]);
    assert_eq!(emulator.run_to_cursor(0, 10), RunOutcome::Halted);
    assert!(!emulator.breakpoints.is_set(0));
}

#[test]
fn a_zero_step_budget_reaches_the_limit_at_once() {
    let mut emulator = Emulator::new();
    emulator.load_program(&[0x90]);
    assert_eq!(emulator.run(0), RunOutcome::StepLimitReached);
    assert_eq!(emulator.registers.ip, 0);
}

#[test]
fn watch_values_follow_constants_and_labels() {
    let mut emulator = Emulator::new();
    let result = emulator.assemble_and_load("LIMIT EQU 300\nstart: NOP\nHLT\n");
    assert!(result.diagnostics.is_empty());
    assert!(emulator.add_watch("limit").is_ok());
    assert!(emulator.add_watch("start").is_ok());
    let values: Vec<Option<u16>> = emulator.watch_values().iter().map(|w| w.value).collect();
    assert_eq!(values, vec![Some(300), Some(0)]);
    assert!(emulator.variables().is_empty());
}

#[test]
fn toggling_a_breakpoint_twice_leaves_it_clear() {
    let mut breakpoints = Breakpoints::new();
    assert!(breakpoints.toggle(7));
    assert!(!breakpoints.toggle(7));
    assert!(!breakpoints.is_set(7));
}

#[test]
fn history_drops_the_oldest_entry_when_full() {
    let mut history = History::new(2);
    for ip in 0..3u16 {
        let mut registers_before = Registers::new();
        registers_before.ip = ip;
        history.push(HistoryEntry { registers_before, memory_diffs: vec![] });
    }
    assert_eq!(history.len(), 2);
    assert_eq!(history.pop().unwrap().registers_before.ip, 2);
    assert_eq!(history.pop().unwrap().registers_before.ip, 1);
    assert!(history.pop().is_none());
}

#[test]
fn decoding_needs_the_whole_instruction() {
    assert_eq!(decode_one(&[0xB8, 0x01]), Err(DecodeError::UnexpectedEndOfInput));
    assert_eq!(decode_one(&[]), Err(DecodeError::UnexpectedEndOfInput));
}

fn messages_of(source: &str) -> Vec<(u32, String)> {
    assemble(source)
        .diagnostics
        .iter()
        .map(|d| (d.line, d.message.clone()))
        .collect()
}

#[test]
fn undefined_symbol_message_names_the_symbol() {
    let m = messages_of("MOV AX, missing\nHLT\n");
    assert_eq!(m, vec![(1, "undefined symbol 'missing'".to_string())]);
}

#[test]
fn first_undefined_symbol_of_a_sum_is_reported() {
    let m = messages_of("MOV AX, first + second\n");
    assert_eq!(m, vec![(1, "undefined symbol 'first'".to_string())]);
}

#[test]
fn data_value_too_large_for_db_is_reported() {
    let m = messages_of("DB 300\nDW 70000\n");
    assert_eq!(
        m,
        vec![
            (1, "value 300 does not fit in a DB byte".to_string()),
            (2, "value 70000 does not fit in a DW word".to_string()),
        ]
    );
}

#[test]
fn negative_dup_count_is_reported() {
    let m = messages_of("DB -1 DUP(0)\n");
    assert_eq!(m, vec![(1, "DUP count cannot be negative, got -1".to_string())]);
}

#[test]
fn undefined_entry_point_is_reported() {
    let m = messages_of("HLT\nEND nowhere\n");
    assert_eq!(m, vec![(2, "undefined entry point symbol 'nowhere'".to_string())]);
}

#[test]
fn encoder_refusal_becomes_the_line_message() {
    let m = messages_of("INT 300\n");
    assert_eq!(m, vec![(1, "INT vector out of range: 300".to_string())]);
}

#[test]
fn parse_error_message_leads_the_diagnostics() {
    let r = assemble("MOV AX, [BX+SI+DI]\nMOV AX, nowhere\n");
    let m: Vec<(u32, String)> = r.diagnostics.iter().map(|d| (d.line, d.message.clone())).collect();
    assert_eq!(
        m,
        vec![
            (1, "a memory operand allows at most two registers (base + index)".to_string()),
            (2, "undefined symbol 'nowhere'".to_string()),
        ]
    );
}

#[test]
fn non_ascii_text_of_a_string_literal_is_decoded() {
    let toks = tokenize("DB 'é'\n");
    let lit = toks.iter().find(|t| t.kind == TokenKind::StringLiteral).unwrap();
    assert_eq!(lit.text, "'é'");
    assert_eq!(lit.span.len, 4);
}

#[test]
fn immediate_too_wide_names_value_and_width() {
    let m = messages_of("MOV AL, 300\n");
    assert_eq!(m, vec![(1, "value 300 does not fit in a Byte immediate".to_string())]);
}

fn padded(first: &str) -> String {
    let mut source = String::from(first);
    source.push('\n');
    for _ in 0..200 {
        source.push_str("NOP\n");
    }
    source.push_str("far_label: HLT\n");
    source
}

#[test]
fn short_jump_out_of_range_names_the_displacement() {
    let m = messages_of(&padded("JMP SHORT far_label"));
    assert_eq!(m, vec![(1, "JMP SHORT target is out of rel8 range (200)".to_string())]);
}

#[test]
fn conditional_jump_out_of_range_names_the_displacement() {
    let m = messages_of(&padded("JE far_label"));
    assert_eq!(
        m,
        vec![(
            1,
            "conditional jump target is out of range (200); 8086 Jcc only has an 8-bit relative form"
                .to_string()
        )]
    );
}

#[test]
fn ret_pop_count_out_of_range_names_the_count() {
    let m = messages_of("RET 70000\n");
    assert_eq!(m, vec![(1, "RET pop count out of range: 70000".to_string())]);
}

#[test]
fn step_fetches_at_cs_ip_not_at_flat_ip() {
    let mut emulator = Emulator::new();
    // Flat address 0 holds zeros (ADD [BX+SI], AL); CS:IP = 0010:0000 is
    // flat 0x100, which holds HLT.
    emulator.write_memory_byte(0x100, 0xF4);
    emulator.registers.cs = 0x10;
    emulator.registers.ip = 0;
    assert_eq!(emulator.step().unwrap(), StepOutcome::Halted);
    assert_eq!(emulator.registers.ip, 1);
}

#[test]
fn step_reports_an_undecodable_byte_at_cs_ip() {
    let mut emulator = Emulator::new();
    emulator.write_memory_byte(0x100, 0x0F);
    emulator.registers.cs = 0x10;
    assert!(emulator.step().is_err());
    assert_eq!(emulator.registers.ip, 0);
    assert!(!emulator.can_step_back());
}

#[test]
fn run_to_cursor_matches_run_with_the_cursor_as_a_breakpoint() {
    // MOV AX,1 ; MOV BX,2 ; MOV CX,3 ; HLT
    let program: &[u8] = &[0xB8, 0x01, 0x00, 0xBB, 0x02, 0x00, 0xB9, 0x03, 0x00, 0xF4];
    for (target, budget) in [(6u32, 1_000u32), (3, 1_000), (9, 2), (100, 1_000)] {
        let mut a = Emulator::new();
        a.load_program(program);
        let mut b = Emulator::new();
        b.load_program(program);
        let outcome_a = a.run_to_cursor(target, budget);
        b.breakpoints.toggle(target);
        let outcome_b = b.run(budget);
        assert_eq!(outcome_a, outcome_b);
        assert_eq!(a.registers, b.registers);
        assert_eq!(a.halted, b.halted);
        assert!(!a.breakpoints.is_set(target));
    }
}
