#![allow(unused_imports)]
use x8086::cpu::Registers;
use x8086::emulator::{DisassembledLine, Emulator, RunOutcome, StepOutcome, VariableValue, WatchValue};
use x8086::isa::{Flag, Reg16, Reg8};
use x8086::memory::{Memory, MEMORY_SIZE};

#[test]
fn stepping_over_hlt_halts_the_emulator() {
    let mut emulator = Emulator::new();
    emulator.load_program(&[0xF4]); // HLT
    assert_eq!(emulator.step().unwrap(), StepOutcome::Halted);
    assert!(emulator.halted);
    assert_eq!(emulator.registers.ip, 1);
}

#[test]
fn stepping_while_halted_is_idempotent() {
    let mut emulator = Emulator::new();
    emulator.load_program(&[0xF4]);
    emulator.step().unwrap();
    assert_eq!(emulator.step().unwrap(), StepOutcome::Halted);
    assert_eq!(emulator.registers.ip, 1); // did not advance a second time
}

#[test]
fn stepping_an_unknown_opcode_is_an_error() {
    let mut emulator = Emulator::new();
    emulator.load_program(&[0x0F]); // reserved on 8086/80186, deliberately undecoded
    assert!(emulator.step().is_err());
}

#[test]
fn step_back_undoes_the_halt_and_restores_ip() {
    let mut emulator = Emulator::new();
    emulator.load_program(&[0xF4]);
    emulator.step().unwrap();
    assert!(emulator.halted);

    assert!(emulator.step_back());
    assert!(!emulator.halted);
    assert_eq!(emulator.registers.ip, 0);
}

#[test]
fn step_back_on_fresh_emulator_is_a_no_op() {
    let mut emulator = Emulator::new();
    assert!(!emulator.step_back());
}

#[test]
fn step_back_restores_a_memory_write() {
    let mut emulator = Emulator::new();
    // MOV AL, 0x42; MOV [0x0010], AL; HLT
    let program: &[u8] = &[0xB0, 0x42, 0xA2, 0x10, 0x00, 0xF4];
    emulator.load_program(program);
    assert_eq!(emulator.step().unwrap(), StepOutcome::Continued); // MOV AL, 0x42
    assert_eq!(emulator.memory.read_u8(0x10), 0x00);
    assert_eq!(emulator.step().unwrap(), StepOutcome::Continued); // MOV [0x10], AL
    assert_eq!(emulator.memory.read_u8(0x10), 0x42);

    assert!(emulator.step_back());
    assert_eq!(
        emulator.memory.read_u8(0x10),
        0x00,
        "step_back must undo the memory write the step made, not just registers"
    );
    assert_eq!(
        emulator.registers.ip, 2,
        "IP must roll back to before MOV [0x10], AL"
    );
}

fn full_memory_snapshot(emulator: &Emulator) -> Vec<u8> {
    (0..MEMORY_SIZE as u32)
        .map(|address| emulator.memory.read_u8(address))
        .collect()
}

/// Validates the diff-based step-back storage optimization: `History`
/// records only `(address, old_value)` pairs per step rather than a
/// full memory snapshot, on the assumption that replaying those diffs
/// in reverse is exactly equivalent to a naive "restore a full copy"
/// approach. This runs a program that writes memory in every way the
/// emulator currently supports - a direct byte write, a direct word
/// write, and a stack push/pop (word writes at an SP-relative
/// address) - and proves that property end to end rather than
/// spot-checking one write in isolation.
#[test]
fn step_back_diff_based_restore_matches_a_naive_full_memory_snapshot() {
    let mut emulator = Emulator::new();
    let source = "\
MOV AX, 1234h
MOV [0010h], AX
MOV BL, 42h
MOV [0020h], BL
PUSH AX
MOV CX, 5678h
MOV [0030h], CX
POP DX
HLT
";
    let result = emulator.assemble_and_load(source);
    assert!(
        result.diagnostics.is_empty(),
        "diagnostics: {:?}",
        result.diagnostics
    );

    // Record a full reference snapshot immediately before each step
    // actually runs - the ground truth a "naive full-copy" step-back
    // implementation would have captured.
    let mut snapshots_before_each_step = Vec::new();
    loop {
        snapshots_before_each_step.push((emulator.registers, full_memory_snapshot(&emulator)));
        match emulator.step().unwrap() {
            StepOutcome::Halted => break,
            StepOutcome::Continued => {}
            StepOutcome::WaitingForKeyboard => panic!("unexpected keyboard wait"),
        }
    }
    assert!(
        snapshots_before_each_step.len() > 5,
        "the program should take a nontrivial number of steps to be a meaningful test"
    );

    // Step back through the entire history, and after each one,
    // confirm current state exactly matches the reference snapshot
    // recorded before that step originally ran.
    while let Some((expected_registers, expected_memory)) = snapshots_before_each_step.pop() {
        assert!(emulator.step_back());
        assert_eq!(emulator.registers, expected_registers);
        assert_eq!(full_memory_snapshot(&emulator), expected_memory);
    }
    assert!(!emulator.step_back(), "history must be fully exhausted");
}

#[test]
fn reset_clears_registers_memory_and_halted_state() {
    let mut emulator = Emulator::new();
    emulator.load_program(&[0xF4]);
    emulator.step().unwrap();
    emulator.reset();
    assert!(!emulator.halted);
    assert_eq!(emulator.registers.ip, 0);
    assert_eq!(emulator.memory.read_u8(0), 0);
}

#[test]
fn int21h_09h_prints_a_dollar_terminated_string_to_the_console() {
    let mut emulator = Emulator::new();
    // MOV DX, 0x0008 (address of the string below); MOV AH, 9;
    // INT 21h; HLT; DB "Hi$"
    let program: &[u8] = &[
        0xBA, 0x08, 0x00, 0xB4, 0x09, 0xCD, 0x21, 0xF4, b'H', b'i', b'$',
    ];
    emulator.load_program(program);
    loop {
        match emulator.step().unwrap() {
            StepOutcome::Halted => break,
            StepOutcome::Continued => {}
            StepOutcome::WaitingForKeyboard => panic!("unexpected keyboard wait"),
        }
    }
    assert_eq!(emulator.console_output(), "Hi");
}

#[test]
fn int16h_blocks_until_fed_a_key_then_resumes() {
    let mut emulator = Emulator::new();
    // MOV AH, 0; INT 16h; MOV DX, AX; HLT
    let program: &[u8] = &[0xB4, 0x00, 0xCD, 0x16, 0x89, 0xC2, 0xF4];
    emulator.load_program(program);

    // Step through MOV AH,0.
    assert_eq!(emulator.step().unwrap(), StepOutcome::Continued);
    // INT 16h: no key yet, must report waiting rather than hang or
    // fabricate a result.
    assert_eq!(emulator.step().unwrap(), StepOutcome::WaitingForKeyboard);
    assert_eq!(
        emulator.step().unwrap(),
        StepOutcome::WaitingForKeyboard,
        "must keep waiting, not silently give up"
    );

    emulator.feed_key(0x1E, b'a');
    assert_eq!(emulator.step().unwrap(), StepOutcome::Continued);
    assert_eq!(emulator.registers.ax, 0x1E61);

    assert_eq!(emulator.step().unwrap(), StepOutcome::Continued); // MOV DX, AX
    assert_eq!(emulator.registers.dx, 0x1E61);
    assert_eq!(emulator.step().unwrap(), StepOutcome::Halted);
}

#[test]
fn feed_key_before_any_wait_is_harmless_and_buffers_for_later() {
    let mut emulator = Emulator::new();
    // MOV AH, 0; INT 16h; HLT
    emulator.load_program(&[0xB4, 0x00, 0xCD, 0x16, 0xF4]);
    // Fed proactively, before the program has even asked for it -
    // load_program (via reset) must run first, since resetting
    // after feeding a key would silently discard it.
    emulator.feed_key(0x1E, b'a');
    assert_eq!(emulator.step().unwrap(), StepOutcome::Continued); // MOV AH,0
    assert_eq!(emulator.step().unwrap(), StepOutcome::Continued); // INT 16h completes immediately
    assert_eq!(emulator.registers.ax, 0x1E61);
}

#[test]
fn can_step_back_reflects_whether_history_has_anything_to_undo() {
    let mut emulator = Emulator::new();
    emulator.load_program(&[0xF4]); // HLT
    assert!(!emulator.can_step_back());
    emulator.step().unwrap();
    assert!(emulator.can_step_back());
    emulator.step_back();
    assert!(!emulator.can_step_back());
}

// MOV AX,1 (3); MOV BX,2 (3, at addr 3); MOV CX,3 (3, at addr 6); HLT (at addr 9).
const THREE_MOVS_THEN_HLT: &[u8] =
    &[0xB8, 0x01, 0x00, 0xBB, 0x02, 0x00, 0xB9, 0x03, 0x00, 0xF4];

#[test]
fn run_executes_to_completion_when_no_breakpoints_are_set() {
    let mut emulator = Emulator::new();
    emulator.load_program(THREE_MOVS_THEN_HLT);
    assert_eq!(emulator.run(1_000), RunOutcome::Halted);
    assert_eq!(emulator.registers.ax, 1);
    assert_eq!(emulator.registers.bx, 2);
    assert_eq!(emulator.registers.cx, 3);
}

#[test]
fn run_stops_at_a_breakpoint_without_executing_past_it() {
    let mut emulator = Emulator::new();
    emulator.load_program(THREE_MOVS_THEN_HLT);
    emulator.breakpoints.toggle(6); // address of MOV CX, 3
    assert_eq!(emulator.run(1_000), RunOutcome::BreakpointHit);
    assert_eq!(emulator.registers.ip, 6);
    assert_eq!(emulator.registers.ax, 1);
    assert_eq!(emulator.registers.bx, 2);
    assert_eq!(emulator.registers.cx, 0, "must stop before MOV CX,3 runs");
    assert!(!emulator.halted);
}

#[test]
fn run_started_on_a_breakpoint_line_executes_it_and_continues() {
    let mut emulator = Emulator::new();
    emulator.load_program(THREE_MOVS_THEN_HLT);
    emulator.breakpoints.toggle(0); // the very first instruction
    assert_eq!(
        emulator.run(1_000),
        RunOutcome::Halted,
        "must not stop immediately on the line it started on"
    );
}

#[test]
fn run_reports_step_limit_reached_on_a_runaway_loop() {
    let mut emulator = Emulator::new();
    emulator.load_program(&[0xEB, 0xFE]); // JMP $ (short jump to self)
    assert_eq!(emulator.run(50), RunOutcome::StepLimitReached);
}

#[test]
fn run_to_cursor_stops_at_the_target_without_leaving_a_permanent_breakpoint() {
    let mut emulator = Emulator::new();
    emulator.load_program(THREE_MOVS_THEN_HLT);
    assert_eq!(emulator.run_to_cursor(9, 1_000), RunOutcome::BreakpointHit);
    assert_eq!(emulator.registers.ip, 9);
    assert!(!emulator.halted, "must stop before HLT executes");
    assert!(
        !emulator.breakpoints.is_set(9),
        "temporary breakpoint must not persist"
    );
}

#[test]
fn run_to_cursor_leaves_a_pre_existing_real_breakpoint_at_the_target_set() {
    let mut emulator = Emulator::new();
    emulator.load_program(THREE_MOVS_THEN_HLT);
    emulator.breakpoints.toggle(9);
    assert_eq!(emulator.run_to_cursor(9, 1_000), RunOutcome::BreakpointHit);
    assert!(
        emulator.breakpoints.is_set(9),
        "a real breakpoint must survive run_to_cursor"
    );
}

#[test]
fn run_to_cursor_still_stops_at_a_real_breakpoint_hit_before_the_target() {
    let mut emulator = Emulator::new();
    emulator.load_program(THREE_MOVS_THEN_HLT);
    emulator.breakpoints.toggle(3); // MOV BX, 2 - before the cursor target
    assert_eq!(emulator.run_to_cursor(9, 1_000), RunOutcome::BreakpointHit);
    assert_eq!(emulator.registers.ip, 3);
}

#[test]
fn set_registers_overwrites_the_whole_register_file() {
    let mut emulator = Emulator::new();
    let mut regs = emulator.registers;
    regs.ax = 0x1234;
    regs.bx = 0x5678;
    emulator.set_registers(regs);
    assert_eq!(emulator.registers.ax, 0x1234);
    assert_eq!(emulator.registers.bx, 0x5678);
}

#[test]
fn read_memory_returns_the_requested_bytes_in_order() {
    let mut emulator = Emulator::new();
    emulator.load_program(&[0x11, 0x22, 0x33, 0x44]);
    assert_eq!(emulator.read_memory(1, 3), vec![0x22, 0x33, 0x44]);
}

#[test]
fn write_memory_byte_edits_memory_without_being_undoable_via_step_back() {
    let mut emulator = Emulator::new();
    emulator.load_program(&[0xF4]); // HLT
    emulator.step().unwrap(); // creates one history entry to pop
    emulator.write_memory_byte(0x10, 0x99);
    assert_eq!(emulator.memory.read_u8(0x10), 0x99);

    assert!(emulator.step_back());
    assert_eq!(
        emulator.memory.read_u8(0x10),
        0x99,
        "a manual live-edit is not a CPU step and must not be touched by step_back"
    );
}

#[test]
fn variables_lists_db_and_dw_symbols_with_live_values_and_skips_labels_and_constants() {
    let mut emulator = Emulator::new();
    let result =
        emulator.assemble_and_load("SIZE EQU 1\nmsg DB 'H'\ncount DW 42\nstart: HLT\n");
    assert!(
        result.diagnostics.is_empty(),
        "diagnostics: {:?}",
        result.diagnostics
    );

    let vars = emulator.variables();
    assert_eq!(vars.len(), 2, "only DB/DW symbols should appear: {vars:?}");
    let msg = vars.iter().find(|v| v.name == "msg").expect("msg variable");
    assert!(!msg.is_word);
    assert_eq!(msg.value, b'H' as u16);
    let count = vars
        .iter()
        .find(|v| v.name == "count")
        .expect("count variable");
    assert!(count.is_word);
    assert_eq!(count.value, 42);
}

#[test]
fn add_watch_accepts_registers_flags_raw_addresses_and_variable_names_and_rejects_junk() {
    let mut emulator = Emulator::new();
    let result = emulator.assemble_and_load("count DW 42\nHLT\n");
    assert!(result.diagnostics.is_empty());

    assert!(emulator.add_watch("AX").is_ok());
    assert!(
        emulator.add_watch(" zf ").is_ok(),
        "whitespace must be trimmed"
    );
    assert!(emulator.add_watch("word [0x0000]").is_ok());
    assert!(emulator.add_watch("count").is_ok());
    assert!(
        emulator.add_watch("COUNT").is_ok(),
        "variable lookup is case-insensitive"
    );
    assert_eq!(
        emulator.add_watch("nonexistent"),
        Err("unrecognized watch expression 'nonexistent'".to_string())
    );
    assert_eq!(
        emulator.add_watch("   "),
        Err("watch expression must not be empty".to_string())
    );
}

#[test]
fn watch_values_are_evaluated_fresh_not_cached_at_add_time() {
    let mut emulator = Emulator::new();
    emulator.assemble_and_load("count DW 0\nHLT\n"); // count lives at address 0
    emulator.add_watch("count").unwrap();
    assert_eq!(emulator.watch_values()[0].value, Some(0));

    emulator.write_memory_byte(0, 0x2A);
    assert_eq!(
        emulator.watch_values()[0].value,
        Some(0x2A),
        "must reflect the live value, not the value from when the watch was added"
    );
}

#[test]
fn watches_survive_reset_and_re_resolve_against_the_next_assemble() {
    let mut emulator = Emulator::new();
    emulator.assemble_and_load("count DW 7\nHLT\n");
    emulator.add_watch("count").unwrap();
    emulator.add_watch("AX").unwrap();
    assert_eq!(emulator.watch_values()[0].value, Some(7));

    // Reassemble with `count` moved to a different address by a
    // leading NOP, and a different value - the watch must follow it.
    emulator.assemble_and_load("NOP\ncount DW 99\nHLT\n");
    let values = emulator.watch_values();
    assert_eq!(values.len(), 2, "the watch list itself must survive reset");
    assert_eq!(
        values
            .iter()
            .find(|w| w.expression == "count")
            .unwrap()
            .value,
        Some(99)
    );
}

#[test]
fn watch_value_is_none_once_its_symbol_no_longer_exists_after_a_reassemble() {
    let mut emulator = Emulator::new();
    emulator.assemble_and_load("count DW 7\nHLT\n");
    emulator.add_watch("count").unwrap();

    emulator.assemble_and_load("HLT\n"); // no more `count`
    assert_eq!(emulator.watch_values()[0].value, None);
}

#[test]
fn remove_watch_and_clear_watches_shrink_the_list() {
    let mut emulator = Emulator::new();
    emulator.add_watch("AX").unwrap();
    emulator.add_watch("BX").unwrap();
    emulator.remove_watch(0);
    assert_eq!(emulator.watch_values().len(), 1);
    assert_eq!(emulator.watch_values()[0].expression, "BX");

    emulator.remove_watch(50); // out of range: a no-op, not a panic
    assert_eq!(emulator.watch_values().len(), 1);

    emulator.clear_watches();
    assert!(emulator.watch_values().is_empty());
}

#[test]
fn disassemble_walks_forward_producing_readable_text_and_correct_addresses() {
    let mut emulator = Emulator::new();
    // MOV AX,1 (3 bytes, addr 0); MOV BX,2 (3 bytes, addr 3); HLT (addr 6).
    emulator.load_program(&[0xB8, 0x01, 0x00, 0xBB, 0x02, 0x00, 0xF4]);

    let lines = emulator.disassemble(0, 3);
    assert_eq!(lines.len(), 3);
    assert_eq!(
        lines[0],
        DisassembledLine {
            address: 0,
            text: "MOV AX, 1".to_string(),
            byte_len: 3
        }
    );
    assert_eq!(
        lines[1],
        DisassembledLine {
            address: 3,
            text: "MOV BX, 2".to_string(),
            byte_len: 3
        }
    );
    assert_eq!(
        lines[2],
        DisassembledLine {
            address: 6,
            text: "HLT".to_string(),
            byte_len: 1
        }
    );
}

#[test]
fn disassemble_recovers_from_an_undecodable_byte_instead_of_stopping() {
    let mut emulator = Emulator::new();
    // 0x0F is reserved/undecoded; HLT follows right after it.
    emulator.load_program(&[0x0F, 0xF4]);

    let lines = emulator.disassemble(0, 2);
    assert_eq!(
        lines.len(),
        2,
        "one bad byte must not swallow the rest of the window"
    );
    assert_eq!(
        lines[0],
        DisassembledLine {
            address: 0,
            text: "DB 0Fh".to_string(),
            byte_len: 1
        }
    );
    assert_eq!(
        lines[1],
        DisassembledLine {
            address: 1,
            text: "HLT".to_string(),
            byte_len: 1
        }
    );
}

#[test]
fn model_small_program_with_boilerplate_initializes_segments_and_runs_correctly() {
    let mut emulator = Emulator::new();
    let source = "\
.MODEL SMALL
.STACK 100h
.DATA
msg DB \"Hi$\"
.CODE
start:
MOV AX, @DATA
MOV DS, AX
LEA DX, msg
MOV AH, 9
INT 21h
MOV AH, 4Ch
INT 21h
END start
";
    let result = emulator.assemble_and_load(source);
    assert!(
        result.diagnostics.is_empty(),
        "diagnostics: {:?}",
        result.diagnostics
    );

    assert_ne!(
        emulator.registers.ds, 0,
        "DS must point at the data segment"
    );
    assert_ne!(
        emulator.registers.ss, 0,
        "SS must point at the stack segment"
    );
    assert_eq!(
        emulator.registers.sp, 0x100,
        "SP must start at the declared stack size"
    );

    loop {
        match emulator.step().unwrap() {
            // INT 21h AH=4Ch (terminate) reports Halted too, exactly
            // like a real HLT - it's the program's normal exit here.
            StepOutcome::Halted => break,
            StepOutcome::Continued => {}
            StepOutcome::WaitingForKeyboard => panic!("unexpected keyboard wait"),
        }
    }
    assert_eq!(emulator.console_output(), "Hi");
}

#[test]
fn model_small_program_without_the_boilerplate_still_works() {
    // Real DOS requires MOV AX,@DATA/MOV DS,AX, but this emulator
    // auto-initializes DS to the data segment specifically so
    // programs that skip that boilerplate (common in simple/tutorial
    // emu8086 code) still resolve variables correctly.
    let mut emulator = Emulator::new();
    let source = "\
.MODEL SMALL
.DATA
msg DB \"Hi$\"
.CODE
start:
LEA DX, msg
MOV AH, 9
INT 21h
MOV AH, 4Ch
INT 21h
END start
";
    let result = emulator.assemble_and_load(source);
    assert!(
        result.diagnostics.is_empty(),
        "diagnostics: {:?}",
        result.diagnostics
    );

    loop {
        match emulator.step().unwrap() {
            StepOutcome::Halted => break,
            StepOutcome::Continued => {}
            StepOutcome::WaitingForKeyboard => panic!("unexpected keyboard wait"),
        }
    }
    assert_eq!(emulator.console_output(), "Hi");
}

#[test]
fn flat_style_program_without_directives_still_starts_with_all_segments_zero() {
    // Backward-compatibility guard: a program that never uses
    // .MODEL/.STACK/.DATA/.CODE must see zero change in segment
    // register initialization.
    let mut emulator = Emulator::new();
    emulator.assemble_and_load("MOV AX, 1\nHLT\n");
    assert_eq!(emulator.registers.ds, 0);
    assert_eq!(emulator.registers.ss, 0);
    assert_eq!(emulator.registers.sp, 0);
}

#[test]
fn variables_reads_the_correct_flat_address_once_a_real_data_segment_exists() {
    let mut emulator = Emulator::new();
    let result = emulator.assemble_and_load(".CODE\nMOV AX, 1\nHLT\n.DATA\nvalue DB 42\n");
    assert!(
        result.diagnostics.is_empty(),
        "diagnostics: {:?}",
        result.diagnostics
    );

    let data_base = result.data_segment_base.expect("a .DATA section was used");
    let vars = emulator.variables();
    let value = vars
        .iter()
        .find(|v| v.name == "value")
        .expect("value variable");
    assert_eq!(
        value.address, data_base,
        "must be the true flat address, not the segment-relative offset"
    );
    assert_eq!(value.value, 42);
}
