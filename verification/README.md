# x8086

An 8086/80186 assembler, emulator and debugger core, written in Verus:
every function of the library carries a contract that Verus proves,
except two small trusted wrappers over std whose contracts Verus takes
as given: `textfmt::push_char` (`String::push`) and
`assembler::lexer::text_from_bytes` (`String::from_utf8_lossy`, whose
result is named `lossy_text`).

## Layout

- `src/isa.rs`: the instruction model (mnemonics, registers, operands).
- `src/memory.rs`: 1MB real-mode memory with segment:offset resolution and
  a record of byte writes (what undo is built from).
- `src/cpu/`: the register file, FLAGS computation, operand access and the
  execution of every instruction (`spec_execute` states each one).
- `src/decoder.rs`, `src/decoder/`: bytes to instructions (`spec_decode`)
  and instructions to assembly text.
- `src/assembler/`: lexer, parsers, encoder and the two-pass code
  generator of the emu8086/MASM/NASM-style assembler;
  `round_trip.rs` proves that every instruction the decoder produces
  re-encodes to bytes that decode back to the same instruction
  (`XCHG reg16, AX` aside, which re-encodes in the short
  `XCHG AX, reg16` form). Instructions the decoder never produces are
  not covered.
- `src/debugger.rs`, `src/debugger/watch.rs`: breakpoints, the undo
  history and watch expressions.
- `src/interrupts.rs`: the simulated BIOS/DOS services (console output,
  keyboard input, terminate) and code page 437.
- `src/emulator.rs`: the stateful facade; `step` fetches at CS:IP (step, run, step back, watches,
  variables, disassembly); `lemma_step_back_undoes_step` proves that
  stepping back after a step restores registers and memory.
- `app/lib.rs`: Swift bindings (uniffi) around the facade.
- `tests/`: the test suite, run against the compiled library.
