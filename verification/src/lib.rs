//! An 8086/80186 assembler, emulator and debugger core.
pub mod isa;
pub mod memory;
pub mod cpu;
pub mod decoder;
pub mod textfmt;
pub mod words;
pub mod assembler;
pub mod debugger;
pub mod interrupts;
pub mod emulator;
