//! The register file, FLAGS computation, operand access and instruction
//! execution.
pub mod execute;
pub mod flags;
pub mod operand;
pub mod registers;

pub use registers::Registers;
