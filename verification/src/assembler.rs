//! The emu8086-syntax assembler: lexer, parser and two-pass code
//! generator.
pub mod lexer;
pub mod numbers;
pub mod mnemonics;
pub mod ast;
pub mod parse_error;
pub mod expr_parser;
pub mod operand_parser;
pub mod statement_parser;
pub mod encoder;
pub mod symbols;
pub mod codegen;
pub mod round_trip;

pub use lexer::{tokenize, Span, Token, TokenKind};
pub use codegen::{assemble, AssembleResult, Diagnostic, Severity, SymbolTableEntry};
pub use symbols::SymbolKind;
