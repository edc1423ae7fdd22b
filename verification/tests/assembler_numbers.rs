#![allow(unused_imports)]
use x8086::isa::{Condition, Flag, Instruction, Mnemonic, Operand, Reg16, Reg8, Repeat, Width};
use x8086::assembler::{assemble, tokenize, AssembleResult, Diagnostic, Severity, Span, SymbolKind, SymbolTableEntry, Token, TokenKind};
use x8086::assembler::ast::{DataItem, ParsedExpr, ParsedOperand, SegmentRole, Statement, StatementKind};
use x8086::assembler::encoder::{encode_one, EncodeError};
use x8086::assembler::expr_parser::parse_expr_chain;
use x8086::assembler::mnemonics::{is_noop_directive_keyword, lookup_mnemonic, lookup_repeat_prefix};
use x8086::assembler::numbers::parse_number;
use x8086::assembler::operand_parser::parse_operand;
use x8086::assembler::statement_parser::parse_program;

#[test]
fn plain_decimal() {
    assert_eq!(parse_number("42"), Some(42));
    assert_eq!(parse_number("0"), Some(0));
}

#[test]
fn decimal_with_explicit_suffix() {
    assert_eq!(parse_number("42d"), Some(42));
    assert_eq!(parse_number("42D"), Some(42));
}

#[test]
fn hexadecimal() {
    assert_eq!(parse_number("0FFh"), Some(0xFF));
    assert_eq!(parse_number("1234H"), Some(0x1234));
}

#[test]
fn binary() {
    assert_eq!(parse_number("1010b"), Some(0b1010));
    assert_eq!(parse_number("0b"), Some(0));
}

#[test]
fn octal() {
    assert_eq!(parse_number("17o"), Some(0o17));
    assert_eq!(parse_number("17q"), Some(0o17));
}

#[test]
fn malformed_binary_suffix_is_rejected_not_misread() {
    // "19b" isn't valid binary (9 isn't 0/1), and without an 'h'
    // suffix it also isn't valid hex, so this must fail to parse
    // rather than silently guessing.
    assert_eq!(parse_number("19b"), None);
}

#[test]
fn garbage_is_none() {
    assert_eq!(parse_number("12h3"), None);
    assert_eq!(parse_number(""), None);
}

#[test]
fn nasm_style_prefixed_literals() {
    assert_eq!(parse_number("0xF9"), Some(0xF9));
    assert_eq!(parse_number("0XfF"), Some(0xFF));
    assert_eq!(parse_number("0b1011"), Some(0b1011));
    assert_eq!(parse_number("0o17"), Some(0o17));
}

#[test]
fn both_notations_agree_on_the_same_value() {
    assert_eq!(parse_number("0xF9"), parse_number("0F9h"));
    assert_eq!(parse_number("0b1010"), parse_number("1010b"));
    assert_eq!(parse_number("0o17"), parse_number("17o"));
}

#[test]
fn a_masm_hex_literal_that_looks_like_a_binary_prefix_still_parses_as_hex() {
    // "0B8h" starts with what looks like NASM's `0b` binary prefix,
    // but "8h" isn't binary - the suffix reading (0B8h = 184) is the
    // only valid one, so a failed prefix parse must fall through
    // rather than reject the literal outright.
    assert_eq!(parse_number("0B8h"), Some(0xB8));
    assert_eq!(parse_number("0b1h"), Some(0xB1));
}

#[test]
fn a_bare_0b_is_still_binary_zero() {
    // Unchanged by prefix support: there are no digits after the
    // prefix, so this stays the suffix reading (binary "0").
    assert_eq!(parse_number("0b"), Some(0));
}

#[test]
fn malformed_prefixed_literals_are_rejected() {
    assert_eq!(parse_number("0x"), None);
    assert_eq!(parse_number("0xZZ"), None);
    assert_eq!(parse_number("0b12"), None);
}
