#![allow(unused_imports)]
use x8086::isa::{Condition, Flag, Instruction, Mnemonic, Operand, Reg16, Reg8, Repeat, Width};
use x8086::assembler::{assemble, tokenize, AssembleResult, Diagnostic, Severity, Span, SymbolKind, SymbolTableEntry, Token, TokenKind};
use x8086::assembler::ast::{DataItem, ParsedExpr, ParsedOperand, SegmentRole, Statement, StatementKind};
use x8086::assembler::encoder::{encode_one, EncodeError};
use x8086::assembler::expr_parser::parse_expr_chain;
use x8086::assembler::mnemonics::{is_noop_directive_keyword, lookup_mnemonic, lookup_repeat_prefix};
use x8086::assembler::numbers::parse_number;
use x8086::assembler::operand_parser::parse_operand;
use x8086::assembler::statement_parser::parse_program;

#[test]
fn tokenizes_a_mov_instruction() {
    let tokens = tokenize("MOV AX, 5");
    let kinds: Vec<_> = tokens.iter().map(|t| t.kind).collect();
    assert_eq!(
        kinds,
        vec![
            TokenKind::Identifier,  // "MOV" - mnemonic classification is the parser's job
            TokenKind::Register,    // "AX"
            TokenKind::Punctuation, // ","
            TokenKind::Number,      // "5"
        ]
    );
    assert_eq!(tokens[0].text, "MOV".to_string());
}

#[test]
fn identifiers_starting_with_dot_or_at_terminate_and_tokenize_correctly() {
    // Regression test: '.' and '@' are valid identifier *starts*
    // (".MODEL", "@@local") but not valid continuation characters,
    // so the identifier scanner must unconditionally consume the
    // start character before checking the continuation predicate -
    // otherwise it never advances and tokenize() loops forever.
    let tokens = tokenize(".MODEL SMALL");
    assert_eq!(tokens[0].kind, TokenKind::Identifier);
    assert_eq!(tokens[0].text, ".MODEL");
    assert_eq!(tokens[1].text, "SMALL");
}

#[test]
fn register_names_are_case_insensitive() {
    // tokens: "mov"(0) "ax"(1) ","(2) "bx"(3)
    let tokens = tokenize("mov ax, bx");
    assert_eq!(tokens[1].kind, TokenKind::Register);
    assert_eq!(tokens[3].kind, TokenKind::Register);
}

#[test]
fn non_register_words_are_plain_identifiers() {
    // The lexer only classifies register names; mnemonics, labels, and
    // variable names are all `Identifier` until the parser (a later
    // phase) resolves what role each one plays.
    let tokens = tokenize("MOV counter, 5");
    assert_eq!(tokens[0].kind, TokenKind::Identifier); // "MOV"
    assert_eq!(tokens[1].kind, TokenKind::Identifier); // "counter"
}

#[test]
fn comment_runs_to_end_of_line() {
    let tokens = tokenize("MOV AX, 5 ; load count\nHLT");
    let comment = tokens
        .iter()
        .find(|t| t.kind == TokenKind::Comment)
        .unwrap();
    assert_eq!(comment.text, "; load count");
}

#[test]
fn string_literal_captures_quotes() {
    let tokens = tokenize("DB \"hi$\"");
    let s = tokens
        .iter()
        .find(|t| t.kind == TokenKind::StringLiteral)
        .unwrap();
    assert_eq!(s.text, "\"hi$\"");
}

#[test]
fn tracks_line_and_column_across_newlines() {
    let tokens = tokenize("MOV\nHLT");
    let hlt = tokens.iter().find(|t| t.text == "HLT").unwrap();
    assert_eq!(hlt.span.line, 2);
    assert_eq!(hlt.span.col, 1);
}

#[test]
fn assemble_encodes_a_simple_instruction() {
    let result = assemble("MOV AX, 5");
    assert!(result.diagnostics.is_empty());
    assert_eq!(result.machine_code, vec![0xB8, 0x05, 0x00]);
}
