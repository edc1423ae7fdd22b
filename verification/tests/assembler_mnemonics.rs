#![allow(unused_imports)]
use x8086::isa::{Condition, Flag, Instruction, Mnemonic, Operand, Reg16, Reg8, Repeat, Width};
use x8086::assembler::{assemble, tokenize, AssembleResult, Diagnostic, Severity, Span, SymbolKind, SymbolTableEntry, Token, TokenKind};
use x8086::assembler::ast::{DataItem, ParsedExpr, ParsedOperand, SegmentRole, Statement, StatementKind};
use x8086::assembler::encoder::{encode_one, EncodeError};
use x8086::assembler::expr_parser::parse_expr_chain;
use x8086::assembler::mnemonics::{is_noop_directive_keyword, lookup_mnemonic, lookup_repeat_prefix};
use x8086::assembler::numbers::parse_number;
use x8086::assembler::operand_parser::parse_operand;
use x8086::assembler::statement_parser::parse_program;

#[test]
fn resolves_basic_mnemonics_case_insensitively() {
    assert_eq!(lookup_mnemonic("mov"), Some(Mnemonic::Mov));
    assert_eq!(lookup_mnemonic("MOV"), Some(Mnemonic::Mov));
    assert_eq!(lookup_mnemonic("Mov"), Some(Mnemonic::Mov));
}

#[test]
fn conditional_jump_aliases_map_to_the_same_condition() {
    assert_eq!(lookup_mnemonic("JE"), lookup_mnemonic("JZ"));
    assert_eq!(lookup_mnemonic("JB"), lookup_mnemonic("JNAE"));
    assert_eq!(lookup_mnemonic("JB"), lookup_mnemonic("JC"));
    assert_eq!(lookup_mnemonic("JG"), lookup_mnemonic("JNLE"));
}

#[test]
fn unknown_text_is_none() {
    assert_eq!(lookup_mnemonic("FROBNICATE"), None);
}

#[test]
fn sal_is_an_alias_for_shl() {
    assert_eq!(lookup_mnemonic("SAL"), Some(Mnemonic::Shl));
    assert_eq!(lookup_mnemonic("SHL"), Some(Mnemonic::Shl));
}

#[test]
fn resolves_shift_rotate_and_unary_group_mnemonics() {
    for (text, expected) in [
        ("SHR", Mnemonic::Shr),
        ("SAR", Mnemonic::Sar),
        ("ROL", Mnemonic::Rol),
        ("ROR", Mnemonic::Ror),
        ("RCL", Mnemonic::Rcl),
        ("RCR", Mnemonic::Rcr),
        ("MUL", Mnemonic::Mul),
        ("IMUL", Mnemonic::Imul),
        ("DIV", Mnemonic::Div),
        ("IDIV", Mnemonic::Idiv),
        ("NEG", Mnemonic::Neg),
        ("NOT", Mnemonic::Not),
    ] {
        assert_eq!(lookup_mnemonic(text), Some(expected), "for {text}");
    }
}

#[test]
fn resolves_string_instruction_mnemonics() {
    for (text, expected) in [
        ("MOVSB", Mnemonic::Movsb),
        ("MOVSW", Mnemonic::Movsw),
        ("CMPSB", Mnemonic::Cmpsb),
        ("CMPSW", Mnemonic::Cmpsw),
        ("STOSB", Mnemonic::Stosb),
        ("STOSW", Mnemonic::Stosw),
        ("LODSB", Mnemonic::Lodsb),
        ("LODSW", Mnemonic::Lodsw),
        ("SCASB", Mnemonic::Scasb),
        ("SCASW", Mnemonic::Scasw),
    ] {
        assert_eq!(lookup_mnemonic(text), Some(expected), "for {text}");
    }
}

#[test]
fn resolves_repeat_prefix_keywords() {
    assert_eq!(lookup_repeat_prefix("REP"), Some(Repeat::Rep));
    assert_eq!(lookup_repeat_prefix("repe"), Some(Repeat::Repe));
    assert_eq!(lookup_repeat_prefix("REPZ"), Some(Repeat::Repe));
    assert_eq!(
        lookup_repeat_prefix("REPNE"),
        Some(Repeat::Repne)
    );
    assert_eq!(
        lookup_repeat_prefix("REPNZ"),
        Some(Repeat::Repne)
    );
    assert_eq!(lookup_repeat_prefix("MOV"), None);
}
