#![allow(unused_imports)]
use x8086::isa::{Condition, Flag, Instruction, Mnemonic, Operand, Reg16, Reg8, Repeat, Width};
use x8086::assembler::{assemble, tokenize, AssembleResult, Diagnostic, Severity, Span, SymbolKind, SymbolTableEntry, Token, TokenKind};
use x8086::assembler::ast::{DataItem, ParsedExpr, ParsedOperand, SegmentRole, Statement, StatementKind};
use x8086::assembler::encoder::{encode_one, EncodeError};
use x8086::assembler::expr_parser::parse_expr_chain;
use x8086::assembler::mnemonics::{is_noop_directive_keyword, lookup_mnemonic, lookup_repeat_prefix};
use x8086::assembler::numbers::parse_number;
use x8086::assembler::operand_parser::parse_operand;
use x8086::assembler::statement_parser::parse_program;

fn operand_of(source: &str) -> ParsedOperand {
    let tokens = tokenize(source);
    let mut pos = 0;
    parse_operand(&tokens, &mut pos).unwrap()
}

#[test]
fn parses_16bit_register() {
    assert_eq!(operand_of("AX"), ParsedOperand::Reg16(Reg16::Ax));
}

#[test]
fn parses_8bit_register() {
    assert_eq!(operand_of("AL"), ParsedOperand::Reg8(Reg8::Al));
}

#[test]
fn parses_immediate_number() {
    assert_eq!(
        operand_of("5"),
        ParsedOperand::Immediate(ParsedExpr::Number(5))
    );
    assert_eq!(
        operand_of("0FFh"),
        ParsedOperand::Immediate(ParsedExpr::Number(0xFF))
    );
}

#[test]
fn parses_bare_symbol_as_immediate() {
    assert_eq!(
        operand_of("myLabel"),
        ParsedOperand::Immediate(ParsedExpr::Symbol("myLabel".to_string()))
    );
}

#[test]
fn parses_dollar_as_an_immediate_operand() {
    assert_eq!(
        operand_of("$"),
        ParsedOperand::Immediate(ParsedExpr::Symbol("$".to_string()))
    );
}

#[test]
fn offset_keyword_wraps_the_expression_in_an_offset_node() {
    // OFFSET must stay distinguishable from a bare reference - they
    // aren't always the same thing (see `ParsedExpr::Offset`'s docs:
    // MASM/emu8086 dereferences a bare `DB`/`DW` reference, but
    // `OFFSET` always means "the address," in every dialect).
    assert_eq!(
        operand_of("OFFSET myLabel"),
        ParsedOperand::Immediate(ParsedExpr::Offset(Box::new(ParsedExpr::Symbol(
            "myLabel".to_string()
        ))))
    );
}

#[test]
fn parses_a_single_character_literal_as_its_ascii_code() {
    assert_eq!(
        operand_of("'0'"),
        ParsedOperand::Immediate(ParsedExpr::Number(b'0' as i64))
    );
    assert_eq!(
        operand_of("'A'"),
        ParsedOperand::Immediate(ParsedExpr::Number(b'A' as i64))
    );
}

#[test]
fn rejects_a_multi_character_literal_operand() {
    let tokens = tokenize("'AB'");
    let mut pos = 0;
    assert!(parse_operand(&tokens, &mut pos).is_err());
}

#[test]
fn parses_simple_memory_operand() {
    assert_eq!(
        operand_of("[BX]"),
        ParsedOperand::Memory {
            size_override: None,
            segment_override: None,
            base: Some(Reg16::Bx),
            index: None,
            displacement: None
        }
    );
}

#[test]
fn parses_base_plus_index_plus_displacement() {
    let op = operand_of("[BX+SI+4]");
    assert_eq!(
        op,
        ParsedOperand::Memory {
            size_override: None,
            segment_override: None,
            base: Some(Reg16::Bx),
            index: Some(Reg16::Si),
            displacement: Some(ParsedExpr::Number(4)),
        }
    );
}

#[test]
fn parses_direct_address_memory_operand() {
    let op = operand_of("[1234h]");
    assert_eq!(
        op,
        ParsedOperand::Memory {
            size_override: None,
            segment_override: None,
            base: None,
            index: None,
            displacement: Some(ParsedExpr::Number(0x1234))
        }
    );
}

#[test]
fn parses_symbol_memory_operand() {
    let op = operand_of("[myVar]");
    assert_eq!(
        op,
        ParsedOperand::Memory {
            size_override: None,
            segment_override: None,
            base: None,
            index: None,
            displacement: Some(ParsedExpr::Symbol("myVar".to_string())),
        }
    );
}

#[test]
fn parses_byte_ptr_size_override() {
    let op = operand_of("BYTE PTR [BX]");
    assert_eq!(
        op,
        ParsedOperand::Memory {
            size_override: Some(Width::Byte),
            segment_override: None,
            base: Some(Reg16::Bx),
            index: None,
            displacement: None
        }
    );
}

#[test]
fn parses_nasm_style_word_size_override_without_ptr() {
    // NASM drops "PTR": `WORD [BX]` instead of `WORD PTR [BX]`.
    assert_eq!(operand_of("WORD [BX]"), operand_of("WORD PTR [BX]"));
    let op = operand_of("word [bp-2]");
    assert_eq!(
        op,
        ParsedOperand::Memory {
            size_override: Some(Width::Word),
            segment_override: None,
            base: Some(Reg16::Bp),
            index: None,
            displacement: Some(ParsedExpr::Number(-2)),
        }
    );
}

#[test]
fn a_symbol_named_word_without_a_following_bracket_is_not_a_size_override() {
    // "word" alone (no "[" after it) must still parse as a plain
    // symbol reference, not silently swallowed as a size prefix.
    assert_eq!(
        operand_of("word"),
        ParsedOperand::Immediate(ParsedExpr::Symbol("word".to_string()))
    );
}

#[test]
fn parses_segment_override() {
    let op = operand_of("ES:[BX]");
    assert_eq!(
        op,
        ParsedOperand::Memory {
            size_override: None,
            segment_override: Some(Reg16::Es),
            base: Some(Reg16::Bx),
            index: None,
            displacement: None
        }
    );
}

#[test]
fn rejects_sp_as_a_memory_base_register() {
    let tokens = tokenize("[SP]");
    let mut pos = 0;
    assert!(
        parse_operand(&tokens, &mut pos).is_err(),
        "SP is not a valid 8086 addressing-mode register"
    );
}

#[test]
fn rejects_a_third_register_in_a_memory_operand() {
    let tokens = tokenize("[BX+SI+DI]");
    let mut pos = 0;
    assert!(parse_operand(&tokens, &mut pos).is_err());
}

#[test]
fn rejects_unterminated_memory_operand() {
    let tokens = tokenize("[BX");
    let mut pos = 0;
    assert!(parse_operand(&tokens, &mut pos).is_err());
}

#[test]
fn requires_an_explicit_operator_between_memory_terms() {
    let tokens = tokenize("[BX SI]");
    let mut pos = 0;
    assert!(
        parse_operand(&tokens, &mut pos).is_err(),
        "'[BX SI]' without a '+' must not silently parse as [BX+SI]"
    );
}

#[test]
fn symbol_bracket_indexing_is_sugar_for_symbol_plus_displacement() {
    // The exact shape that used to fail with "unexpected token '['
    // after operand" - MASM/emu8086's `buff1[1]` reads as `[buff1+1]`.
    assert_eq!(operand_of("buff1[1]"), operand_of("[buff1+1]"));
}

#[test]
fn symbol_bracket_indexing_with_a_register_inside() {
    // `table[SI]` == `[table+SI]` - the classic array-indexing idiom.
    assert_eq!(operand_of("table[SI]"), operand_of("[table+SI]"));
}

#[test]
fn register_bracket_indexing_is_sugar_for_register_plus_displacement() {
    assert_eq!(operand_of("BX[2]"), operand_of("[BX+2]"));
}

#[test]
fn register_bracket_indexing_with_a_second_register_inside() {
    assert_eq!(operand_of("BX[SI]"), operand_of("[BX+SI]"));
}

#[test]
fn rejects_bracket_indexing_off_a_non_addressing_register() {
    // AX can't be a base/index register, with or without the [...]
    // sugar - the same restriction `[AX]` already has.
    let tokens = tokenize("AX[2]");
    let mut pos = 0;
    assert!(parse_operand(&tokens, &mut pos).is_err());
}

#[test]
fn bracket_indexing_still_rejects_a_third_register() {
    let tokens = tokenize("BX[SI+DI]");
    let mut pos = 0;
    assert!(parse_operand(&tokens, &mut pos).is_err());
}
