#![allow(unused_imports)]
use x8086::isa::{Condition, Flag, Instruction, Mnemonic, Operand, Reg16, Reg8, Repeat, Width};
use x8086::assembler::{assemble, tokenize, AssembleResult, Diagnostic, Severity, Span, SymbolKind, SymbolTableEntry, Token, TokenKind};
use x8086::assembler::ast::{DataItem, ParsedExpr, ParsedOperand, SegmentRole, Statement, StatementKind};
use x8086::assembler::encoder::{encode_one, EncodeError};
use x8086::assembler::expr_parser::parse_expr_chain;
use x8086::assembler::mnemonics::{is_noop_directive_keyword, lookup_mnemonic, lookup_repeat_prefix};
use x8086::assembler::numbers::parse_number;
use x8086::assembler::operand_parser::parse_operand;
use x8086::assembler::statement_parser::parse_program;

fn expr_of(source: &str) -> ParsedExpr {
    let tokens = tokenize(source);
    let mut pos = 0;
    parse_expr_chain(&tokens, &mut pos).unwrap()
}

#[test]
fn single_number() {
    assert_eq!(expr_of("42"), ParsedExpr::Number(42));
}

#[test]
fn single_symbol() {
    assert_eq!(expr_of("myVar"), ParsedExpr::Symbol("myVar".to_string()));
}

#[test]
fn symbol_plus_number_chain() {
    assert_eq!(
        expr_of("myVar+2"),
        ParsedExpr::Sum(
            Box::new(ParsedExpr::Symbol("myVar".to_string())),
            Box::new(ParsedExpr::Number(2))
        )
    );
}

#[test]
fn minus_negates_the_following_number() {
    assert_eq!(
        expr_of("10-3"),
        ParsedExpr::Sum(
            Box::new(ParsedExpr::Number(10)),
            Box::new(ParsedExpr::Number(-3))
        )
    );
}

#[test]
fn subtracting_a_symbol_produces_a_diff_node() {
    // Unlike subtracting a literal number, this can't be folded into
    // a negated `Number` term - the symbol's value isn't known until
    // resolution - so it needs real `Diff` representation.
    assert_eq!(
        expr_of("10-myVar"),
        ParsedExpr::Diff(
            Box::new(ParsedExpr::Number(10)),
            Box::new(ParsedExpr::Symbol("myVar".to_string()))
        )
    );
}

#[test]
fn stops_before_an_unrelated_trailing_token() {
    let tokens = tokenize("42, 5");
    let mut pos = 0;
    let expr = parse_expr_chain(&tokens, &mut pos).unwrap();
    assert_eq!(expr, ParsedExpr::Number(42));
    assert_eq!(tokens[pos].text, ",");
}

#[test]
fn dollar_parses_as_a_pseudo_symbol() {
    assert_eq!(expr_of("$"), ParsedExpr::Symbol("$".to_string()));
    // The classic NASM "string length" idiom: `$ - label - 1`.
    // `$ - msg` isn't foldable (msg's value is unknown until
    // resolution) so it becomes a `Diff`; the trailing `- 1` *is* a
    // literal, so it folds into a negated `Number` via `Sum`.
    assert_eq!(
        expr_of("$-msg-1"),
        ParsedExpr::Sum(
            Box::new(ParsedExpr::Diff(
                Box::new(ParsedExpr::Symbol("$".to_string())),
                Box::new(ParsedExpr::Symbol("msg".to_string())),
            )),
            Box::new(ParsedExpr::Number(-1)),
        )
    );
}

#[test]
fn subtracting_dollar_also_produces_a_diff_node() {
    assert_eq!(
        expr_of("10-$"),
        ParsedExpr::Diff(
            Box::new(ParsedExpr::Number(10)),
            Box::new(ParsedExpr::Symbol("$".to_string()))
        )
    );
}

#[test]
fn does_not_swallow_a_following_identifier_without_an_operator() {
    // "5 DUP" must parse as just the number 5, leaving "DUP" for the
    // caller (DB/DW item parsing) to recognize - not "5 + DUP".
    let tokens = tokenize("5 dup");
    let mut pos = 0;
    let expr = parse_expr_chain(&tokens, &mut pos).unwrap();
    assert_eq!(expr, ParsedExpr::Number(5));
    assert_eq!(tokens[pos].text, "dup");
}
