#![allow(unused_imports)]
use x8086::isa::{Condition, Flag, Instruction, Mnemonic, Operand, Reg16, Reg8, Repeat, Width};
use x8086::assembler::{assemble, tokenize, AssembleResult, Diagnostic, Severity, Span, SymbolKind, SymbolTableEntry, Token, TokenKind};
use x8086::assembler::ast::{DataItem, ParsedExpr, ParsedOperand, SegmentRole, Statement, StatementKind};
use x8086::assembler::encoder::{encode_one, EncodeError};
use x8086::assembler::expr_parser::parse_expr_chain;
use x8086::assembler::mnemonics::{is_noop_directive_keyword, lookup_mnemonic, lookup_repeat_prefix};
use x8086::assembler::numbers::parse_number;
use x8086::assembler::operand_parser::parse_operand;
use x8086::assembler::statement_parser::parse_program;

#[test]
fn parses_label_only_line() {
    let (stmts, errors) = parse_program("start:");
    assert!(errors.is_empty());
    assert_eq!(
        stmts,
        vec![Statement {
            kind: StatementKind::Label("start".to_string()),
            line: 1
        }]
    );
}

#[test]
fn parses_label_and_instruction_on_one_line() {
    let (stmts, errors) = parse_program("start: HLT");
    assert!(errors.is_empty());
    assert_eq!(stmts.len(), 2);
    assert_eq!(stmts[0].kind, StatementKind::Label("start".to_string()));
    assert_eq!(
        stmts[1].kind,
        StatementKind::Instruction {
            mnemonic: Mnemonic::Hlt,
            operands: vec![],
            short_jump: false,
            repeat: None,
        }
    );
}

#[test]
fn parses_instruction_with_two_operands() {
    let (stmts, errors) = parse_program("MOV AX, 5");
    assert!(errors.is_empty());
    assert_eq!(stmts.len(), 1);
    assert_eq!(
        stmts[0].kind,
        StatementKind::Instruction {
            mnemonic: Mnemonic::Mov,
            operands: vec![
                ParsedOperand::Reg16(Reg16::Ax),
                ParsedOperand::Immediate(ParsedExpr::Number(5))
            ],
            short_jump: false,
            repeat: None,
        }
    );
}

#[test]
fn parses_conditional_jump_alias() {
    let (stmts, errors) = parse_program("JZ done");
    assert!(errors.is_empty());
    match &stmts[0].kind {
        StatementKind::Instruction { mnemonic, .. } => {
            assert_eq!(*mnemonic, Mnemonic::Jcc(Condition::Equal))
        }
        other => panic!("expected an instruction, got {other:?}"),
    }
}

#[test]
fn parses_jmp_short() {
    let (stmts, errors) = parse_program("JMP SHORT done");
    assert!(errors.is_empty());
    match &stmts[0].kind {
        StatementKind::Instruction { short_jump, .. } => assert!(*short_jump),
        other => panic!("expected an instruction, got {other:?}"),
    }
}

#[test]
fn parses_org_directive() {
    let (stmts, errors) = parse_program("ORG 100h");
    assert!(errors.is_empty());
    assert_eq!(
        stmts[0].kind,
        StatementKind::Org(ParsedExpr::Number(0x100))
    );
}

#[test]
fn parses_equ_directive() {
    let (stmts, errors) = parse_program("COUNT EQU 10");
    assert!(errors.is_empty());
    assert_eq!(
        stmts[0].kind,
        StatementKind::Equ {
            name: "COUNT".to_string(),
            value: ParsedExpr::Number(10)
        }
    );
}

#[test]
fn parses_named_db_with_string_and_number_items() {
    let (stmts, errors) = parse_program("msg DB \"hi\", 0");
    assert!(errors.is_empty());
    assert_eq!(stmts.len(), 2);
    assert_eq!(stmts[0].kind, StatementKind::Label("msg".to_string()));
    assert_eq!(
        stmts[1].kind,
        StatementKind::Db(vec![
            DataItem::Str("hi".to_string()),
            DataItem::Value(ParsedExpr::Number(0))
        ])
    );
}

#[test]
fn parses_dup_directive() {
    let (stmts, errors) = parse_program("buf DB 10 DUP(?)");
    assert!(errors.is_empty());
    assert_eq!(
        stmts[1].kind,
        StatementKind::Db(vec![DataItem::Dup {
            count: ParsedExpr::Number(10),
            item: Box::new(DataItem::Uninitialized)
        }])
    );
}

#[test]
fn parses_dw_with_zero_initializer() {
    let (stmts, errors) = parse_program("counter DW 0");
    assert!(errors.is_empty());
    assert_eq!(stmts[0].kind, StatementKind::Label("counter".to_string()));
    assert_eq!(
        stmts[1].kind,
        StatementKind::Dw(vec![DataItem::Value(ParsedExpr::Number(0))])
    );
}

#[test]
fn parses_end_with_entry_label() {
    let (stmts, errors) = parse_program("END start");
    assert!(errors.is_empty());
    assert_eq!(stmts[0].kind, StatementKind::End(Some("start".to_string())));
}

#[test]
fn noop_directives_produce_no_statements_but_no_error() {
    let (stmts, errors) =
        parse_program(".MODEL SMALL\nSEGMENT CODE\nENDS\nASSUME CS:CODE\nENDP\nHLT");
    assert!(errors.is_empty());
    assert_eq!(stmts.len(), 1); // only the HLT
    assert_eq!(
        stmts[0].kind,
        StatementKind::Instruction {
            mnemonic: Mnemonic::Hlt,
            operands: vec![],
            short_jump: false,
            repeat: None,
        }
    );
}

#[test]
fn stack_data_code_directives_produce_real_statements() {
    let (stmts, errors) = parse_program(".STACK 100h\n.DATA\n.CODE\nHLT");
    assert!(errors.is_empty(), "errors: {errors:?}");
    assert_eq!(stmts.len(), 4);
    assert_eq!(
        stmts[0].kind,
        StatementKind::Stack(ParsedExpr::Number(0x100))
    );
    assert_eq!(
        stmts[1].kind,
        StatementKind::SegmentSwitch(SegmentRole::Data)
    );
    assert_eq!(
        stmts[2].kind,
        StatementKind::SegmentSwitch(SegmentRole::Code)
    );
    assert_eq!(
        stmts[3].kind,
        StatementKind::Instruction {
            mnemonic: Mnemonic::Hlt,
            operands: vec![],
            short_jump: false,
            repeat: None,
        }
    );
}

#[test]
fn blank_lines_and_comments_are_skipped() {
    let (stmts, errors) = parse_program("; a comment\n\nHLT\n; trailing comment\n");
    assert!(errors.is_empty());
    assert_eq!(stmts.len(), 1);
}

#[test]
fn unrecognized_statement_is_a_recoverable_error() {
    let (stmts, errors) = parse_program("FROBNICATE AX\nHLT");
    assert_eq!(errors.len(), 1);
    assert_eq!(errors[0].span.line, 1);
    // recovery: the next line still parses.
    assert_eq!(stmts.len(), 1);
    assert_eq!(
        stmts[0].kind,
        StatementKind::Instruction {
            mnemonic: Mnemonic::Hlt,
            operands: vec![],
            short_jump: false,
            repeat: None,
        }
    );
}

#[test]
fn trailing_garbage_after_a_complete_statement_is_an_error() {
    let (_, errors) = parse_program("MOV AX, 5 6");
    assert_eq!(errors.len(), 1);
}

#[test]
fn line_numbers_are_tracked_across_multiple_lines() {
    let (stmts, _) = parse_program("HLT\nHLT\nHLT");
    assert_eq!(stmts[0].line, 1);
    assert_eq!(stmts[1].line, 2);
    assert_eq!(stmts[2].line, 3);
}

#[test]
fn name_endp_closes_a_proc_without_erroring() {
    let (stmts, errors) = parse_program("MAIN PROC\nHLT\nMAIN ENDP\nEND MAIN");
    assert!(errors.is_empty(), "errors: {errors:?}");
    // MAIN (label), HLT, END - the ENDP line produces nothing.
    assert_eq!(stmts.len(), 3);
    assert_eq!(stmts[0].kind, StatementKind::Label("MAIN".to_string()));
}

#[test]
fn section_text_and_data_map_onto_segment_switch() {
    let (stmts, errors) = parse_program("SECTION .text\nHLT\nSECTION .data\nHLT");
    assert!(errors.is_empty(), "errors: {errors:?}");
    assert_eq!(
        stmts[0].kind,
        StatementKind::SegmentSwitch(SegmentRole::Code)
    );
    assert_eq!(
        stmts[2].kind,
        StatementKind::SegmentSwitch(SegmentRole::Data)
    );
}

#[test]
fn section_with_an_unknown_name_is_an_error() {
    let (_, errors) = parse_program("SECTION .rodata");
    assert_eq!(errors.len(), 1);
}

#[test]
fn named_times_directive_desugars_to_dup() {
    let (stmts, errors) = parse_program("dst times 32 db 0");
    assert!(errors.is_empty(), "errors: {errors:?}");
    assert_eq!(stmts.len(), 2);
    assert_eq!(stmts[0].kind, StatementKind::Label("dst".to_string()));
    assert_eq!(
        stmts[1].kind,
        StatementKind::Db(vec![DataItem::Dup {
            count: ParsedExpr::Number(32),
            item: Box::new(DataItem::Value(ParsedExpr::Number(0))),
        }])
    );
}

#[test]
fn bare_times_directive_without_a_label_works() {
    let (stmts, errors) = parse_program("TIMES 4 DW 0");
    assert!(errors.is_empty(), "errors: {errors:?}");
    assert_eq!(stmts.len(), 1);
    assert_eq!(
        stmts[0].kind,
        StatementKind::Dw(vec![DataItem::Dup {
            count: ParsedExpr::Number(4),
            item: Box::new(DataItem::Value(ParsedExpr::Number(0))),
        }])
    );
}

#[test]
fn rep_prefix_attaches_to_a_string_instruction() {
    let (stmts, errors) = parse_program("REP MOVSB");
    assert!(errors.is_empty(), "errors: {errors:?}");
    assert_eq!(
        stmts[0].kind,
        StatementKind::Instruction {
            mnemonic: Mnemonic::Movsb,
            operands: vec![],
            short_jump: false,
            repeat: Some(Repeat::Rep),
        }
    );
}

#[test]
fn repe_and_repne_prefixes_resolve_to_the_right_repeat_variant() {
    let (stmts, errors) = parse_program("REPE CMPSB\nREPNE SCASB");
    assert!(errors.is_empty(), "errors: {errors:?}");
    match &stmts[0].kind {
        StatementKind::Instruction { repeat, .. } => {
            assert_eq!(*repeat, Some(Repeat::Repe))
        }
        other => panic!("expected an instruction, got {other:?}"),
    }
    match &stmts[1].kind {
        StatementKind::Instruction { repeat, .. } => {
            assert_eq!(*repeat, Some(Repeat::Repne))
        }
        other => panic!("expected an instruction, got {other:?}"),
    }
}

#[test]
fn rep_prefix_on_a_non_string_instruction_is_a_diagnostic() {
    let (_, errors) = parse_program("REP MOV AX, BX");
    assert_eq!(errors.len(), 1);
}
