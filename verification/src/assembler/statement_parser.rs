//! One source line's tokens to zero or more statements. A line can hold
//! a label and content together (`again: ADD AX, BX`), which gives a
//! `Label` statement followed by the content, both with the line's
//! number.
use super::ast::{
    items_view, operands_view, DataItem, DataView, ExprView, KindView, OperandView,
    ParsedOperand, SegmentRole, Statement, StatementKind, StatementView, statements_view,
};
use super::expr_parser::{
    expr_chain_at, is_keyword, is_punct, keyword_at, keyword_is, lemma_expr_advances,
    parse_expr_chain, punct_at, punct_is,
};
use super::lexer::{lex_from, tokenize, Span, Token, TokenKind};
use super::mnemonics::{
    is_noop_directive, is_noop_directive_keyword, lookup_mnemonic, lookup_repeat_prefix,
    mnemonic_named, repeat_named,
};
use super::operand_parser::{lemma_operand_advances, operand_at, parse_operand};
use super::parse_error::{empty_span, no_span, quoted, text_of, Fault, ParseError};
use crate::isa::{Mnemonic, Repeat};
use crate::textfmt::push_char;
use crate::words::{chars_of, upper};
use vstd::prelude::*;
use vstd::string::StringSliceAdditionalSpecFns;

verus! {

/// The operands from `pos` on, separated by commas, up to the end of the
/// line; `acc` holds those already read.
pub open spec fn operands_from(toks: Seq<Token>, pos: int, acc: Seq<OperandView>) -> Result<
    (Seq<OperandView>, int),
    Fault,
>
    decreases toks.len() - pos,
{
    if pos < 0 || pos > toks.len() {
        Err((no_span(), "expected an operand"@))
    } else {
        match operand_at(toks, pos) {
            Err(e) => Err(e),
            Ok((op, q)) => {
                proof {
                    lemma_operand_advances(toks, pos);
                }
                if q >= toks.len() {
                    Ok((acc.push(op), q))
                } else if punct_is(toks[q], ","@) {
                    operands_from(toks, q + 1, acc.push(op))
                } else {
                    Err((toks[q].span, "unexpected token '"@ + toks[q].text@ + "' after operand"@))
                }
            },
        }
    }
}

/// An instruction's operand list: empty at the end of the line.
pub open spec fn operand_list_at(toks: Seq<Token>, pos: int) -> Result<
    (Seq<OperandView>, int),
    Fault,
> {
    if pos >= toks.len() {
        Ok((Seq::empty(), pos))
    } else {
        operands_from(toks, pos, Seq::empty())
    }
}

/// A quoted text without its first and last characters.
pub open spec fn unquoted(t: Seq<char>) -> Seq<char> {
    if t.len() >= 2 {
        t.subrange(1, t.len() - 1)
    } else {
        Seq::empty()
    }
}

/// One data item: a string, `?`, `count DUP (item)` or a value.
pub open spec fn data_item_at(toks: Seq<Token>, pos: int) -> Result<(DataView, int), Fault>
    decreases toks.len() - pos,
{
    if pos < 0 || pos >= toks.len() {
        Err((no_span(), "expected a data item"@))
    } else {
        let tok = toks[pos];
        if tok.kind == TokenKind::StringLiteral {
            Ok((DataView::Str(unquoted(tok.text@)), pos + 1))
        } else if punct_is(tok, "?"@) {
            Ok((DataView::Uninitialized, pos + 1))
        } else {
            match expr_chain_at(toks, pos) {
                Err(e) => Err(e),
                Ok((count, q)) => {
                    proof {
                        lemma_expr_advances(toks, pos);
                    }
                    if keyword_at(toks, q, "dup"@) {
                        if q + 1 >= toks.len() {
                            Err((toks[q].span, "expected '(' after DUP"@))
                        } else if !punct_is(toks[q + 1], "("@) {
                            Err((toks[q + 1].span, "expected '(' after DUP, found '"@ + toks[q + 1].text@ + "'"@))
                        } else {
                            match data_item_at(toks, q + 2) {
                                Err(e) => Err(e),
                                Ok((inner, r)) => if r < 0 || r >= toks.len() {
                                    Err((toks[q + 1].span, "expected ')' to close DUP"@))
                                } else if !punct_is(toks[r], ")"@) {
                                    Err((toks[r].span, "expected ')' to close DUP, found '"@ + toks[r].text@ + "'"@))
                                } else {
                                    Ok((DataView::Dup { count, item: Box::new(inner) }, r + 1))
                                },
                            }
                        }
                    } else {
                        Ok((DataView::Value(count), q))
                    }
                },
            }
        }
    }
}

/// Comma-separated data items from `pos` on.
pub open spec fn data_items_from(toks: Seq<Token>, pos: int, acc: Seq<DataView>) -> Result<
    (Seq<DataView>, int),
    Fault,
>
    decreases toks.len() - pos,
{
    if pos < 0 || pos > toks.len() {
        Err((no_span(), "expected a data item"@))
    } else {
        match data_item_at(toks, pos) {
            Err(e) => Err(e),
            Ok((item, q)) => {
                proof {
                    lemma_data_item_advances(toks, pos);
                }
                if punct_at(toks, q, ","@) {
                    data_items_from(toks, q + 1, acc.push(item))
                } else {
                    Ok((acc.push(item), q))
                }
            },
        }
    }
}

pub proof fn lemma_data_item_advances(toks: Seq<Token>, pos: int)
    ensures
        data_item_at(toks, pos) matches Ok((_, q)) ==> pos < q <= toks.len(),
    decreases toks.len() - pos,
{
    if 0 <= pos < toks.len() {
        lemma_expr_advances(toks, pos);
        if let Ok((count, q)) = expr_chain_at(toks, pos) {
            if keyword_at(toks, q, "dup"@) && q + 1 < toks.len() {
                lemma_data_item_advances(toks, q + 2);
            }
        }
    }
}

/// Whether the line is fully consumed at `pos`: a leftover token is the
/// error.
pub open spec fn consumed_at(toks: Seq<Token>, pos: int) -> Result<(), Fault> {
    if 0 <= pos < toks.len() {
        Err((toks[pos].span, "unexpected trailing token '"@ + toks[pos].text@ + "'"@))
    } else {
        Ok(())
    }
}

/// Only the string instructions take a repeat prefix.
pub open spec fn repeatable(m: Mnemonic) -> bool {
    m is Movsb || m is Movsw || m is Cmpsb || m is Cmpsw || m is Stosb || m is Stosw || m is Lodsb
        || m is Lodsw || m is Scasb || m is Scasw
}

/// `TIMES count DB|DW item` after the `TIMES` keyword: `count DUP(item)`.
pub open spec fn times_at(toks: Seq<Token>, pos: int, line: u32) -> Result<StatementView, Fault> {
    match expr_chain_at(toks, pos) {
        Err(e) => Err(e),
        Ok((count, q)) => if q < 0 || q >= toks.len() {
            Err((no_span(), "expected DB or DW after TIMES count"@))
        } else if !keyword_is(toks[q], "db"@) && !keyword_is(toks[q], "dw"@) {
            Err((toks[q].span, "expected DB or DW after TIMES count, found '"@ + toks[q].text@ + "'"@))
        } else {
            match data_item_at(toks, q + 1) {
                Err(e) => Err(e),
                Ok((item, r)) => match consumed_at(toks, r) {
                    Err(e) => Err(e),
                    Ok(_) => {
                        let dup = seq![DataView::Dup { count, item: Box::new(item) }];
                        Ok(
                            (
                                if keyword_is(toks[q], "db"@) {
                                    KindView::Db(dup)
                                } else {
                                    KindView::Dw(dup)
                                },
                                line,
                            ),
                        )
                    },
                },
            }
        },
    }
}

/// What a name followed by the identifier at `pos + 1` declares:
/// `EQU`, `DB`/`DW`, `PROC`, `ENDP` or `TIMES`; `None` when the second
/// word is none of these.
pub open spec fn named_directive_at(
    toks: Seq<Token>,
    pos: int,
    line: u32,
    before: Seq<StatementView>,
) -> Option<Result<Seq<StatementView>, Fault>> {
    let first = toks[pos];
    let second = toks[pos + 1];
    let label = (KindView::Label(first.text@), line);
    if keyword_is(second, "equ"@) {
        Some(
            match expr_chain_at(toks, pos + 2) {
                Err(e) => Err(e),
                Ok((value, q)) => match consumed_at(toks, q) {
                    Err(e) => Err(e),
                    Ok(_) => Ok(before.push((KindView::Equ { name: first.text@, value }, line))),
                },
            },
        )
    } else if keyword_is(second, "db"@) || keyword_is(second, "dw"@) {
        Some(
            match data_items_from(toks, pos + 2, Seq::empty()) {
                Err(e) => Err(e),
                Ok((items, q)) => match consumed_at(toks, q) {
                    Err(e) => Err(e),
                    Ok(_) => Ok(
                        before.push(label).push(
                            (
                                if keyword_is(second, "db"@) {
                                    KindView::Db(items)
                                } else {
                                    KindView::Dw(items)
                                },
                                line,
                            ),
                        ),
                    ),
                },
            },
        )
    } else if keyword_is(second, "proc"@) {
        Some(Ok(before.push(label)))
    } else if keyword_is(second, "endp"@) {
        Some(Ok(before))
    } else if keyword_is(second, "times"@) {
        Some(
            match times_at(toks, pos + 2, line) {
                Err(e) => Err(e),
                Ok(s) => Ok(before.push(label).push(s)),
            },
        )
    } else {
        None
    }
}

/// The section names that `SECTION` maps onto a segment.
pub open spec fn section_role(tok: Token) -> Option<SegmentRole> {
    if keyword_is(tok, ".data"@) || keyword_is(tok, "data"@) || keyword_is(tok, ".bss"@)
        || keyword_is(tok, "bss"@) {
        Some(SegmentRole::Data)
    } else if keyword_is(tok, ".text"@) || keyword_is(tok, "text"@) || keyword_is(tok, ".code"@)
        || keyword_is(tok, "code"@) {
        Some(SegmentRole::Code)
    } else {
        None
    }
}

/// A directive or statement whose first word is at `pos`, ending the line.
pub open spec fn one_word_directive(toks: Seq<Token>, pos: int, line: u32, before: Seq<
    StatementView,
>) -> Option<Result<Seq<StatementView>, Fault>> {
    let first = toks[pos];
    if keyword_is(first, "org"@) {
        Some(
            match expr_chain_at(toks, pos + 1) {
                Err(e) => Err(e),
                Ok((e, q)) => match consumed_at(toks, q) {
                    Err(err) => Err(err),
                    Ok(_) => Ok(before.push((KindView::Org(e), line))),
                },
            },
        )
    } else if keyword_is(first, "end"@) {
        let has_label = 0 <= pos + 1 < toks.len() && toks[pos + 1].kind == TokenKind::Identifier;
        let q = if has_label {
            pos + 2
        } else {
            pos + 1
        };
        Some(
            match consumed_at(toks, q) {
                Err(e) => Err(e),
                Ok(_) => Ok(
                    before.push(
                        (
                            KindView::End(
                                if has_label {
                                    Some(toks[pos + 1].text@)
                                } else {
                                    None
                                },
                            ),
                            line,
                        ),
                    ),
                ),
            },
        )
    } else if keyword_is(first, ".stack"@) {
        Some(
            match expr_chain_at(toks, pos + 1) {
                Err(e) => Err(e),
                Ok((e, q)) => match consumed_at(toks, q) {
                    Err(err) => Err(err),
                    Ok(_) => Ok(before.push((KindView::Stack(e), line))),
                },
            },
        )
    } else if keyword_is(first, ".data"@) || keyword_is(first, ".code"@) {
        let role = if keyword_is(first, ".data"@) {
            SegmentRole::Data
        } else {
            SegmentRole::Code
        };
        Some(
            match consumed_at(toks, pos + 1) {
                Err(e) => Err(e),
                Ok(_) => Ok(before.push((KindView::SegmentSwitch(role), line))),
            },
        )
    } else if keyword_is(first, "section"@) {
        Some(
            if pos + 1 >= toks.len() {
                Err((first.span, "expected a section name after SECTION"@))
            } else {
                match section_role(toks[pos + 1]) {
                    None => Err((toks[pos + 1].span, "unrecognized SECTION name '"@ + toks[pos + 1].text@ + "'"@)),
                    Some(role) => match consumed_at(toks, pos + 2) {
                        Err(e) => Err(e),
                        Ok(_) => Ok(before.push((KindView::SegmentSwitch(role), line))),
                    },
                }
            },
        )
    } else {
        None
    }
}

/// A repeat prefix at `pos` followed by a string instruction.
pub open spec fn repeated_at(toks: Seq<Token>, pos: int, line: u32, repeat: Repeat, before: Seq<
    StatementView,
>) -> Result<Seq<StatementView>, Fault> {
    if pos + 1 >= toks.len() {
        Err((toks[pos].span, "expected a string instruction after '"@ + toks[pos].text@ + "'"@))
    } else {
        match mnemonic_named(upper(toks[pos + 1].text@)) {
            None => Err((toks[pos + 1].span, unrecognized_message(toks[pos + 1].text@))),
            Some(m) => if !repeatable(m) {
                Err(
                    (
                        toks[pos + 1].span,
                        "'"@ + toks[pos + 1].text@ + "' cannot take a repeat prefix - only string instructions can"@,
                    ),
                )
            } else {
                match operand_list_at(toks, pos + 2) {
                    Err(e) => Err(e),
                    Ok((ops, q)) => match consumed_at(toks, q) {
                        Err(e) => Err(e),
                        Ok(_) => Ok(
                            before.push(
                                (
                                    KindView::Instruction {
                                        mnemonic: m,
                                        operands: ops,
                                        short_jump: false,
                                        repeat: Some(repeat),
                                    },
                                    line,
                                ),
                            ),
                        ),
                    },
                }
            },
        }
    }
}

/// Bare `DB`/`DW`, `TIMES`, a no-op directive or an instruction at `pos`.
pub open spec fn plain_statement_at(toks: Seq<Token>, pos: int, line: u32, before: Seq<
    StatementView,
>) -> Result<Seq<StatementView>, Fault> {
    let first = toks[pos];
    if keyword_is(first, "db"@) || keyword_is(first, "dw"@) {
        match data_items_from(toks, pos + 1, Seq::empty()) {
            Err(e) => Err(e),
            Ok((items, q)) => match consumed_at(toks, q) {
                Err(e) => Err(e),
                Ok(_) => Ok(
                    before.push(
                        (
                            if keyword_is(first, "db"@) {
                                KindView::Db(items)
                            } else {
                                KindView::Dw(items)
                            },
                            line,
                        ),
                    ),
                ),
            },
        }
    } else if keyword_is(first, "times"@) {
        match times_at(toks, pos + 1, line) {
            Err(e) => Err(e),
            Ok(s) => Ok(before.push(s)),
        }
    } else if first.kind == TokenKind::Identifier && is_noop_directive(upper(first.text@)) {
        Ok(before)
    } else if first.kind == TokenKind::Identifier && mnemonic_named(upper(first.text@)) is Some {
        let m = mnemonic_named(upper(first.text@))->Some_0;
        let short = keyword_at(toks, pos + 1, "short"@);
        let p = if short {
            pos + 2
        } else {
            pos + 1
        };
        match operand_list_at(toks, p) {
            Err(e) => Err(e),
            Ok((ops, q)) => match consumed_at(toks, q) {
                Err(e) => Err(e),
                Ok(_) => Ok(
                    before.push(
                        (
                            KindView::Instruction {
                                mnemonic: m,
                                operands: ops,
                                short_jump: short,
                                repeat: None,
                            },
                            line,
                        ),
                    ),
                ),
            },
        }
    } else {
        Err((first.span, unrecognized_message(first.text@)))
    }
}

pub open spec fn unrecognized_message(text: Seq<char>) -> Seq<char> {
    "unrecognized statement starting with '"@ + text + "'"@
}

/// The statements of one non-empty line of tokens.
pub open spec fn line_at(toks: Seq<Token>) -> Result<Seq<StatementView>, Fault> {
    let line = toks[0].span.line;
    let labelled = toks[0].kind == TokenKind::Identifier && punct_at(toks, 1, ":"@);
    let before: Seq<StatementView> = if labelled {
        seq![(KindView::Label(toks[0].text@), line)]
    } else {
        Seq::empty()
    };
    let pos: int = if labelled {
        2
    } else {
        0
    };
    if pos >= toks.len() {
        Ok(before)
    } else {
        let first = toks[pos];
        if first.kind == TokenKind::Identifier && one_word_directive(toks, pos, line, before) is Some {
            one_word_directive(toks, pos, line, before)->Some_0
        } else if first.kind == TokenKind::Identifier && repeat_named(upper(first.text@)) is Some {
            repeated_at(toks, pos, line, repeat_named(upper(first.text@))->Some_0, before)
        } else if first.kind == TokenKind::Identifier && pos + 1 < toks.len() && toks[pos
            + 1].kind == TokenKind::Identifier && named_directive_at(toks, pos, line, before) is Some {
            named_directive_at(toks, pos, line, before)->Some_0
        } else {
            plain_statement_at(toks, pos, line, before)
        }
    }
}

pub fn strip_quotes(text: &str) -> (r: String)
    ensures
        r@ == unquoted(text@),
{
    let t = chars_of(text);
    let mut r = String::new();
    if t.len() >= 2 {
        let mut i: usize = 1;
        while i < t.len() - 1
            invariant
                t@ == text@,
                t.len() >= 2,
                1 <= i <= t.len() - 1,
                r@ == t@.subrange(1, i as int),
            decreases t.len() - 1 - i,
        {
            push_char(&mut r, t[i]);
            i = i + 1;
            assert(r@ =~= t@.subrange(1, i as int));
        }
    } else {
        assert(r@ =~= Seq::<char>::empty());
    }
    r
}

fn ensure_line_consumed(tokens: &[Token], pos: usize) -> (r: Result<(), ParseError>)
    ensures
        match consumed_at(tokens@, pos as int) {
            Ok(_) => r is Ok,
            Err(s) => r is Err && r->Err_0@ == s,
        },
{
    if pos < tokens.len() {
        let tok = &tokens[pos];
        Err(ParseError::new(tok.span, quoted("unexpected trailing token '", tok.text.as_str(), "'")))
    } else {
        Ok(())
    }
}

fn is_repeatable_mnemonic(m: Mnemonic) -> (r: bool)
    ensures
        r == repeatable(m),
{
    match m {
        Mnemonic::Movsb | Mnemonic::Movsw | Mnemonic::Cmpsb | Mnemonic::Cmpsw | Mnemonic::Stosb
        | Mnemonic::Stosw | Mnemonic::Lodsb | Mnemonic::Lodsw | Mnemonic::Scasb
        | Mnemonic::Scasw => true,
        _ => false,
    }
}

pub fn parse_operand_list(tokens: &[Token], pos: &mut usize) -> (r: Result<
    Vec<ParsedOperand>,
    ParseError,
>)
    requires
        *old(pos) <= tokens.len(),
    ensures
        *final(pos) <= tokens.len(),
        match r {
            Ok(ops) => operand_list_at(tokens@, *old(pos) as int) == Ok::<
                (Seq<OperandView>, int),
                Fault,
            >((operands_view(ops@), *final(pos) as int)),
            Err(e) => operand_list_at(tokens@, *old(pos) as int) is Err && operand_list_at(
                tokens@,
                *old(pos) as int,
            )->Err_0 == e@,
        },
{
    let mut operands: Vec<ParsedOperand> = Vec::new();
    if *pos >= tokens.len() {
        assert(operands_view(operands@) =~= Seq::<OperandView>::empty());
        return Ok(operands);
    }
    let ghost start = *pos;
    assert(operands_view(operands@) =~= Seq::<OperandView>::empty());
    loop
        invariant
            *pos <= tokens.len(),
            start == *old(pos),
            start < tokens.len(),
            operand_list_at(tokens@, start as int) == operands_from(
                tokens@,
                *pos as int,
                operands_view(operands@),
            ),
        decreases tokens.len() - *pos,
    {
        let ghost p = *pos as int;
        let ghost acc = operands_view(operands@);
        proof {
            lemma_operand_advances(tokens@, p);
        }
        let op = match parse_operand(tokens, pos) {
            Ok(op) => op,
            Err(e) => {
                return Err(e);
            },
        };
        operands.push(op);
        assert(operands_view(operands@) =~= acc.push(op@));
        if *pos >= tokens.len() {
            return Ok(operands);
        }
        let tok = &tokens[*pos];
        if is_punct(tok, ",") {
            *pos = *pos + 1;
        } else {
            return Err(
                ParseError::new(tok.span, quoted("unexpected token '", tok.text.as_str(), "' after operand")),
            );
        }
    }
}

fn parse_data_item(tokens: &[Token], pos: &mut usize) -> (r: Result<DataItem, ParseError>)
    requires
        *old(pos) <= tokens.len(),
    ensures
        *final(pos) <= tokens.len(),
        match r {
            Ok(d) => data_item_at(tokens@, *old(pos) as int) == Ok::<(DataView, int), Fault>(
                (d@, *final(pos) as int),
            ),
            Err(e) => data_item_at(tokens@, *old(pos) as int) is Err && data_item_at(
                tokens@,
                *old(pos) as int,
            )->Err_0 == e@,
        },
    decreases tokens.len() - *old(pos),
{
    if *pos >= tokens.len() {
        return Err(ParseError::new(empty_span(), text_of("expected a data item")));
    }
    let tok = &tokens[*pos];
    if tok.kind == TokenKind::StringLiteral {
        *pos = *pos + 1;
        return Ok(DataItem::Str(strip_quotes(tok.text.as_str())));
    }
    if is_punct(tok, "?") {
        *pos = *pos + 1;
        return Ok(DataItem::Uninitialized);
    }
    let ghost p0 = *pos as int;
    proof {
        lemma_expr_advances(tokens@, p0);
    }
    let count = match parse_expr_chain(tokens, pos) {
        Ok(c) => c,
        Err(e) => {
            return Err(e);
        },
    };
    if *pos < tokens.len() && is_keyword(&tokens[*pos], "dup") {
        let dup_span = tokens[*pos].span;
        *pos = *pos + 1;
        if *pos >= tokens.len() {
            return Err(ParseError::new(dup_span, text_of("expected '(' after DUP")));
        }
        let open = &tokens[*pos];
        if !is_punct(open, "(") {
            return Err(
                ParseError::new(open.span, quoted("expected '(' after DUP, found '", open.text.as_str(), "'")),
            );
        }
        let open_span = open.span;
        *pos = *pos + 1;
        let inner = match parse_data_item(tokens, pos) {
            Ok(d) => d,
            Err(e) => {
                return Err(e);
            },
        };
        if *pos >= tokens.len() {
            return Err(ParseError::new(open_span, text_of("expected ')' to close DUP")));
        }
        let close = &tokens[*pos];
        if !is_punct(close, ")") {
            return Err(
                ParseError::new(
                    close.span,
                    quoted("expected ')' to close DUP, found '", close.text.as_str(), "'"),
                ),
            );
        }
        *pos = *pos + 1;
        return Ok(DataItem::Dup { count, item: Box::new(inner) });
    }
    Ok(DataItem::Value(count))
}

fn parse_data_items(tokens: &[Token], pos: &mut usize) -> (r: Result<Vec<DataItem>, ParseError>)
    requires
        *old(pos) <= tokens.len(),
    ensures
        *final(pos) <= tokens.len(),
        match r {
            Ok(items) => data_items_from(tokens@, *old(pos) as int, Seq::empty()) == Ok::<
                (Seq<DataView>, int),
                Fault,
            >((items_view(items@), *final(pos) as int)),
            Err(e) => data_items_from(tokens@, *old(pos) as int, Seq::empty()) is Err
                && data_items_from(tokens@, *old(pos) as int, Seq::empty())->Err_0 == e@,
        },
{
    let mut items: Vec<DataItem> = Vec::new();
    let ghost start = *pos;
    assert(items_view(items@) =~= Seq::<DataView>::empty());
    loop
        invariant
            *pos <= tokens.len(),
            start == *old(pos),
            data_items_from(tokens@, start as int, Seq::empty()) == data_items_from(
                tokens@,
                *pos as int,
                items_view(items@),
            ),
        decreases tokens.len() - *pos,
    {
        let ghost p = *pos as int;
        let ghost acc = items_view(items@);
        proof {
            lemma_data_item_advances(tokens@, p);
        }
        let item = match parse_data_item(tokens, pos) {
            Ok(d) => d,
            Err(e) => {
                return Err(e);
            },
        };
        items.push(item);
        assert(items_view(items@) =~= acc.push(item@));
        if *pos < tokens.len() && is_punct(&tokens[*pos], ",") {
            *pos = *pos + 1;
        } else {
            return Ok(items);
        }
    }
}

fn parse_times(tokens: &[Token], pos: &mut usize, line: u32) -> (r: Result<Statement, ParseError>)
    requires
        *old(pos) <= tokens.len(),
    ensures
        match r {
            Ok(s) => times_at(tokens@, *old(pos) as int, line) == Ok::<StatementView, Fault>(s@),
            Err(e) => times_at(tokens@, *old(pos) as int, line) is Err && times_at(
                tokens@,
                *old(pos) as int,
                line,
            )->Err_0 == e@,
        },
{
    let count = match parse_expr_chain(tokens, pos) {
        Ok(c) => c,
        Err(e) => {
            return Err(e);
        },
    };
    if *pos >= tokens.len() {
        return Err(ParseError::new(empty_span(), text_of("expected DB or DW after TIMES count")));
    }
    let size_tok = &tokens[*pos];
    let is_byte = is_keyword(size_tok, "db");
    let is_word = is_keyword(size_tok, "dw");
    if !is_byte && !is_word {
        return Err(
            ParseError::new(
                size_tok.span,
                quoted("expected DB or DW after TIMES count, found '", size_tok.text.as_str(), "'"),
            ),
        );
    }
    *pos = *pos + 1;
    let item = match parse_data_item(tokens, pos) {
        Ok(d) => d,
        Err(e) => {
            return Err(e);
        },
    };
    match ensure_line_consumed(tokens, *pos) {
        Ok(()) => {},
        Err(e) => {
            return Err(e);
        },
    }
    let dup = DataItem::Dup { count, item: Box::new(item) };
    let mut items: Vec<DataItem> = Vec::new();
    items.push(dup);
    let ghost dv = items@[0]@;
    assert(items_view(items@) =~= seq![dv]);
    let kind = if is_byte {
        StatementKind::Db(items)
    } else {
        StatementKind::Dw(items)
    };
    Ok(Statement { kind, line })
}

/// What a dispatching helper returns: not this form, or the line's result.
pub open spec fn outcome_matches(
    r: Option<Result<Vec<Statement>, ParseError>>,
    s: Option<Result<Seq<StatementView>, Fault>>,
) -> bool {
    match s {
        None => r is None,
        Some(Ok(v)) => r matches Some(Ok(x)) && statements_view(x@) == v,
        Some(Err(e)) => r matches Some(Err(x)) && x@ == e,
    }
}

pub open spec fn result_matches(
    r: Result<Vec<Statement>, ParseError>,
    s: Result<Seq<StatementView>, Fault>,
) -> bool {
    match s {
        Ok(v) => r matches Ok(x) && statements_view(x@) == v,
        Err(e) => r matches Err(x) && x@ == e,
    }
}

fn push_statement(v: &mut Vec<Statement>, kind: StatementKind, line: u32)
    ensures
        statements_view(final(v)@) == statements_view(old(v)@).push((kind@, line)),
{
    let ghost k = kind@;
    v.push(Statement { kind, line });
    assert(statements_view(v@) =~= statements_view(old(v)@).push((k, line)));
}

fn parse_one_word_directive(tokens: &[Token], pos: usize, line: u32, before: Vec<Statement>) -> (r:
    Option<Result<Vec<Statement>, ParseError>>)
    requires
        pos < tokens.len(),
    ensures
        outcome_matches(r, one_word_directive(tokens@, pos as int, line, statements_view(before@))),
{
    let mut out = before;
    let first = &tokens[pos];
    if is_keyword(first, "org") {
        let mut p = pos + 1;
        let e = match parse_expr_chain(tokens, &mut p) {
            Ok(e) => e,
            Err(err) => {
                return Some(Err(err));
            },
        };
        if let Err(err) = ensure_line_consumed(tokens, p) {
            return Some(Err(err));
        }
        push_statement(&mut out, StatementKind::Org(e), line);
        return Some(Ok(out));
    }
    if is_keyword(first, "end") {
        let has_label = pos + 1 < tokens.len() && tokens[pos + 1].kind == TokenKind::Identifier;
        let p = if has_label {
            pos + 2
        } else {
            pos + 1
        };
        if let Err(err) = ensure_line_consumed(tokens, p) {
            return Some(Err(err));
        }
        let label = if has_label {
            Some(tokens[pos + 1].text.clone())
        } else {
            None
        };
        push_statement(&mut out, StatementKind::End(label), line);
        return Some(Ok(out));
    }
    if is_keyword(first, ".stack") {
        let mut p = pos + 1;
        let e = match parse_expr_chain(tokens, &mut p) {
            Ok(e) => e,
            Err(err) => {
                return Some(Err(err));
            },
        };
        if let Err(err) = ensure_line_consumed(tokens, p) {
            return Some(Err(err));
        }
        push_statement(&mut out, StatementKind::Stack(e), line);
        return Some(Ok(out));
    }
    let is_data = is_keyword(first, ".data");
    if is_data || is_keyword(first, ".code") {
        let role = if is_data {
            SegmentRole::Data
        } else {
            SegmentRole::Code
        };
        if let Err(err) = ensure_line_consumed(tokens, pos + 1) {
            return Some(Err(err));
        }
        push_statement(&mut out, StatementKind::SegmentSwitch(role), line);
        return Some(Ok(out));
    }
    if is_keyword(first, "section") {
        if pos + 1 >= tokens.len() {
            return Some(
                Err(ParseError::new(first.span, text_of("expected a section name after SECTION"))),
            );
        }
        let name_tok = &tokens[pos + 1];
        let role = if is_keyword(name_tok, ".data") || is_keyword(name_tok, "data") || is_keyword(
            name_tok,
            ".bss",
        ) || is_keyword(name_tok, "bss") {
            SegmentRole::Data
        } else if is_keyword(name_tok, ".text") || is_keyword(name_tok, "text") || is_keyword(
            name_tok,
            ".code",
        ) || is_keyword(name_tok, "code") {
            SegmentRole::Code
        } else {
            return Some(
                Err(
                    ParseError::new(
                        name_tok.span,
                        quoted("unrecognized SECTION name '", name_tok.text.as_str(), "'"),
                    ),
                ),
            );
        };
        if let Err(err) = ensure_line_consumed(tokens, pos + 2) {
            return Some(Err(err));
        }
        push_statement(&mut out, StatementKind::SegmentSwitch(role), line);
        return Some(Ok(out));
    }
    None
}

fn parse_repeated(tokens: &[Token], pos: usize, line: u32, repeat: Repeat, before: Vec<Statement>) -> (r:
    Result<Vec<Statement>, ParseError>)
    requires
        pos < tokens.len(),
    ensures
        result_matches(r, repeated_at(tokens@, pos as int, line, repeat, statements_view(before@))),
{
    let mut out = before;
    let first = &tokens[pos];
    if pos + 1 >= tokens.len() {
        return Err(
            ParseError::new(
                first.span,
                quoted("expected a string instruction after '", first.text.as_str(), "'"),
            ),
        );
    }
    let mnemonic_tok = &tokens[pos + 1];
    let mnemonic = match lookup_mnemonic(mnemonic_tok.text.as_str()) {
        Some(m) => m,
        None => {
            return Err(
                ParseError::new(
                    mnemonic_tok.span,
                    quoted("unrecognized statement starting with '", mnemonic_tok.text.as_str(), "'"),
                ),
            );
        },
    };
    if !is_repeatable_mnemonic(mnemonic) {
        return Err(
            ParseError::new(
                mnemonic_tok.span,
                quoted("'", mnemonic_tok.text.as_str(), "' cannot take a repeat prefix - only string instructions can"),
            ),
        );
    }
    let mut p = pos + 2;
    let operands = match parse_operand_list(tokens, &mut p) {
        Ok(ops) => ops,
        Err(e) => {
            return Err(e);
        },
    };
    if let Err(err) = ensure_line_consumed(tokens, p) {
        return Err(err);
    }
    push_statement(
        &mut out,
        StatementKind::Instruction { mnemonic, operands, short_jump: false, repeat: Some(repeat) },
        line,
    );
    Ok(out)
}

fn parse_named_directive(tokens: &[Token], pos: usize, line: u32, before: Vec<Statement>) -> (r:
    Option<Result<Vec<Statement>, ParseError>>)
    requires
        pos + 1 < tokens.len(),
    ensures
        outcome_matches(r, named_directive_at(tokens@, pos as int, line, statements_view(before@))),
{
    let mut out = before;
    let first = &tokens[pos];
    let second = &tokens[pos + 1];
    if is_keyword(second, "equ") {
        let mut p = pos + 2;
        let value = match parse_expr_chain(tokens, &mut p) {
            Ok(e) => e,
            Err(err) => {
                return Some(Err(err));
            },
        };
        if let Err(err) = ensure_line_consumed(tokens, p) {
            return Some(Err(err));
        }
        push_statement(&mut out, StatementKind::Equ { name: first.text.clone(), value }, line);
        return Some(Ok(out));
    }
    let is_db = is_keyword(second, "db");
    if is_db || is_keyword(second, "dw") {
        let mut p = pos + 2;
        let items = match parse_data_items(tokens, &mut p) {
            Ok(items) => items,
            Err(err) => {
                return Some(Err(err));
            },
        };
        if let Err(err) = ensure_line_consumed(tokens, p) {
            return Some(Err(err));
        }
        push_statement(&mut out, StatementKind::Label(first.text.clone()), line);
        let kind = if is_db {
            StatementKind::Db(items)
        } else {
            StatementKind::Dw(items)
        };
        push_statement(&mut out, kind, line);
        return Some(Ok(out));
    }
    if is_keyword(second, "proc") {
        push_statement(&mut out, StatementKind::Label(first.text.clone()), line);
        return Some(Ok(out));
    }
    if is_keyword(second, "endp") {
        return Some(Ok(out));
    }
    if is_keyword(second, "times") {
        let mut p = pos + 2;
        let stmt = match parse_times(tokens, &mut p, line) {
            Ok(s) => s,
            Err(err) => {
                return Some(Err(err));
            },
        };
        push_statement(&mut out, StatementKind::Label(first.text.clone()), line);
        let ghost sv = stmt@;
        out.push(stmt);
        assert(statements_view(out@) =~= statements_view(before@).push(
            (KindView::Label(first.text@), line),
        ).push(sv));
        return Some(Ok(out));
    }
    None
}

fn parse_plain_statement(tokens: &[Token], pos: usize, line: u32, before: Vec<Statement>) -> (r:
    Result<Vec<Statement>, ParseError>)
    requires
        pos < tokens.len(),
    ensures
        result_matches(r, plain_statement_at(tokens@, pos as int, line, statements_view(before@))),
{
    let mut out = before;
    let first = &tokens[pos];
    let is_db = is_keyword(first, "db");
    if is_db || is_keyword(first, "dw") {
        let mut p = pos + 1;
        let items = match parse_data_items(tokens, &mut p) {
            Ok(items) => items,
            Err(err) => {
                return Err(err);
            },
        };
        if let Err(err) = ensure_line_consumed(tokens, p) {
            return Err(err);
        }
        let kind = if is_db {
            StatementKind::Db(items)
        } else {
            StatementKind::Dw(items)
        };
        push_statement(&mut out, kind, line);
        return Ok(out);
    }
    if is_keyword(first, "times") {
        let mut p = pos + 1;
        let stmt = match parse_times(tokens, &mut p, line) {
            Ok(s) => s,
            Err(err) => {
                return Err(err);
            },
        };
        let ghost sv = stmt@;
        out.push(stmt);
        assert(statements_view(out@) =~= statements_view(before@).push(sv));
        return Ok(out);
    }
    if first.kind == TokenKind::Identifier && is_noop_directive_keyword(first.text.as_str()) {
        return Ok(out);
    }
    if first.kind == TokenKind::Identifier {
        if let Some(mnemonic) = lookup_mnemonic(first.text.as_str()) {
            let short_jump = pos + 1 < tokens.len() && is_keyword(&tokens[pos + 1], "short");
            let mut p = if short_jump {
                pos + 2
            } else {
                pos + 1
            };
            let operands = match parse_operand_list(tokens, &mut p) {
                Ok(ops) => ops,
                Err(e) => {
                    return Err(e);
                },
            };
            if let Err(err) = ensure_line_consumed(tokens, p) {
                return Err(err);
            }
            push_statement(
                &mut out,
                StatementKind::Instruction { mnemonic, operands, short_jump, repeat: None },
                line,
            );
            return Ok(out);
        }
    }
    Err(
        ParseError::new(
            first.span,
            quoted("unrecognized statement starting with '", first.text.as_str(), "'"),
        ),
    )
}

/// Parses one non-empty line of tokens into its statements.
pub fn parse_line(tokens: &[Token]) -> (r: Result<Vec<Statement>, ParseError>)
    requires
        tokens.len() > 0,
    ensures
        result_matches(r, line_at(tokens@)),
{
    let line = tokens[0].span.line;
    let mut before: Vec<Statement> = Vec::new();
    let labelled = tokens[0].kind == TokenKind::Identifier && tokens.len() > 1 && is_punct(
        &tokens[1],
        ":",
    );
    if labelled {
        push_statement(&mut before, StatementKind::Label(tokens[0].text.clone()), line);
    }
    assert(statements_view(before@) =~= if labelled {
        seq![(KindView::Label(tokens@[0].text@), line)]
    } else {
        Seq::<StatementView>::empty()
    });
    let pos: usize = if labelled {
        2
    } else {
        0
    };
    if pos >= tokens.len() {
        return Ok(before);
    }
    let first = &tokens[pos];
    if first.kind == TokenKind::Identifier {
        let ghost bv = statements_view(before@);
        let (found, rest) = try_one_word(tokens, pos, line, before);
        if let Some(result) = found {
            return result;
        }
        let before = rest;
        assert(statements_view(before@) == bv);
        if let Some(repeat) = lookup_repeat_prefix(first.text.as_str()) {
            return parse_repeated(tokens, pos, line, repeat, before);
        }
        if pos + 1 < tokens.len() && tokens[pos + 1].kind == TokenKind::Identifier {
            let (found, rest) = try_named(tokens, pos, line, before);
            if let Some(result) = found {
                return result;
            }
            assert(statements_view(rest@) == bv);
            return parse_plain_statement(tokens, pos, line, rest);
        }
        return parse_plain_statement(tokens, pos, line, before);
    }
    parse_plain_statement(tokens, pos, line, before)
}

/// `parse_one_word_directive`, handing `before` back when the form does
/// not apply.
fn try_one_word(tokens: &[Token], pos: usize, line: u32, before: Vec<Statement>) -> (r: (
    Option<Result<Vec<Statement>, ParseError>>,
    Vec<Statement>,
))
    requires
        pos < tokens.len(),
    ensures
        outcome_matches(r.0, one_word_directive(tokens@, pos as int, line, statements_view(before@))),
        r.0 is None ==> r.1@ == before@,
{
    if is_one_word_keyword(&tokens[pos]) {
        (parse_one_word_directive(tokens, pos, line, before), Vec::new())
    } else {
        (None, before)
    }
}

fn is_one_word_keyword(tok: &Token) -> (r: bool)
    ensures
        r == (keyword_is(*tok, "org"@) || keyword_is(*tok, "end"@) || keyword_is(*tok, ".stack"@)
            || keyword_is(*tok, ".data"@) || keyword_is(*tok, ".code"@) || keyword_is(
            *tok,
            "section"@,
        )),
{
    is_keyword(tok, "org") || is_keyword(tok, "end") || is_keyword(tok, ".stack") || is_keyword(
        tok,
        ".data",
    ) || is_keyword(tok, ".code") || is_keyword(tok, "section")
}

fn try_named(tokens: &[Token], pos: usize, line: u32, before: Vec<Statement>) -> (r: (
    Option<Result<Vec<Statement>, ParseError>>,
    Vec<Statement>,
))
    requires
        pos + 1 < tokens.len(),
    ensures
        outcome_matches(r.0, named_directive_at(tokens@, pos as int, line, statements_view(before@))),
        r.0 is None ==> r.1@ == before@,
{
    let second = &tokens[pos + 1];
    if is_keyword(second, "equ") || is_keyword(second, "db") || is_keyword(second, "dw")
        || is_keyword(second, "proc") || is_keyword(second, "endp") || is_keyword(second, "times") {
        (parse_named_directive(tokens, pos, line, before), Vec::new())
    } else {
        (None, before)
    }
}

/// The token lines from position `i` on: tokens split at `Newline`,
/// comments dropped, a last line kept only when it has tokens.
pub open spec fn lines_from(toks: Seq<Token>, i: int, current: Seq<Token>) -> Seq<Seq<Token>>
    decreases toks.len() - i,
{
    if i < 0 || i >= toks.len() {
        if current.len() > 0 {
            seq![current]
        } else {
            Seq::empty()
        }
    } else if toks[i].kind == TokenKind::Newline {
        seq![current] + lines_from(toks, i + 1, Seq::empty())
    } else if toks[i].kind == TokenKind::Comment {
        lines_from(toks, i + 1, current)
    } else {
        lines_from(toks, i + 1, current.push(toks[i]))
    }
}

/// The statements and errors of the lines from `i` on; an empty line
/// contributes nothing and a bad line only its error.
pub open spec fn program_from(lines: Seq<Seq<Token>>, i: int) -> (Seq<StatementView>, Seq<Fault>)
    decreases lines.len() - i,
{
    if i < 0 || i >= lines.len() {
        (Seq::empty(), Seq::empty())
    } else {
        let rest = program_from(lines, i + 1);
        if lines[i].len() == 0 {
            rest
        } else {
            match line_at(lines[i]) {
                Ok(s) => (s + rest.0, rest.1),
                Err(e) => (rest.0, seq![e] + rest.1),
            }
        }
    }
}

fn copy_token(t: &Token) -> (r: Token)
    ensures
        r == *t,
{
    Token { kind: t.kind, text: t.text.clone(), span: t.span }
}

/// Splits tokens into lines at each `Newline`, dropping comments.
pub fn split_lines(tokens: &[Token]) -> (lines: Vec<Vec<Token>>)
    ensures
        lines@.map_values(|l: Vec<Token>| l@) == lines_from(tokens@, 0, Seq::empty()),
{
    let mut lines: Vec<Vec<Token>> = Vec::new();
    let mut current: Vec<Token> = Vec::new();
    let mut i: usize = 0;
    let ghost whole = lines_from(tokens@, 0, Seq::empty());
    while i < tokens.len()
        invariant
            i <= tokens.len(),
            whole == lines_from(tokens@, 0, Seq::empty()),
            whole == lines@.map_values(|l: Vec<Token>| l@) + lines_from(tokens@, i as int, current@),
        decreases tokens.len() - i,
    {
        let ghost done = lines@.map_values(|l: Vec<Token>| l@);
        let ghost cur = current@;
        match tokens[i].kind {
            TokenKind::Newline => {
                let finished = current;
                current = Vec::new();
                lines.push(finished);
                assert(lines@.map_values(|l: Vec<Token>| l@) =~= done.push(cur));
                assert(done + (seq![cur] + lines_from(tokens@, i + 1, Seq::empty())) =~= done.push(
                    cur,
                ) + lines_from(tokens@, i + 1, Seq::empty()));
                assert(current@ =~= Seq::<Token>::empty());
            },
            TokenKind::Comment => {},
            _ => {
                current.push(copy_token(&tokens[i]));
            },
        }
        i = i + 1;
    }
    if current.len() > 0 {
        let ghost done = lines@.map_values(|l: Vec<Token>| l@);
        let ghost cur = current@;
        lines.push(current);
        assert(lines@.map_values(|l: Vec<Token>| l@) =~= done + seq![cur]);
    } else {
        assert(lines@.map_values(|l: Vec<Token>| l@) =~= lines@.map_values(|l: Vec<Token>| l@)
            + Seq::<Seq<Token>>::empty());
    }
    lines
}

/// Parses the lines of an already tokenized program. A bad line is
/// reported and skipped, so one typo does not hide later diagnostics.
pub fn parse_tokens(tokens: &[Token]) -> (r: (Vec<Statement>, Vec<ParseError>))
    ensures
        statements_view(r.0@) == program_from(lines_from(tokens@, 0, Seq::empty()), 0).0,
        r.1@.map_values(|e: ParseError| e@) == program_from(
            lines_from(tokens@, 0, Seq::empty()),
            0,
        ).1,
{
    let lines = split_lines(tokens);
    let ghost lv = lines@.map_values(|l: Vec<Token>| l@);
    let mut statements: Vec<Statement> = Vec::new();
    let mut errors: Vec<ParseError> = Vec::new();
    let n = lines.len();
    let mut k: usize = n;
    while k > 0
        invariant
            k <= n,
            n == lines.len(),
            lv == lines@.map_values(|l: Vec<Token>| l@),
            statements_view(statements@) == program_from(lv, k as int).0,
            errors@.map_values(|e: ParseError| e@) == program_from(lv, k as int).1,
        decreases k,
    {
        k = k - 1;
        assert(lv[k as int] == lines@[k as int]@);
        if lines[k].len() > 0 {
            match parse_line(lines[k].as_slice()) {
                Ok(line_statements) => {
                    let ghost before = statements_view(statements@);
                    let ghost ls = statements_view(line_statements@);
                    let mut joined = line_statements;
                    joined.append(&mut statements);
                    statements = joined;
                    assert(statements_view(statements@) =~= ls + before);
                },
                Err(error) => {
                    let ghost before = errors@.map_values(|e: ParseError| e@);
                    let ghost sp = error@;
                    errors.insert(0, error);
                    assert(errors@.map_values(|e: ParseError| e@) =~= seq![sp] + before);
                },
            }
        }
    }
    (statements, errors)
}

/// Tokenizes and parses a whole program.
pub fn parse_program(source: &str) -> (r: (Vec<Statement>, Vec<ParseError>))
    requires
        source.spec_bytes().len() < u32::MAX,
    ensures
        exists|toks: Seq<Token>|
            {
                &&& toks.len() == lex_from(source.spec_bytes(), 0, 1, 1).len()
                &&& forall|k: int|
                    0 <= k < toks.len() ==> super::lexer::token_matches(
                        #[trigger] toks[k],
                        lex_from(source.spec_bytes(), 0, 1, 1)[k],
                        source.spec_bytes(),
                    )
                &&& statements_view(r.0@) == program_from(lines_from(toks, 0, Seq::empty()), 0).0
                &&& r.1@.map_values(|e: ParseError| e@) == program_from(
                    lines_from(toks, 0, Seq::empty()),
                    0,
                ).1
            },
{
    let tokens = tokenize(source);
    let slice = tokens.as_slice();
    let r = parse_tokens(slice);
    assert(slice@ == tokens@);
    r
}

} // verus!
