//! One instruction operand: a register, an immediate or symbol, or a
//! `[base+index+disp]` memory reference (with the MASM `sym[...]` and
//! `reg[...]` indexing sugar, `BYTE`/`WORD [PTR]` sizes and `ES:`
//! segment overrides).
use super::ast::{accumulated, ExprView, OperandView, ParsedExpr, ParsedOperand};
use super::expr_parser::{
    lemma_expr_advances, expr_chain_at, skip_signs, skip_signs_exec, is_keyword, is_punct, keyword_at, keyword_is, negated, parse_expr_chain,
    punct_at, punct_is, span_at,
};
use super::lexer::{Span, Token, TokenKind};
use super::numbers::{number_value, parse_number};
use super::parse_error::{empty_span, no_span, quoted, text_of, Fault, ParseError};
use crate::decoder::text::{reg16_chars, reg8_chars};
use crate::isa::{spec_is_segment, Reg16, Reg8, Width};
use crate::words::{chars_of, is_word, upper, upper_chars};
use vstd::prelude::*;

verus! {

/// The register names the disassembler prints read back as those
/// registers: every 16-bit register but IP and every 8-bit register is
/// an operand of that name, and exactly BX, BP, SI and DI may address
/// memory inside brackets.
#[verifier::rlimit(100)]
#[verifier::spinoff_prover]
pub proof fn lemma_register_names_read_back(r: Reg16, b: Reg8)
    ensures
        r != Reg16::Ip ==> register_named(reg16_chars(r)) == Some(OperandView::Reg16(r)),
        register_named(reg8_chars(b)) == Some(OperandView::Reg8(b)),
        addressing_named(reg16_chars(r)) == (if r == Reg16::Bx || r == Reg16::Bp || r == Reg16::Si
            || r == Reg16::Di {
            Some(r)
        } else {
            None
        }),
{
    reveal_strlit("AX");
    assert("AX"@.len() == 2);
    assert("AX"@[0] == 'A');
    assert("AX"@[1] == 'X');
    reveal_strlit("BX");
    assert("BX"@.len() == 2);
    assert("BX"@[0] == 'B');
    assert("BX"@[1] == 'X');
    reveal_strlit("CX");
    assert("CX"@.len() == 2);
    assert("CX"@[0] == 'C');
    assert("CX"@[1] == 'X');
    reveal_strlit("DX");
    assert("DX"@.len() == 2);
    assert("DX"@[0] == 'D');
    assert("DX"@[1] == 'X');
    reveal_strlit("SP");
    assert("SP"@.len() == 2);
    assert("SP"@[0] == 'S');
    assert("SP"@[1] == 'P');
    reveal_strlit("BP");
    assert("BP"@.len() == 2);
    assert("BP"@[0] == 'B');
    assert("BP"@[1] == 'P');
    reveal_strlit("SI");
    assert("SI"@.len() == 2);
    assert("SI"@[0] == 'S');
    assert("SI"@[1] == 'I');
    reveal_strlit("DI");
    assert("DI"@.len() == 2);
    assert("DI"@[0] == 'D');
    assert("DI"@[1] == 'I');
    reveal_strlit("CS");
    assert("CS"@.len() == 2);
    assert("CS"@[0] == 'C');
    assert("CS"@[1] == 'S');
    reveal_strlit("DS");
    assert("DS"@.len() == 2);
    assert("DS"@[0] == 'D');
    assert("DS"@[1] == 'S');
    reveal_strlit("ES");
    assert("ES"@.len() == 2);
    assert("ES"@[0] == 'E');
    assert("ES"@[1] == 'S');
    reveal_strlit("SS");
    assert("SS"@.len() == 2);
    assert("SS"@[0] == 'S');
    assert("SS"@[1] == 'S');
    reveal_strlit("IP");
    assert("IP"@.len() == 2);
    assert("IP"@[0] == 'I');
    assert("IP"@[1] == 'P');
    reveal_strlit("AL");
    assert("AL"@.len() == 2);
    assert("AL"@[0] == 'A');
    assert("AL"@[1] == 'L');
    reveal_strlit("AH");
    assert("AH"@.len() == 2);
    assert("AH"@[0] == 'A');
    assert("AH"@[1] == 'H');
    reveal_strlit("BL");
    assert("BL"@.len() == 2);
    assert("BL"@[0] == 'B');
    assert("BL"@[1] == 'L');
    reveal_strlit("BH");
    assert("BH"@.len() == 2);
    assert("BH"@[0] == 'B');
    assert("BH"@[1] == 'H');
    reveal_strlit("CL");
    assert("CL"@.len() == 2);
    assert("CL"@[0] == 'C');
    assert("CL"@[1] == 'L');
    reveal_strlit("CH");
    assert("CH"@.len() == 2);
    assert("CH"@[0] == 'C');
    assert("CH"@[1] == 'H');
    reveal_strlit("DL");
    assert("DL"@.len() == 2);
    assert("DL"@[0] == 'D');
    assert("DL"@[1] == 'L');
    reveal_strlit("DH");
    assert("DH"@.len() == 2);
    assert("DH"@[0] == 'D');
    assert("DH"@[1] == 'H');
}

/// The register an upper-cased name denotes.
pub open spec fn register_named(u: Seq<char>) -> Option<OperandView> {
    if u == "AX"@ {
        Some(OperandView::Reg16(Reg16::Ax))
    } else if u == "BX"@ {
        Some(OperandView::Reg16(Reg16::Bx))
    } else if u == "CX"@ {
        Some(OperandView::Reg16(Reg16::Cx))
    } else if u == "DX"@ {
        Some(OperandView::Reg16(Reg16::Dx))
    } else if u == "SP"@ {
        Some(OperandView::Reg16(Reg16::Sp))
    } else if u == "BP"@ {
        Some(OperandView::Reg16(Reg16::Bp))
    } else if u == "SI"@ {
        Some(OperandView::Reg16(Reg16::Si))
    } else if u == "DI"@ {
        Some(OperandView::Reg16(Reg16::Di))
    } else if u == "CS"@ {
        Some(OperandView::Reg16(Reg16::Cs))
    } else if u == "DS"@ {
        Some(OperandView::Reg16(Reg16::Ds))
    } else if u == "ES"@ {
        Some(OperandView::Reg16(Reg16::Es))
    } else if u == "SS"@ {
        Some(OperandView::Reg16(Reg16::Ss))
    } else if u == "AL"@ {
        Some(OperandView::Reg8(Reg8::Al))
    } else if u == "AH"@ {
        Some(OperandView::Reg8(Reg8::Ah))
    } else if u == "BL"@ {
        Some(OperandView::Reg8(Reg8::Bl))
    } else if u == "BH"@ {
        Some(OperandView::Reg8(Reg8::Bh))
    } else if u == "CL"@ {
        Some(OperandView::Reg8(Reg8::Cl))
    } else if u == "CH"@ {
        Some(OperandView::Reg8(Reg8::Ch))
    } else if u == "DL"@ {
        Some(OperandView::Reg8(Reg8::Dl))
    } else if u == "DH"@ {
        Some(OperandView::Reg8(Reg8::Dh))
    } else {
        None
    }
}

/// The base/index registers allowed inside `[...]`: BX, BP, SI, DI.
pub open spec fn addressing_named(u: Seq<char>) -> Option<Reg16> {
    if u == "BX"@ {
        Some(Reg16::Bx)
    } else if u == "BP"@ {
        Some(Reg16::Bp)
    } else if u == "SI"@ {
        Some(Reg16::Si)
    } else if u == "DI"@ {
        Some(Reg16::Di)
    } else {
        None
    }
}

fn register_operand_from_name(name: &str) -> (r: Option<ParsedOperand>)
    ensures
        match r {
            Some(op) => register_named(upper(name@)) == Some(op@),
            None => register_named(upper(name@)) is None,
        },
{
    let u = upper_chars(name);
    if is_word(&u, "AX") {
        Some(ParsedOperand::Reg16(Reg16::Ax))
    } else if is_word(&u, "BX") {
        Some(ParsedOperand::Reg16(Reg16::Bx))
    } else if is_word(&u, "CX") {
        Some(ParsedOperand::Reg16(Reg16::Cx))
    } else if is_word(&u, "DX") {
        Some(ParsedOperand::Reg16(Reg16::Dx))
    } else if is_word(&u, "SP") {
        Some(ParsedOperand::Reg16(Reg16::Sp))
    } else if is_word(&u, "BP") {
        Some(ParsedOperand::Reg16(Reg16::Bp))
    } else if is_word(&u, "SI") {
        Some(ParsedOperand::Reg16(Reg16::Si))
    } else if is_word(&u, "DI") {
        Some(ParsedOperand::Reg16(Reg16::Di))
    } else if is_word(&u, "CS") {
        Some(ParsedOperand::Reg16(Reg16::Cs))
    } else if is_word(&u, "DS") {
        Some(ParsedOperand::Reg16(Reg16::Ds))
    } else if is_word(&u, "ES") {
        Some(ParsedOperand::Reg16(Reg16::Es))
    } else if is_word(&u, "SS") {
        Some(ParsedOperand::Reg16(Reg16::Ss))
    } else if is_word(&u, "AL") {
        Some(ParsedOperand::Reg8(Reg8::Al))
    } else if is_word(&u, "AH") {
        Some(ParsedOperand::Reg8(Reg8::Ah))
    } else if is_word(&u, "BL") {
        Some(ParsedOperand::Reg8(Reg8::Bl))
    } else if is_word(&u, "BH") {
        Some(ParsedOperand::Reg8(Reg8::Bh))
    } else if is_word(&u, "CL") {
        Some(ParsedOperand::Reg8(Reg8::Cl))
    } else if is_word(&u, "CH") {
        Some(ParsedOperand::Reg8(Reg8::Ch))
    } else if is_word(&u, "DL") {
        Some(ParsedOperand::Reg8(Reg8::Dl))
    } else if is_word(&u, "DH") {
        Some(ParsedOperand::Reg8(Reg8::Dh))
    } else {
        None
    }
}

fn addressing_reg16_from_name(name: &str) -> (r: Option<Reg16>)
    ensures
        r == addressing_named(upper(name@)),
{
    let u = upper_chars(name);
    if is_word(&u, "BX") {
        Some(Reg16::Bx)
    } else if is_word(&u, "BP") {
        Some(Reg16::Bp)
    } else if is_word(&u, "SI") {
        Some(Reg16::Si)
    } else if is_word(&u, "DI") {
        Some(Reg16::Di)
    } else {
        None
    }
}

/// One term inside `[...]`.
pub enum MemoryTerm {
    Reg(Reg16),
    Value(ParsedExpr),
}

pub enum TermView {
    Reg(Reg16),
    Value(ExprView),
}

pub open spec fn term_view(t: MemoryTerm) -> TermView {
    match t {
        MemoryTerm::Reg(r) => TermView::Reg(r),
        MemoryTerm::Value(e) => TermView::Value(e@),
    }
}

/// Base, index and displacement of a memory operand.
pub type Addressing = (Option<Reg16>, Option<Reg16>, Option<ExprView>);

/// One register, number or symbol inside `[...]`, negated when a `-`
/// precedes it (registers and symbols cannot be).
pub open spec fn memory_term_at(toks: Seq<Token>, pos: int, negate: bool) -> Result<
    TermView,
    Fault,
> {
    if pos < 0 || pos >= toks.len() {
        Err((no_span(), "unterminated memory operand"@))
    } else {
        let t = toks[pos];
        match t.kind {
            TokenKind::Register => if negate {
                Err((t.span, "cannot negate a register"@))
            } else {
                match addressing_named(upper(t.text@)) {
                    Some(r) => Ok(TermView::Reg(r)),
                    None => Err((t.span, not_addressing_message(t.text@))),
                }
            },
            TokenKind::Number => match number_value(t.text@) {
                Some(v) => Ok(
                    TermView::Value(
                        ExprView::Number(
                            if negate {
                                negated(v)
                            } else {
                                v
                            },
                        ),
                    ),
                ),
                None => Err((t.span, "invalid numeric literal '"@ + t.text@ + "'"@)),
            },
            TokenKind::Identifier => if negate {
                Err((t.span, "cannot negate a symbol"@))
            } else {
                Ok(TermView::Value(ExprView::Symbol(t.text@)))
            },
            _ => Err((t.span, "unexpected token '"@ + t.text@ + "' in memory operand"@)),
        }
    }
}

pub open spec fn not_addressing_message(text: Seq<char>) -> Seq<char> {
    "'"@ + text + "' cannot be used as a base/index register inside [...]"@
}

pub open spec fn too_many_registers() -> Seq<char> {
    "a memory operand allows at most two registers (base + index)"@
}

/// Adds a term to the addressing so far: a register fills the base, then
/// the index (a third is an error); a value is added to the displacement.
pub open spec fn apply_term(a: Addressing, term: TermView, span: Span) -> Result<Addressing, Fault> {
    match term {
        TermView::Reg(r) => if a.0 is None {
            Ok((Some(r), a.1, a.2))
        } else if a.1 is None {
            Ok((a.0, Some(r), a.2))
        } else {
            Err((span, too_many_registers()))
        },
        TermView::Value(e) => Ok((a.0, a.1, Some(accumulated(a.2, e)))),
    }
}

/// The `('+' | '-') term` pairs after the first term, up to the `]`.
pub open spec fn memory_rest(toks: Seq<Token>, pos: int, a: Addressing) -> Result<
    (Addressing, int),
    Fault,
>
    decreases toks.len() - pos,
{
    if pos < 0 || pos >= toks.len() {
        Err((no_span(), "unterminated memory operand"@))
    } else if punct_is(toks[pos], "]"@) {
        Ok((a, pos))
    } else if punct_is(toks[pos], "+"@) || punct_is(toks[pos], "-"@) {
        match memory_term_at(toks, pos + 1, punct_is(toks[pos], "-"@)) {
            Ok(t) => match apply_term(a, t, span_at(toks, pos + 1)) {
                Ok(a2) => memory_rest(toks, pos + 2, a2),
                Err(e) => Err(e),
            },
            Err(e) => Err(e),
        }
    } else {
        Err(
            (
                toks[pos].span,
                "expected '+', '-', or ']' in memory operand, found '"@ + toks[pos].text@ + "'"@,
            ),
        )
    }
}

/// The inside of `[...]` from `pos`, stopping at (not consuming) `]`.
pub open spec fn memory_expr_at(toks: Seq<Token>, pos: int) -> Result<(Addressing, int), Fault> {
    let (p, neg) = skip_signs(toks, pos, false);
    match memory_term_at(toks, p, neg) {
        Ok(t) => match apply_term((None, None, None), t, span_at(toks, p)) {
            Ok(a) => memory_rest(toks, p + 1, a),
            Err(e) => Err(e),
        },
        Err(e) => Err(e),
    }
}

/// A `[...]` group whose `[` is at `pos`; the result ends after `]`.
pub open spec fn bracket_at(toks: Seq<Token>, pos: int) -> Result<(Addressing, int), Fault> {
    match memory_expr_at(toks, pos + 1) {
        Ok((a, q)) => if q >= toks.len() {
            Err((span_at(toks, pos), "unterminated memory operand: missing ']'"@))
        } else if !punct_is(toks[q], "]"@) {
            Err((toks[q].span, "expected ']', found '"@ + toks[q].text@ + "'"@))
        } else {
            Ok((a, q + 1))
        },
        Err(e) => Err(e),
    }
}

fn parse_memory_term(tokens: &[Token], pos: &mut usize, negate: bool) -> (r: Result<
    MemoryTerm,
    ParseError,
>)
    requires
        *old(pos) <= tokens.len(),
    ensures
        match r {
            Ok(t) => memory_term_at(tokens@, *old(pos) as int, negate) == Ok::<TermView, Fault>(
                term_view(t),
            ) && *final(pos) == *old(pos) + 1,
            Err(e) => memory_term_at(tokens@, *old(pos) as int, negate) == Err::<TermView, Fault>(
                e@,
            ) && *final(pos) == *old(pos),
        },
{
    if *pos >= tokens.len() {
        return Err(ParseError::new(empty_span(), text_of("unterminated memory operand")));
    }
    let tok = &tokens[*pos];
    match tok.kind {
        TokenKind::Register => {
            if negate {
                return Err(ParseError::new(tok.span, text_of("cannot negate a register")));
            }
            match addressing_reg16_from_name(tok.text.as_str()) {
                Some(reg) => {
                    *pos = *pos + 1;
                    Ok(MemoryTerm::Reg(reg))
                },
                None => Err(
                    ParseError::new(
                        tok.span,
                        quoted(
                            "'",
                            tok.text.as_str(),
                            "' cannot be used as a base/index register inside [...]",
                        ),
                    ),
                ),
            }
        },
        TokenKind::Number => match parse_number(tok.text.as_str()) {
            Some(value) => {
                *pos = *pos + 1;
                let v = if negate {
                    if value == i64::MIN {
                        value
                    } else {
                        -value
                    }
                } else {
                    value
                };
                Ok(MemoryTerm::Value(ParsedExpr::Number(v)))
            },
            None => Err(
                ParseError::new(
                    tok.span,
                    quoted("invalid numeric literal '", tok.text.as_str(), "'"),
                ),
            ),
        },
        TokenKind::Identifier => {
            if negate {
                return Err(ParseError::new(tok.span, text_of("cannot negate a symbol")));
            }
            *pos = *pos + 1;
            Ok(MemoryTerm::Value(ParsedExpr::Symbol(tok.text.clone())))
        },
        _ => Err(
            ParseError::new(
                tok.span,
                quoted("unexpected token '", tok.text.as_str(), "' in memory operand"),
            ),
        ),
    }
}

fn span_of(tokens: &[Token], pos: usize) -> (s: Span)
    ensures
        s == span_at(tokens@, pos as int),
{
    if pos < tokens.len() {
        tokens[pos].span
    } else {
        empty_span()
    }
}

fn apply(
    term: MemoryTerm,
    base: &mut Option<Reg16>,
    index: &mut Option<Reg16>,
    displacement: &mut Option<ParsedExpr>,
    span: Span,
) -> (r: Result<(), ParseError>)
    ensures
        match apply_term((*old(base), *old(index), opt_view(*old(displacement))), term_view(term), span) {
            Ok(a) => r is Ok && a == (*final(base), *final(index), opt_view(*final(displacement))),
            Err(e) => r is Err && r->Err_0@ == e,
        },
{
    match term {
        MemoryTerm::Reg(reg) => {
            if base.is_none() {
                *base = Some(reg);
                Ok(())
            } else if index.is_none() {
                *index = Some(reg);
                Ok(())
            } else {
                Err(
                    ParseError::new(
                        span,
                        text_of("a memory operand allows at most two registers (base + index)"),
                    ),
                )
            }
        },
        MemoryTerm::Value(expr) => {
            let old_disp = displacement.take();
            *displacement = Some(ParsedExpr::accumulate(old_disp, expr));
            Ok(())
        },
    }
}

pub open spec fn opt_view(e: Option<ParsedExpr>) -> Option<ExprView> {
    match e {
        Some(x) => Some(x@),
        None => None,
    }
}

fn parse_memory_expr(tokens: &[Token], pos: &mut usize) -> (r: Result<
    (Option<Reg16>, Option<Reg16>, Option<ParsedExpr>),
    ParseError,
>)
    requires
        *old(pos) <= tokens.len(),
    ensures
        *final(pos) <= tokens.len(),
        match r {
            Ok((b, i, d)) => memory_expr_at(tokens@, *old(pos) as int) == Ok::<
                (Addressing, int),
                Fault,
            >(((b, i, opt_view(d)), *final(pos) as int)),
            Err(e) => memory_expr_at(tokens@, *old(pos) as int) is Err && memory_expr_at(
                tokens@,
                *old(pos) as int,
            )->Err_0 == e@,
        },
{
    let ghost start = *pos;
    let mut base: Option<Reg16> = None;
    let mut index: Option<Reg16> = None;
    let mut displacement: Option<ParsedExpr> = None;
    let (p_first, negate_first) = skip_signs_exec(tokens, *pos, false);
    *pos = p_first;
    let ghost p = *pos as int;
    let first_span = span_of(tokens, *pos);
    let first = match parse_memory_term(tokens, pos, negate_first) {
        Ok(t) => t,
        Err(e) => {
            return Err(e);
        },
    };
    match apply(first, &mut base, &mut index, &mut displacement, first_span) {
        Ok(()) => {},
        Err(e) => {
            return Err(e);
        },
    }
    loop
        invariant
            *pos <= tokens.len(),
            start == *old(pos),
            memory_expr_at(tokens@, start as int) == memory_rest(
                tokens@,
                *pos as int,
                (base, index, opt_view(displacement)),
            ),
        decreases tokens.len() - *pos,
    {
        if *pos >= tokens.len() {
            return Err(ParseError::new(empty_span(), text_of("unterminated memory operand")));
        }
        if is_punct(&tokens[*pos], "]") {
            return Ok((base, index, displacement));
        }
        let negate = if is_punct(&tokens[*pos], "+") {
            false
        } else if is_punct(&tokens[*pos], "-") {
            true
        } else {
            let tok = &tokens[*pos];
            return Err(
                ParseError::new(
                    tok.span,
                    quoted(
                        "expected '+', '-', or ']' in memory operand, found '",
                        tok.text.as_str(),
                        "'",
                    ),
                ),
            );
        };
        let ghost q = *pos as int;
        let ghost a = (base, index, opt_view(displacement));
        proof {
            reveal_strlit("+");
            reveal_strlit("-");
            assert("+"@ != "-"@) by {
                assert("+"@[0] != "-"@[0]);
            }
        }
        assert(negate == punct_is(tokens@[q], "-"@));
        *pos = *pos + 1;
        let span = span_of(tokens, *pos);
        let term = match parse_memory_term(tokens, pos, negate) {
            Ok(t) => t,
            Err(e) => {
                return Err(e);
            },
        };
        let ghost tv = term_view(term);
        match apply(term, &mut base, &mut index, &mut displacement, span) {
            Ok(()) => {},
            Err(e) => {
                return Err(e);
            },
        }
        assert(memory_rest(tokens@, q, a) == memory_rest(
            tokens@,
            q + 2,
            (base, index, opt_view(displacement)),
        ));
    }
}

fn parse_bracket_addressing(tokens: &[Token], pos: &mut usize) -> (r: Result<
    (Option<Reg16>, Option<Reg16>, Option<ParsedExpr>),
    ParseError,
>)
    requires
        *old(pos) < tokens.len(),
    ensures
        *final(pos) <= tokens.len(),
        match r {
            Ok((b, i, d)) => bracket_at(tokens@, *old(pos) as int) == Ok::<(Addressing, int), Fault>(
                ((b, i, opt_view(d)), *final(pos) as int),
            ),
            Err(e) => bracket_at(tokens@, *old(pos) as int) is Err && bracket_at(
                tokens@,
                *old(pos) as int,
            )->Err_0 == e@,
        },
{
    let open_span = tokens[*pos].span;
    *pos = *pos + 1;
    let (base, index, displacement) = match parse_memory_expr(tokens, pos) {
        Ok(a) => a,
        Err(e) => {
            return Err(e);
        },
    };
    if *pos >= tokens.len() {
        return Err(ParseError::new(open_span, text_of("unterminated memory operand: missing ']'")));
    }
    let close = &tokens[*pos];
    if !is_punct(close, "]") {
        return Err(
            ParseError::new(close.span, quoted("expected ']', found '", close.text.as_str(), "'")),
        );
    }
    *pos = *pos + 1;
    Ok((base, index, displacement))
}

/// Adds a register from outside the brackets (`reg[...]`) to what the
/// brackets held: base if free, else index, else an error.
pub open spec fn assign_reg(base: Option<Reg16>, index: Option<Reg16>, reg: Reg16, span: Span) -> Result<
    (Option<Reg16>, Option<Reg16>),
    Fault,
> {
    if base is None {
        Ok((Some(reg), index))
    } else if index is None {
        Ok((base, Some(reg)))
    } else {
        Err((span, too_many_registers()))
    }
}

fn assign_addressing_reg(base: &mut Option<Reg16>, index: &mut Option<Reg16>, reg: Reg16, span: Span) -> (r:
    Result<(), ParseError>)
    ensures
        match assign_reg(*old(base), *old(index), reg, span) {
            Ok((b, i)) => r is Ok && *final(base) == b && *final(index) == i,
            Err(e) => r is Err && r->Err_0@ == e,
        },
{
    if base.is_none() {
        *base = Some(reg);
    } else if index.is_none() {
        *index = Some(reg);
    } else {
        return Err(
            ParseError::new(
                span,
                text_of("a memory operand allows at most two registers (base + index)"),
            ),
        );
    }
    Ok(())
}

/// Whether a token can begin a memory operand after a size keyword.
pub open spec fn starts_memory(toks: Seq<Token>, pos: int) -> bool {
    0 <= pos < toks.len() && (punct_is(toks[pos], "["@) || toks[pos].kind == TokenKind::Identifier
        || toks[pos].kind == TokenKind::Number || punct_is(toks[pos], "$"@))
}

/// After `BYTE`/`WORD` at `pos` (optionally followed by `PTR`): the size
/// and the position after the prefix, when a memory operand follows.
pub open spec fn size_prefix_at(toks: Seq<Token>, pos: int) -> (Option<Width>, int) {
    if keyword_at(toks, pos, "byte"@) || keyword_at(toks, pos, "word"@) {
        let width = if keyword_at(toks, pos, "byte"@) {
            Width::Byte
        } else {
            Width::Word
        };
        let after = if keyword_at(toks, pos + 1, "ptr"@) {
            pos + 2
        } else {
            pos + 1
        };
        if starts_memory(toks, after) {
            (Some(width), after)
        } else {
            (None, pos)
        }
    } else {
        (None, pos)
    }
}

/// A segment override `Sreg:` at `pos`, and the position after it.
pub open spec fn segment_prefix_at(toks: Seq<Token>, pos: int) -> (Option<Reg16>, int) {
    if 0 <= pos && pos + 1 < toks.len() && toks[pos].kind == TokenKind::Register && punct_is(
        toks[pos + 1],
        ":"@,
    ) {
        match register_named(upper(toks[pos].text@)) {
            Some(OperandView::Reg16(r)) => if spec_is_segment(r) {
                (Some(r), pos + 2)
            } else {
                (None, pos)
            },
            _ => (None, pos),
        }
    } else {
        (None, pos)
    }
}

/// A one-character literal (`'0'`): the quote, one ASCII character, and
/// one more ASCII character (the closing quote).
pub open spec fn char_literal_value(t: Seq<char>) -> Option<i64> {
    if t.len() == 3 && (t[1] as u32) < 128 && (t[2] as u32) < 128 {
        Some((t[1] as u32) as i64)
    } else {
        None
    }
}

pub open spec fn memory_view(
    size: Option<Width>,
    segment: Option<Reg16>,
    base: Option<Reg16>,
    index: Option<Reg16>,
    displacement: Option<ExprView>,
) -> OperandView {
    OperandView::Memory {
        size_override: size,
        segment_override: segment,
        base,
        index,
        displacement,
    }
}

/// The operand that starts at `pos` and where it ends.
pub open spec fn operand_at(toks: Seq<Token>, pos: int) -> Result<(OperandView, int), Fault> {
    if keyword_at(toks, pos, "offset"@) {
        match expr_chain_at(toks, pos + 1) {
            Ok((e, q)) => Ok((OperandView::Immediate(ExprView::Offset(Box::new(e))), q)),
            Err(e) => Err(e),
        }
    } else {
        let (size, p1) = size_prefix_at(toks, pos);
        let (segment, p) = segment_prefix_at(toks, p1);
        if p < 0 || p >= toks.len() {
            Err((no_span(), "expected an operand"@))
        } else {
            let tok = toks[p];
            if punct_is(tok, "["@) {
                match bracket_at(toks, p) {
                    Ok(((b, i, d), q)) => Ok((memory_view(size, segment, b, i, d), q)),
                    Err(e) => Err(e),
                }
            } else if segment is Some {
                Err(
                    (
                        tok.span,
                        "a segment override (e.g. ES:) must be followed by a memory operand in [...]"@,
                    ),
                )
            } else if tok.kind == TokenKind::Register {
                if size is Some {
                    Err((tok.span, "BYTE PTR/WORD PTR cannot precede a register operand"@))
                } else {
                    match register_named(upper(tok.text@)) {
                        None => Err((tok.span, "unknown register '"@ + tok.text@ + "'"@)),
                        Some(reg_op) => if punct_at(toks, p + 1, "["@) {
                            match addressing_named(upper(tok.text@)) {
                                None => Err((tok.span, not_addressing_message(tok.text@))),
                                Some(reg) => match bracket_at(toks, p + 1) {
                                    Ok(((bb, bi, d), q)) => {
                                        let s = toks[p + 1].span;
                                        let first = match bb {
                                            Some(x) => assign_reg(Some(reg), None, x, s),
                                            None => Ok((Some(reg), None)),
                                        };
                                        match first {
                                            Err(e) => Err(e),
                                            Ok((b1, i1)) => {
                                                let second = match bi {
                                                    Some(x) => assign_reg(b1, i1, x, s),
                                                    None => Ok((b1, i1)),
                                                };
                                                match second {
                                                    Err(e) => Err(e),
                                                    Ok((b2, i2)) => Ok(
                                                        (memory_view(size, segment, b2, i2, d), q),
                                                    ),
                                                }
                                            },
                                        }
                                    },
                                    Err(e) => Err(e),
                                },
                            }
                        } else {
                            Ok((reg_op, p + 1))
                        },
                    }
                }
            } else if tok.kind == TokenKind::Number || tok.kind == TokenKind::Identifier
                || punct_is(tok, "$"@) || punct_is(tok, "-"@) || punct_is(tok, "+"@) {
                match expr_chain_at(toks, p) {
                    Err(e) => Err(e),
                    Ok((e, q)) => if punct_at(toks, q, "["@) {
                        match bracket_at(toks, q) {
                            Ok(((b, i, d), q2)) => Ok(
                                (
                                    memory_view(
                                        size,
                                        segment,
                                        b,
                                        i,
                                        Some(
                                            match d {
                                                Some(dd) => accumulated(Some(e), dd),
                                                None => e,
                                            },
                                        ),
                                    ),
                                    q2,
                                ),
                            ),
                            Err(err) => Err(err),
                        }
                    } else if size is Some {
                        Ok((memory_view(size, segment, None, None, Some(e)), q))
                    } else {
                        Ok((OperandView::Immediate(e), q))
                    },
                }
            } else if tok.kind == TokenKind::StringLiteral && tok.text@.len() > 0 && tok.text@[0]
                == '\'' {
                match char_literal_value(tok.text@) {
                    Some(v) => Ok((OperandView::Immediate(ExprView::Number(v)), p + 1)),
                    None => Err(
                        (
                            tok.span,
                            "character-literal operand '"@ + tok.text@ + "' must be exactly one character"@,
                        ),
                    ),
                }
            } else {
                Err((tok.span, "unexpected token '"@ + tok.text@ + "' in operand"@))
            }
        }
    }
}

proof fn lemma_skip_signs(toks: Seq<Token>, pos: int, negate: bool)
    requires
        0 <= pos <= toks.len(),
    ensures
        pos <= skip_signs(toks, pos, negate).0 <= toks.len(),
    decreases toks.len() - pos,
{
    if 0 <= pos < toks.len() && punct_is(toks[pos], "-"@) {
        lemma_skip_signs(toks, pos + 1, !negate);
    } else if 0 <= pos < toks.len() && punct_is(toks[pos], "+"@) {
        lemma_skip_signs(toks, pos + 1, negate);
    }
}

proof fn lemma_memory_rest(toks: Seq<Token>, pos: int, a: Addressing)
    ensures
        memory_rest(toks, pos, a) matches Ok((_, q)) ==> pos <= q < toks.len(),
    decreases toks.len() - pos,
{
    if 0 <= pos < toks.len() && !punct_is(toks[pos], "]"@) && (punct_is(toks[pos], "+"@)
        || punct_is(toks[pos], "-"@)) {
        if let Ok(t) = memory_term_at(toks, pos + 1, punct_is(toks[pos], "-"@)) {
            if let Ok(a2) = apply_term(a, t, span_at(toks, pos + 1)) {
                lemma_memory_rest(toks, pos + 2, a2);
            }
        }
    }
}

/// A bracketed operand at `pos` ends after its `]`, at least two tokens on.
pub proof fn lemma_bracket_advances(toks: Seq<Token>, pos: int)
    requires
        0 <= pos < toks.len(),
    ensures
        bracket_at(toks, pos) matches Ok((_, q)) ==> pos + 2 <= q <= toks.len(),
{
    lemma_skip_signs(toks, pos + 1, false);
    let (p, neg) = skip_signs(toks, pos + 1, false);
    if let Ok(t) = memory_term_at(toks, p, neg) {
        if let Ok(a) = apply_term((None, None, None), t, span_at(toks, p)) {
            lemma_memory_rest(toks, p + 1, a);
        }
    }
}

/// An operand consumes at least one token and never runs past the end.
pub proof fn lemma_operand_advances(toks: Seq<Token>, pos: int)
    requires
        0 <= pos <= toks.len(),
    ensures
        operand_at(toks, pos) matches Ok((_, q)) ==> pos < q <= toks.len(),
{
    lemma_expr_advances(toks, pos + 1);
    let (size, p1) = size_prefix_at(toks, pos);
    let (segment, p) = segment_prefix_at(toks, p1);
    if 0 <= p < toks.len() {
        lemma_bracket_advances(toks, p);
        if p + 1 < toks.len() {
            lemma_bracket_advances(toks, p + 1);
        }
        lemma_expr_advances(toks, p);
        if let Ok((e, q)) = expr_chain_at(toks, p) {
            if 0 <= q < toks.len() {
                lemma_bracket_advances(toks, q);
            }
        }
    }
}

fn keyword_at_exec(tokens: &[Token], pos: usize, keyword: &str) -> (r: bool)
    ensures
        r == keyword_at(tokens@, pos as int, keyword@),
{
    pos < tokens.len() && is_keyword(&tokens[pos], keyword)
}

fn punct_at_exec(tokens: &[Token], pos: usize, text: &str) -> (r: bool)
    ensures
        r == punct_at(tokens@, pos as int, text@),
{
    pos < tokens.len() && is_punct(&tokens[pos], text)
}

fn parse_size_prefix(tokens: &[Token], pos: usize) -> (r: (Option<Width>, usize))
    requires
        pos <= tokens.len(),
    ensures
        (r.0, r.1 as int) == size_prefix_at(tokens@, pos as int),
        r.1 <= tokens.len(),
{
    let is_byte = keyword_at_exec(tokens, pos, "byte");
    if is_byte || keyword_at_exec(tokens, pos, "word") {
        let width = if is_byte {
            Width::Byte
        } else {
            Width::Word
        };
        let after = if keyword_at_exec(tokens, pos + 1, "ptr") {
            pos + 2
        } else {
            pos + 1
        };
        let starts = after < tokens.len() && (is_punct(&tokens[after], "[") || matches!(
            tokens[after].kind,
            TokenKind::Identifier | TokenKind::Number
        ) || is_punct(&tokens[after], "$"));
        if starts {
            (Some(width), after)
        } else {
            (None, pos)
        }
    } else {
        (None, pos)
    }
}

fn parse_segment_prefix(tokens: &[Token], pos: usize) -> (r: (Option<Reg16>, usize))
    requires
        pos <= tokens.len(),
    ensures
        (r.0, r.1 as int) == segment_prefix_at(tokens@, pos as int),
        r.1 <= tokens.len(),
{
    if pos < tokens.len() && pos + 1 < tokens.len() && tokens[pos].kind == TokenKind::Register && is_punct(
        &tokens[pos + 1],
        ":",
    ) {
        match register_operand_from_name(tokens[pos].text.as_str()) {
            Some(ParsedOperand::Reg16(r)) => if r.is_segment() {
                (Some(r), pos + 2)
            } else {
                (None, pos)
            },
            _ => (None, pos),
        }
    } else {
        (None, pos)
    }
}

fn char_literal(text: &str) -> (r: Option<i64>)
    ensures
        r == char_literal_value(text@),
{
    let t = chars_of(text);
    if t.len() == 3 && (t[1] as u32) < 128 && (t[2] as u32) < 128 {
        Some(t[1] as u32 as i64)
    } else {
        None
    }
}

fn starts_with_quote(text: &str) -> (r: bool)
    ensures
        r == (text@.len() > 0 && text@[0] == '\''),
{
    let t = chars_of(text);
    t.len() > 0 && t[0] == '\''
}

/// Parses the operand at `*pos`, leaving `*pos` after it.
#[verifier::rlimit(80)]
pub fn parse_operand(tokens: &[Token], pos: &mut usize) -> (r: Result<ParsedOperand, ParseError>)
    requires
        *old(pos) <= tokens.len(),
    ensures
        *final(pos) <= tokens.len(),
        match r {
            Ok(op) => operand_at(tokens@, *old(pos) as int) == Ok::<(OperandView, int), Fault>(
                (op@, *final(pos) as int),
            ),
            Err(e) => operand_at(tokens@, *old(pos) as int) is Err && operand_at(
                tokens@,
                *old(pos) as int,
            )->Err_0 == e@,
        },
{
    if keyword_at_exec(tokens, *pos, "offset") {
        *pos = *pos + 1;
        let expr = match parse_expr_chain(tokens, pos) {
            Ok(e) => e,
            Err(e) => {
                return Err(e);
            },
        };
        return Ok(ParsedOperand::Immediate(ParsedExpr::Offset(Box::new(expr))));
    }
    let (size_override, p1) = parse_size_prefix(tokens, *pos);
    let (segment_override, p) = parse_segment_prefix(tokens, p1);
    *pos = p;
    if p >= tokens.len() {
        return Err(ParseError::new(empty_span(), text_of("expected an operand")));
    }
    let tok = &tokens[p];
    if is_punct(tok, "[") {
        let (base, index, displacement) = match parse_bracket_addressing(tokens, pos) {
            Ok(a) => a,
            Err(e) => {
                return Err(e);
            },
        };
        return Ok(
            ParsedOperand::Memory { size_override, segment_override, base, index, displacement },
        );
    }
    if segment_override.is_some() {
        return Err(
            ParseError::new(
                tok.span,
                text_of(
                    "a segment override (e.g. ES:) must be followed by a memory operand in [...]",
                ),
            ),
        );
    }
    if tok.kind == TokenKind::Register {
        if size_override.is_some() {
            return Err(
                ParseError::new(
                    tok.span,
                    text_of("BYTE PTR/WORD PTR cannot precede a register operand"),
                ),
            );
        }
        let operand = match register_operand_from_name(tok.text.as_str()) {
            Some(op) => op,
            None => {
                return Err(
                    ParseError::new(
                        tok.span,
                        quoted("unknown register '", tok.text.as_str(), "'"),
                    ),
                );
            },
        };
        *pos = p + 1;
        if punct_at_exec(tokens, p + 1, "[") {
            let reg = match addressing_reg16_from_name(tok.text.as_str()) {
                Some(r) => r,
                None => {
                    return Err(
                        ParseError::new(
                            tok.span,
                            quoted(
                                "'",
                                tok.text.as_str(),
                                "' cannot be used as a base/index register inside [...]",
                            ),
                        ),
                    );
                },
            };
            let bracket_span = tokens[p + 1].span;
            let (bracket_base, bracket_index, displacement) = match parse_bracket_addressing(
                tokens,
                pos,
            ) {
                Ok(a) => a,
                Err(e) => {
                    return Err(e);
                },
            };
            let mut base = Some(reg);
            let mut index: Option<Reg16> = None;
            if let Some(b) = bracket_base {
                match assign_addressing_reg(&mut base, &mut index, b, bracket_span) {
                    Ok(()) => {},
                    Err(e) => {
                        return Err(e);
                    },
                }
            }
            if let Some(ix) = bracket_index {
                match assign_addressing_reg(&mut base, &mut index, ix, bracket_span) {
                    Ok(()) => {},
                    Err(e) => {
                        return Err(e);
                    },
                }
            }
            return Ok(
                ParsedOperand::Memory { size_override, segment_override, base, index, displacement },
            );
        }
        return Ok(operand);
    }
    if matches!(tok.kind, TokenKind::Number | TokenKind::Identifier) || is_punct(tok, "$")
        || is_punct(tok, "-") || is_punct(tok, "+") {
        let expr = match parse_expr_chain(tokens, pos) {
            Ok(e) => e,
            Err(e) => {
                return Err(e);
            },
        };
        if punct_at_exec(tokens, *pos, "[") {
            let (base, index, bracket_displacement) = match parse_bracket_addressing(tokens, pos) {
                Ok(a) => a,
                Err(e) => {
                    return Err(e);
                },
            };
            let displacement = Some(
                match bracket_displacement {
                    Some(d) => ParsedExpr::accumulate(Some(expr), d),
                    None => expr,
                },
            );
            return Ok(
                ParsedOperand::Memory { size_override, segment_override, base, index, displacement },
            );
        }
        if size_override.is_some() {
            return Ok(
                ParsedOperand::Memory {
                    size_override,
                    segment_override,
                    base: None,
                    index: None,
                    displacement: Some(expr),
                },
            );
        }
        return Ok(ParsedOperand::Immediate(expr));
    }
    if tok.kind == TokenKind::StringLiteral && starts_with_quote(tok.text.as_str()) {
        match char_literal(tok.text.as_str()) {
            Some(v) => {
                *pos = p + 1;
                return Ok(ParsedOperand::Immediate(ParsedExpr::Number(v)));
            },
            None => {
                return Err(
                    ParseError::new(
                        tok.span,
                        quoted(
                            "character-literal operand '",
                            tok.text.as_str(),
                            "' must be exactly one character",
                        ),
                    ),
                );
            },
        }
    }
    Err(ParseError::new(tok.span, quoted("unexpected token '", tok.text.as_str(), "' in operand")))
}

} // verus!
