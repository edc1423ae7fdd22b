//! A chain of number/symbol terms joined by `+`/`-` (no registers): plain
//! immediates, `ORG`/`EQU` values, `DUP` counts and numeric data items.
use super::ast::{ExprView, ParsedExpr};
use super::lexer::{Token, TokenKind};
use super::numbers::{number_value, parse_number};
use super::parse_error::{empty_span, no_span, quoted, text_of, Fault, ParseError};
use super::lexer::Span;
use crate::words::{eq_ignore_case, text_is, text_is_ignore_case};
use vstd::prelude::*;

verus! {

/// Whether the token is the punctuation `text`.
pub open spec fn punct_is(tok: Token, text: Seq<char>) -> bool {
    tok.kind == TokenKind::Punctuation && tok.text@ == text
}

/// Whether the token is the identifier `keyword`, in any ASCII case.
pub open spec fn keyword_is(tok: Token, keyword: Seq<char>) -> bool {
    tok.kind == TokenKind::Identifier && eq_ignore_case(tok.text@, keyword)
}

pub fn is_punct(tok: &Token, text: &str) -> (r: bool)
    ensures
        r == punct_is(*tok, text@),
{
    match tok.kind {
        TokenKind::Punctuation => text_is(tok.text.as_str(), text),
        _ => false,
    }
}

pub fn is_keyword(tok: &Token, keyword: &str) -> (r: bool)
    ensures
        r == keyword_is(*tok, keyword@),
{
    match tok.kind {
        TokenKind::Identifier => text_is_ignore_case(tok.text.as_str(), keyword),
        _ => false,
    }
}

/// Whether position `pos` holds the punctuation `text`.
pub open spec fn punct_at(toks: Seq<Token>, pos: int, text: Seq<char>) -> bool {
    0 <= pos < toks.len() && punct_is(toks[pos], text)
}

/// Whether position `pos` holds the keyword `keyword`.
pub open spec fn keyword_at(toks: Seq<Token>, pos: int, keyword: Seq<char>) -> bool {
    0 <= pos < toks.len() && keyword_is(toks[pos], keyword)
}

/// The span of the token at `pos`, or the zero span past the end.
pub open spec fn span_at(toks: Seq<Token>, pos: int) -> Span {
    if 0 <= pos < toks.len() {
        toks[pos].span
    } else {
        no_span()
    }
}

/// One atom: a number, a symbol or `$`. It consumes exactly one token.
pub open spec fn atom_at(toks: Seq<Token>, pos: int) -> Result<ExprView, Fault> {
    if pos < 0 || pos >= toks.len() {
        Err((no_span(), "expected a number or symbol"@))
    } else {
        let t = toks[pos];
        match t.kind {
            TokenKind::Number => match number_value(t.text@) {
                Some(v) => Ok(ExprView::Number(v)),
                None => Err((t.span, "invalid numeric literal '"@ + t.text@ + "'"@)),
            },
            TokenKind::Identifier => Ok(ExprView::Symbol(t.text@)),
            TokenKind::Punctuation => if t.text@ == "$"@ {
                Ok(ExprView::Symbol("$"@))
            } else {
                Err((t.span, "expected a number or symbol, found '"@ + t.text@ + "'"@))
            },
            _ => Err((t.span, "expected a number or symbol, found '"@ + t.text@ + "'"@)),
        }
    }
}

/// Skips the `+`/`-` signs from `pos` on, flipping `negate` at each `-`;
/// gives the position after them and the resulting sign.
pub open spec fn skip_signs(toks: Seq<Token>, pos: int, negate: bool) -> (int, bool)
    decreases toks.len() - pos,
{
    if 0 <= pos < toks.len() && punct_is(toks[pos], "-"@) {
        skip_signs(toks, pos + 1, !negate)
    } else if 0 <= pos < toks.len() && punct_is(toks[pos], "+"@) {
        skip_signs(toks, pos + 1, negate)
    } else {
        (pos, negate)
    }
}

/// The negative of a term: a number is negated (wrapping), anything else
/// is subtracted from zero.
pub open spec fn negative_of(e: ExprView) -> ExprView {
    match e {
        ExprView::Number(n) => ExprView::Number(negated(n)),
        other => ExprView::Diff(Box::new(ExprView::Number(0)), Box::new(other)),
    }
}

/// One term: any number of leading `+`/`-` signs, then an atom. The
/// result is the term and the position after it.
pub open spec fn term_at(toks: Seq<Token>, pos: int) -> Result<(ExprView, int), Fault> {
    let (p, neg) = skip_signs(toks, pos, false);
    match atom_at(toks, p) {
        Ok(e) => Ok(
            (
                if neg {
                    negative_of(e)
                } else {
                    e
                },
                p + 1,
            ),
        ),
        Err(e) => Err(e),
    }
}

/// A term ends after its first token and within the tokens.
pub proof fn lemma_term_advances(toks: Seq<Token>, pos: int)
    requires
        0 <= pos,
    ensures
        term_at(toks, pos) matches Ok((_, q)) ==> pos + 1 <= q <= toks.len(),
{
    lemma_skip_signs_advances(toks, pos, false);
}

pub proof fn lemma_skip_signs_advances(toks: Seq<Token>, pos: int, negate: bool)
    ensures
        skip_signs(toks, pos, negate).0 >= pos,
        pos <= toks.len() ==> skip_signs(toks, pos, negate).0 <= toks.len(),
    decreases toks.len() - pos,
{
    if 0 <= pos < toks.len() && punct_is(toks[pos], "-"@) {
        lemma_skip_signs_advances(toks, pos + 1, !negate);
    } else if 0 <= pos < toks.len() && punct_is(toks[pos], "+"@) {
        lemma_skip_signs_advances(toks, pos + 1, negate);
    }
}

/// `acc` followed by `('+' | '-') term` pairs from `pos` on; subtracting
/// a number folds into a `Sum` with the number negated (wrapping), any
/// other subtrahend makes a `Diff`. The result is the expression and
/// where parsing stopped.
pub open spec fn chain_from(toks: Seq<Token>, pos: int, acc: ExprView) -> Result<
    (ExprView, int),
    Fault,
>
    decreases toks.len() - pos,
{
    if pos < 0 || pos >= toks.len() {
        Ok((acc, pos))
    } else if punct_is(toks[pos], "+"@) {
        match term_at(toks, pos + 1) {
            Ok((t, q)) => {
                proof {
                    lemma_term_advances(toks, pos + 1);
                }
                chain_from(toks, q, ExprView::Sum(Box::new(acc), Box::new(t)))
            },
            Err(e) => Err(e),
        }
    } else if punct_is(toks[pos], "-"@) {
        match term_at(toks, pos + 1) {
            Ok((t, q)) => {
                proof {
                    lemma_term_advances(toks, pos + 1);
                }
                chain_from(toks, q, minus_step(acc, t))
            },
            Err(e) => Err(e),
        }
    } else {
        Ok((acc, pos))
    }
}

/// `acc - t`: a number folds into a `Sum` with it negated, anything else
/// makes a `Diff`.
pub open spec fn minus_step(acc: ExprView, t: ExprView) -> ExprView {
    match t {
        ExprView::Number(n) => ExprView::Sum(Box::new(acc), Box::new(ExprView::Number(negated(n)))),
        other => ExprView::Diff(Box::new(acc), Box::new(other)),
    }
}

/// Two's-complement negation (`i64::MIN` stays itself).
pub open spec fn negated(n: i64) -> i64 {
    if n == i64::MIN {
        n
    } else {
        (-n) as i64
    }
}

/// A whole chain starting at `pos`.
pub open spec fn expr_chain_at(toks: Seq<Token>, pos: int) -> Result<(ExprView, int), Fault> {
    match term_at(toks, pos) {
        Ok((t, q)) => chain_from(toks, q, t),
        Err(e) => Err(e),
    }
}

pub fn skip_signs_exec(tokens: &[Token], pos: usize, negate: bool) -> (r: (usize, bool))
    requires
        pos <= tokens.len(),
    ensures
        (r.0 as int, r.1) == skip_signs(tokens@, pos as int, negate),
        r.0 <= tokens.len(),
    decreases tokens.len() - pos,
{
    if pos < tokens.len() && is_punct(&tokens[pos], "-") {
        skip_signs_exec(tokens, pos + 1, !negate)
    } else if pos < tokens.len() && is_punct(&tokens[pos], "+") {
        skip_signs_exec(tokens, pos + 1, negate)
    } else {
        (pos, negate)
    }
}

fn negative_expr(e: ParsedExpr) -> (r: ParsedExpr)
    ensures
        r@ == negative_of(e@),
{
    match e {
        ParsedExpr::Number(n) => {
            let m: i64 = if n == i64::MIN {
                n
            } else {
                -n
            };
            assert(m == negated(n));
            ParsedExpr::Number(m)
        },
        other => {
            let zero = ParsedExpr::Number(0);
            assert(zero@ == ExprView::Number(0));
            let r = ParsedExpr::Diff(Box::new(zero), Box::new(other));
            assert(r@ == ExprView::Diff(Box::new(ExprView::Number(0)), Box::new(other@)));
            r
        },
    }
}

fn parse_term(tokens: &[Token], pos: &mut usize) -> (r: Result<ParsedExpr, ParseError>)
    requires
        *old(pos) <= tokens.len(),
    ensures
        match r {
            Ok(e) => term_at(tokens@, *old(pos) as int) == Ok::<(ExprView, int), Fault>(
                (e@, *final(pos) as int),
            ),
            Err(err) => term_at(tokens@, *old(pos) as int) == Err::<(ExprView, int), Fault>(
                err@,
            ) && *final(pos) == *old(pos),
        },
        *final(pos) <= tokens.len(),
{
    let (p, negate) = skip_signs_exec(tokens, *pos, false);
    if p >= tokens.len() {
        return Err(ParseError::new(empty_span(), text_of("expected a number or symbol")));
    }
    let tok = &tokens[p];
    let atom = match tok.kind {
        TokenKind::Number => match parse_number(tok.text.as_str()) {
            Some(value) => ParsedExpr::Number(value),
            None => {
                return Err(
                    ParseError::new(
                        tok.span,
                        quoted("invalid numeric literal '", tok.text.as_str(), "'"),
                    ),
                );
            },
        },
        TokenKind::Identifier => ParsedExpr::Symbol(tok.text.clone()),
        TokenKind::Punctuation => {
            if text_is(tok.text.as_str(), "$") {
                ParsedExpr::Symbol(text_of("$"))
            } else {
                return Err(
                    ParseError::new(
                        tok.span,
                        quoted("expected a number or symbol, found '", tok.text.as_str(), "'"),
                    ),
                );
            }
        },
        _ => {
            return Err(
                ParseError::new(
                    tok.span,
                    quoted("expected a number or symbol, found '", tok.text.as_str(), "'"),
                ),
            );
        },
    };
    *pos = p + 1;
    if negate {
        Ok(negative_expr(atom))
    } else {
        Ok(atom)
    }
}

#[verifier::rlimit(40)]
/// Parses one term, then as many `('+' | '-') term` pairs as follow it.
pub fn parse_expr_chain(tokens: &[Token], pos: &mut usize) -> (r: Result<ParsedExpr, ParseError>)
    requires
        *old(pos) <= tokens.len(),
    ensures
        match r {
            Ok(e) => expr_chain_at(tokens@, *old(pos) as int) == Ok::<(ExprView, int), Fault>(
                (e@, *final(pos) as int),
            ),
            Err(err) => expr_chain_at(tokens@, *old(pos) as int) is Err && expr_chain_at(
                tokens@,
                *old(pos) as int,
            )->Err_0 == err@,
        },
        *final(pos) <= tokens.len(),
{
    let ghost start = *pos;
    let mut expr = match parse_term(tokens, pos) {
        Ok(e) => e,
        Err(err) => {
            return Err(err);
        },
    };
    loop
        invariant
            *pos <= tokens.len(),
            start == *old(pos),
            expr_chain_at(tokens@, start as int) == chain_from(tokens@, *pos as int, expr@),
        decreases tokens.len() - *pos,
    {
        if *pos >= tokens.len() {
            return Ok(expr);
        }
        let ghost p = *pos as int;
        let ghost acc = expr@;
        let plus = is_punct(&tokens[*pos], "+");
        let minus = is_punct(&tokens[*pos], "-");
        if !plus && !minus {
            assert(chain_from(tokens@, p, acc) == Ok::<(ExprView, int), Fault>((acc, p)));
            return Ok(expr);
        }
        *pos = *pos + 1;
        let term = match parse_term(tokens, pos) {
            Ok(t) => t,
            Err(err) => {
                return Err(err);
            },
        };
        let ghost t = term@;
        let ghost q = *pos as int;
        proof {
            lemma_term_advances(tokens@, p + 1);
        }
        if plus {
            expr = ParsedExpr::accumulate(Some(expr), term);
            assert(chain_from(tokens@, p, acc) == chain_from(
                tokens@,
                q,
                ExprView::Sum(Box::new(acc), Box::new(t)),
            ));
        } else {
            assert(chain_from(tokens@, p, acc) == chain_from(tokens@, q, minus_step(acc, t)));
            expr = match term {
                ParsedExpr::Number(n) => {
                    let neg = if n == i64::MIN {
                        n
                    } else {
                        -n
                    };
                    ParsedExpr::accumulate(Some(expr), ParsedExpr::Number(neg))
                },
                other => ParsedExpr::Diff(Box::new(expr), Box::new(other)),
            };
            assert(expr@ == minus_step(acc, t));
        }
    }
}

/// A chain never ends before it started.
pub proof fn lemma_chain_advances(toks: Seq<Token>, pos: int, acc: ExprView)
    ensures
        chain_from(toks, pos, acc) matches Ok((_, q)) ==> q >= pos,
    decreases toks.len() - pos,
{
    if 0 <= pos < toks.len() {
        lemma_term_advances(toks, pos + 1);
        if punct_is(toks[pos], "+"@) {
            if let Ok((t, q)) = term_at(toks, pos + 1) {
                lemma_chain_advances(toks, q, ExprView::Sum(Box::new(acc), Box::new(t)));
            }
        } else if punct_is(toks[pos], "-"@) {
            if let Ok((t, q)) = term_at(toks, pos + 1) {
                lemma_chain_advances(toks, q, minus_step(acc, t));
            }
        }
    }
}

/// An expression consumes at least its first token.
pub proof fn lemma_expr_advances(toks: Seq<Token>, pos: int)
    requires
        0 <= pos,
    ensures
        expr_chain_at(toks, pos) matches Ok((_, q)) ==> pos + 1 <= q <= toks.len(),
{
    lemma_term_advances(toks, pos);
    if let Ok((t, q)) = term_at(toks, pos) {
        lemma_chain_advances(toks, q, t);
        lemma_chain_bounded(toks, q, t);
    }
}

pub proof fn lemma_chain_bounded(toks: Seq<Token>, pos: int, acc: ExprView)
    requires
        pos <= toks.len(),
    ensures
        chain_from(toks, pos, acc) matches Ok((_, q)) ==> q <= toks.len(),
    decreases toks.len() - pos,
{
    if 0 <= pos < toks.len() {
        lemma_term_advances(toks, pos + 1);
        if punct_is(toks[pos], "+"@) {
            if let Ok((t, q)) = term_at(toks, pos + 1) {
                lemma_chain_bounded(toks, q, ExprView::Sum(Box::new(acc), Box::new(t)));
            }
        } else if punct_is(toks[pos], "-"@) {
            if let Ok((t, q)) = term_at(toks, pos + 1) {
                lemma_chain_bounded(toks, q, minus_step(acc, t));
            }
        }
    }
}

} // verus!
