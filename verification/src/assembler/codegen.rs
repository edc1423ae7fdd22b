//! The two-pass driver: parsed statements to machine code, a line map,
//! diagnostics and a symbol table.
//!
//! Pass one walks the statements once, building the symbol table (labels
//! and `EQU`s, values relative to their own segment) and each
//! instruction's encoded length, which depends only on its syntactic
//! shape: operands are resolved leniently there (an unknown symbol reads
//! as 0) and errors wait for pass two. Pass two resolves strictly against
//! the complete table and encodes. `.DATA`/`.CODE` give each statement a
//! segment; the data segment is placed, paragraph-aligned, right after
//! the code.
use super::ast::{
    items_view, operands_view, DataItem, DataView, ExprView, KindView, OperandView, ParsedExpr,
    ParsedOperand, SegmentRole, Statement, StatementKind, StatementView, statements_view,
};
use super::encoder::{encode_one, encoding, encoding_of, operands_needed, EncodeError, Encoded};
use super::parse_error::{quoted, text_of, Fault, ParseError};
use super::symbols::{chars_less, SymbolEntry, SymbolKind, SymbolTable};
use super::expr_parser::keyword_is;
use super::lexer::{lex_from, token_matches, tokenize, Token, TokenKind};
use super::statement_parser::{lines_from, parse_program, program_from};
use crate::isa::{Instruction, Mnemonic, Operand, Repeat, Width};
use crate::words::{eq_ignore_case, text_is, text_is_ignore_case};
use crate::textfmt::{push_signed_decimal_i64, push_str, signed_decimal_text};
use vstd::prelude::*;
use vstd::string::StringSliceAdditionalSpecFns;
use vstd::utf8::encode_utf8;

verus! {

pub type Symbols = Map<Seq<char>, SymbolEntry>;

// --- expressions -------------------------------------------------------------

/// The value of an expression: numbers as written, `$` the current
/// location, `@DATA` (any case) the data segment's paragraph, other
/// symbols their table value; sums and differences wrap. `None` names an
/// undefined symbol.
pub open spec fn eval(e: ExprView, syms: Symbols, dsp: i64, cur: i64) -> Option<i64>
    decreases e,
{
    match e {
        ExprView::Number(n) => Some(n),
        ExprView::Symbol(s) => if s == "$"@ {
            Some(cur)
        } else if eq_ignore_case(s, "@data"@) {
            Some(dsp)
        } else if syms.contains_key(s) {
            Some(syms[s].value)
        } else {
            None
        },
        ExprView::Sum(a, b) => match (eval(*a, syms, dsp, cur), eval(*b, syms, dsp, cur)) {
            (Some(x), Some(y)) => Some(x.wrapping_add(y)),
            _ => None,
        },
        ExprView::Diff(a, b) => match (eval(*a, syms, dsp, cur), eval(*b, syms, dsp, cur)) {
            (Some(x), Some(y)) => Some(x.wrapping_sub(y)),
            _ => None,
        },
        ExprView::Offset(a) => eval(*a, syms, dsp, cur),
    }
}

/// Why `eval` fails: the first undefined symbol, left to right.
pub open spec fn eval_error(e: ExprView, syms: Symbols, dsp: i64, cur: i64) -> Seq<char>
    decreases e,
{
    match e {
        ExprView::Symbol(s) => undefined_message(s),
        ExprView::Sum(a, b) => if eval(*a, syms, dsp, cur) is None {
            eval_error(*a, syms, dsp, cur)
        } else {
            eval_error(*b, syms, dsp, cur)
        },
        ExprView::Diff(a, b) => if eval(*a, syms, dsp, cur) is None {
            eval_error(*a, syms, dsp, cur)
        } else {
            eval_error(*b, syms, dsp, cur)
        },
        ExprView::Offset(a) => eval_error(*a, syms, dsp, cur),
        ExprView::Number(_) => Seq::empty(),
    }
}

pub open spec fn undefined_message(name: Seq<char>) -> Seq<char> {
    "undefined symbol '"@ + name + "'"@
}

/// Pass one's evaluation: an undefined symbol reads as 0.
pub open spec fn eval_lenient(e: ExprView, syms: Symbols, dsp: i64, cur: i64) -> i64 {
    match eval(e, syms, dsp, cur) {
        Some(v) => v,
        None => 0,
    }
}

fn undefined_symbol(name: &String) -> (m: String)
    ensures
        m@ == undefined_message(name@),
{
    quoted("undefined symbol '", name.as_str(), "'")
}

fn is_data_symbol_name(name: &String) -> (r: bool)
    ensures
        r == eq_ignore_case(name@, "@data"@),
{
    text_is_ignore_case(name.as_str(), "@data")
}

fn is_dollar(name: &String) -> (r: bool)
    ensures
        r == (name@ == "$"@),
{
    text_is(name.as_str(), "$")
}

/// Evaluates an expression against the symbol table.
pub fn eval_expr(expr: &ParsedExpr, symbols: &SymbolTable, dsp: i64, cur: i64) -> (r: Result<
    i64,
    String,
>)
    requires
        symbols.wf(),
    ensures
        match eval(expr@, symbols.view(), dsp, cur) {
            Some(v) => r == Ok::<i64, String>(v),
            None => r matches Err(m) && m@ == eval_error(expr@, symbols.view(), dsp, cur),
        },
    decreases expr,
{
    match expr {
        ParsedExpr::Number(n) => Ok(*n),
        ParsedExpr::Symbol(name) => {
            if is_dollar(name) {
                Ok(cur)
            } else if is_data_symbol_name(name) {
                Ok(dsp)
            } else {
                match symbols.get(name.as_str()) {
                    Some(e) => Ok(e.value),
                    None => Err(undefined_symbol(name)),
                }
            }
        },
        ParsedExpr::Sum(a, b) => {
            let x = match eval_expr(a, symbols, dsp, cur) {
                Ok(x) => x,
                Err(m) => {
                    return Err(m);
                },
            };
            let y = match eval_expr(b, symbols, dsp, cur) {
                Ok(y) => y,
                Err(m) => {
                    return Err(m);
                },
            };
            Ok(x.wrapping_add(y))
        },
        ParsedExpr::Diff(a, b) => {
            let x = match eval_expr(a, symbols, dsp, cur) {
                Ok(x) => x,
                Err(m) => {
                    return Err(m);
                },
            };
            let y = match eval_expr(b, symbols, dsp, cur) {
                Ok(y) => y,
                Err(m) => {
                    return Err(m);
                },
            };
            Ok(x.wrapping_sub(y))
        },
        ParsedExpr::Offset(inner) => eval_expr(inner, symbols, dsp, cur),
    }
}

/// `eval_expr`, reading an undefined symbol as 0.
pub fn eval_expr_lenient(expr: &ParsedExpr, symbols: &SymbolTable, dsp: i64, cur: i64) -> (r: i64)
    requires
        symbols.wf(),
    ensures
        r == eval_lenient(expr@, symbols.view(), dsp, cur),
{
    match eval_expr(expr, symbols, dsp, cur) {
        Ok(v) => v,
        Err(_) => 0,
    }
}

// --- data items --------------------------------------------------------------

/// A paragraph-aligned address: `n` rounded up to a multiple of 16
/// (modulo 2^32).
pub open spec fn paragraph_round(n: u32) -> u32 {
    (((n as int + 15) / 16 * 16) % 0x1_0000_0000) as u32
}

pub fn round_up_to_paragraph(n: u32) -> (r: u32)
    ensures
        r == paragraph_round(n),
{
    let wide: u64 = (n as u64 + 15) / 16 * 16;
    (wide % 0x1_0000_0000) as u32
}

/// How many bytes a data item takes (pass one: a `DUP` count evaluates
/// leniently, negative counts as 0; sizes wrap at 2^32).
pub open spec fn item_len(d: DataView, unit: u32, syms: Symbols) -> u32
    decreases d,
{
    match d {
        DataView::Value(_) | DataView::Uninitialized => unit,
        DataView::Str(s) => (encode_utf8(s).len() as usize) as u32,
        DataView::Dup { count, item } => {
            let c = eval_lenient(count, syms, 0, 0);
            let n: u32 = if c < 0 {
                0
            } else {
                c as u32
            };
            n.wrapping_mul(item_len(*item, unit, syms))
        },
    }
}

pub open spec fn items_len(items: Seq<DataView>, unit: u32, syms: Symbols) -> u32
    decreases items.len(),
{
    if items.len() == 0 {
        0
    } else {
        items_len(items.drop_last(), unit, syms).wrapping_add(item_len(items.last(), unit, syms))
    }
}

fn string_byte_len(s: &String) -> (r: u32)
    ensures
        r == (encode_utf8(s@).len() as usize) as u32,
{
    let t = s.as_str();
    let n = t.len();
    n as u32
}

fn data_item_len(item: &DataItem, unit: u32, symbols: &SymbolTable) -> (r: u32)
    requires
        symbols.wf(),
    ensures
        r == item_len(item@, unit, symbols.view()),
    decreases item,
{
    match item {
        DataItem::Value(_) | DataItem::Uninitialized => unit,
        DataItem::Str(s) => string_byte_len(s),
        DataItem::Dup { count, item } => {
            let c = eval_expr_lenient(count, symbols, 0, 0);
            let n: u32 = if c < 0 {
                0
            } else {
                c as u32
            };
            n.wrapping_mul(data_item_len(item, unit, symbols))
        },
    }
}

fn data_items_len(items: &Vec<DataItem>, unit: u32, symbols: &SymbolTable) -> (r: u32)
    requires
        symbols.wf(),
    ensures
        r == items_len(items_view(items@), unit, symbols.view()),
{
    let mut total: u32 = 0;
    let mut i: usize = 0;
    while i < items.len()
        invariant
            i <= items.len(),
            symbols.wf(),
            total == items_len(items_view(items@.take(i as int)), unit, symbols.view()),
        decreases items.len() - i,
    {
        let l = data_item_len(&items[i], unit, symbols);
        assert(items_view(items@.take(i + 1)).drop_last() =~= items_view(items@.take(i as int)));
        total = total.wrapping_add(l);
        i = i + 1;
    }
    assert(items@.take(i as int) =~= items@);
    total
}

/// A value as one data unit: a byte in -128..=255 or a little-endian word
/// in -32768..=65535.
pub open spec fn unit_bytes(value: i64, unit: u32) -> Option<Seq<u8>> {
    if unit == 1 {
        if -128 <= value <= 255 {
            Some(seq![(value % 256) as u8])
        } else {
            None
        }
    } else {
        if -32768 <= value <= 65535 {
            let u = value % 65536;
            Some(seq![(u % 256) as u8, (u / 256) as u8])
        } else {
            None
        }
    }
}

/// `b` repeated `n` times.
pub open spec fn repeated(b: Seq<u8>, n: nat) -> Seq<u8>
    decreases n,
{
    if n == 0 {
        Seq::empty()
    } else {
        repeated(b, (n - 1) as nat) + b
    }
}

/// The bytes of one data item (pass two: strict evaluation).
pub open spec fn item_bytes(d: DataView, unit: u32, syms: Symbols, dsp: i64, cur: i64) -> Option<
    Seq<u8>,
>
    decreases d,
{
    match d {
        DataView::Value(e) => match eval(e, syms, dsp, cur) {
            Some(v) => unit_bytes(v, unit),
            None => None,
        },
        DataView::Str(s) => Some(encode_utf8(s)),
        DataView::Uninitialized => Some(Seq::new(unit as nat, |i: int| 0u8)),
        DataView::Dup { count, item } => match eval(count, syms, dsp, cur) {
            None => None,
            Some(c) => if c < 0 {
                None
            } else if c == 0 {
                Some(Seq::empty())
            } else {
                match item_bytes(*item, unit, syms, dsp, cur) {
                    Some(b) => Some(repeated(b, c as nat)),
                    None => None,
                }
            },
        },
    }
}

pub open spec fn items_bytes(items: Seq<DataView>, unit: u32, syms: Symbols, dsp: i64, cur: i64) -> Option<
    Seq<u8>,
>
    decreases items.len(),
{
    if items.len() == 0 {
        Some(Seq::empty())
    } else {
        match (items_bytes(items.drop_last(), unit, syms, dsp, cur), item_bytes(items.last(), unit, syms, dsp, cur)) {
            (Some(a), Some(b)) => Some(a + b),
            _ => None,
        }
    }
}

/// Why a value does not fit its data unit.
pub open spec fn unit_error(value: i64, unit: u32) -> Seq<char> {
    "value "@ + signed_decimal_text(value as int) + if unit == 1 {
        " does not fit in a DB byte"@
    } else {
        " does not fit in a DW word"@
    }
}

pub open spec fn negative_count_message(c: i64) -> Seq<char> {
    "DUP count cannot be negative, got "@ + signed_decimal_text(c as int)
}

/// Why `item_bytes` fails.
pub open spec fn item_error(d: DataView, unit: u32, syms: Symbols, dsp: i64, cur: i64) -> Seq<char>
    decreases d,
{
    match d {
        DataView::Value(e) => match eval(e, syms, dsp, cur) {
            None => eval_error(e, syms, dsp, cur),
            Some(v) => unit_error(v, unit),
        },
        DataView::Dup { count, item } => match eval(count, syms, dsp, cur) {
            None => eval_error(count, syms, dsp, cur),
            Some(c) => if c < 0 {
                negative_count_message(c)
            } else {
                item_error(*item, unit, syms, dsp, cur)
            },
        },
        _ => Seq::empty(),
    }
}

/// Why `items_bytes` fails: the first failing item's message.
pub open spec fn items_error(items: Seq<DataView>, unit: u32, syms: Symbols, dsp: i64, cur: i64) -> Seq<char>
    decreases items.len(),
{
    if items.len() == 0 {
        Seq::empty()
    } else if items_bytes(items.drop_last(), unit, syms, dsp, cur) is None {
        items_error(items.drop_last(), unit, syms, dsp, cur)
    } else {
        item_error(items.last(), unit, syms, dsp, cur)
    }
}

fn value_message(value: i64, tail: &str) -> (m: String)
    ensures
        m@ == "value "@ + signed_decimal_text(value as int) + tail@,
{
    let mut m = text_of("value ");
    push_signed_decimal_i64(&mut m, value);
    push_str(&mut m, tail);
    m
}

fn push_unit(out: &mut Vec<u8>, value: i64, unit: u32) -> (r: Result<(), String>)
    ensures
        match unit_bytes(value, unit) {
            Some(b) => r is Ok && final(out)@ == old(out)@ + b,
            None => r matches Err(m) && m@ == unit_error(value, unit),
        },
{
    if unit == 1 {
        if !(-128 <= value && value <= 255) {
            return Err(value_message(value, " does not fit in a DB byte"));
        }
        let b: u8 = ((value % 256 + 256) % 256) as u8;
        out.push(b);
        assert(out@ =~= old(out)@ + seq![(value % 256) as u8]);
    } else {
        if !(-32768 <= value && value <= 65535) {
            return Err(value_message(value, " does not fit in a DW word"));
        }
        let u: i64 = (value % 65536 + 65536) % 65536;
        assert(u == value % 65536);
        out.push((u % 256) as u8);
        out.push((u / 256) as u8);
        assert(out@ =~= old(out)@ + seq![(u % 256) as u8, (u / 256) as u8]);
    }
    Ok(())
}

fn push_bytes(out: &mut Vec<u8>, b: &[u8])
    ensures
        final(out)@ == old(out)@ + b@,
{
    let mut i: usize = 0;
    while i < b.len()
        invariant
            i <= b.len(),
            out@ == old(out)@ + b@.take(i as int),
        decreases b.len() - i,
    {
        out.push(b[i]);
        i = i + 1;
        assert(out@ =~= old(out)@ + b@.take(i as int));
    }
    assert(b@.take(i as int) =~= b@);
}

proof fn lemma_repeated_succ(b: Seq<u8>, n: nat)
    ensures
        repeated(b, n + 1) == repeated(b, n) + b,
{
}

fn encode_data_item(
    item: &DataItem,
    unit: u32,
    symbols: &SymbolTable,
    dsp: i64,
    cur: i64,
    out: &mut Vec<u8>,
) -> (r: Result<(), String>)
    requires
        symbols.wf(),
        unit == 1 || unit == 2,
    ensures
        match item_bytes(item@, unit, symbols.view(), dsp, cur) {
            Some(b) => r is Ok && final(out)@ == old(out)@ + b,
            None => r matches Err(m) && m@ == item_error(item@, unit, symbols.view(), dsp, cur),
        },
    decreases item,
{
    match item {
        DataItem::Value(expr) => {
            let value = match eval_expr(expr, symbols, dsp, cur) {
                Ok(v) => v,
                Err(m) => {
                    return Err(m);
                },
            };
            push_unit(out, value, unit)
        },
        DataItem::Str(s) => {
            let bytes = s.as_str().as_bytes();
            push_bytes(out, bytes);
            Ok(())
        },
        DataItem::Uninitialized => {
            let ghost start = out@;
            let mut k: u32 = 0;
            while k < unit
                invariant
                    k <= unit,
                    out@ == start + Seq::new(k as nat, |i: int| 0u8),
                decreases unit - k,
            {
                out.push(0u8);
                k = k + 1;
                assert(out@ =~= start + Seq::new(k as nat, |i: int| 0u8));
            }
            Ok(())
        },
        DataItem::Dup { count, item } => {
            let c = match eval_expr(count, symbols, dsp, cur) {
                Ok(v) => v,
                Err(m) => {
                    return Err(m);
                },
            };
            if c < 0 {
                let mut m = text_of("DUP count cannot be negative, got ");
                push_signed_decimal_i64(&mut m, c);
                return Err(m);
            }
            if c == 0 {
                assert(out@ =~= old(out)@ + Seq::<u8>::empty());
                return Ok(());
            }
            let mut unit_out: Vec<u8> = Vec::new();
            match encode_data_item(&**item, unit, symbols, dsp, cur, &mut unit_out) {
                Ok(()) => {},
                Err(m) => {
                    return Err(m);
                },
            }
            let ghost b = unit_out@;
            assert(b =~= Seq::<u8>::empty() + unit_out@);
            let ghost start = out@;
            let mut k: i64 = 0;
            while k < c
                invariant
                    0 <= k <= c,
                    unit_out@ == b,
                    out@ == start + repeated(b, k as nat),
                decreases c - k,
            {
                push_bytes(out, unit_out.as_slice());
                proof {
                    lemma_repeated_succ(b, k as nat);
                }
                assert(out@ =~= start + repeated(b, (k + 1) as nat));
                k = k + 1;
            }
            Ok(())
        },
    }
}

fn encode_data_items(items: &Vec<DataItem>, unit: u32, symbols: &SymbolTable, dsp: i64, cur: i64) -> (r:
    Result<Vec<u8>, String>)
    requires
        symbols.wf(),
        unit == 1 || unit == 2,
    ensures
        match items_bytes(items_view(items@), unit, symbols.view(), dsp, cur) {
            Some(b) => r matches Ok(v) && v@ == b,
            None => r matches Err(m) && m@ == items_error(items_view(items@), unit, symbols.view(), dsp, cur),
        },
{
    let mut bytes: Vec<u8> = Vec::new();
    let mut i: usize = 0;
    while i < items.len()
        invariant
            i <= items.len(),
            symbols.wf(),
            unit == 1 || unit == 2,
            items_bytes(items_view(items@.take(i as int)), unit, symbols.view(), dsp, cur) == Some(
                bytes@,
            ),
        decreases items.len() - i,
    {
        assert(items_view(items@.take(i + 1)).drop_last() =~= items_view(items@.take(i as int)));
        assert(items_view(items@.take(i + 1)).last() == items@[i as int]@);
        match encode_data_item(&items[i], unit, symbols, dsp, cur, &mut bytes) {
            Ok(()) => {},
            Err(m) => {
                proof {
                    assert(items_view(items@).take(i + 1) =~= items_view(items@.take(i + 1)));
                    lemma_items_bytes_fails(items_view(items@), unit, symbols.view(), dsp, cur, i + 1);
                }
                return Err(m);
            },
        }
        i = i + 1;
    }
    assert(items@.take(i as int) =~= items@);
    Ok(bytes)
}

/// Once a prefix fails, so does the whole list.
proof fn lemma_items_bytes_fails(items: Seq<DataView>, unit: u32, syms: Symbols, dsp: i64, cur: i64, k: int)
    requires
        0 < k <= items.len(),
        items_bytes(items.take(k), unit, syms, dsp, cur) is None,
    ensures
        items_bytes(items, unit, syms, dsp, cur) is None,
        items_error(items, unit, syms, dsp, cur) == items_error(items.take(k), unit, syms, dsp, cur),
    decreases items.len() - k,
{
    if k < items.len() {
        assert(items.take(k + 1).drop_last() =~= items.take(k));
        lemma_items_bytes_fails(items, unit, syms, dsp, cur, k + 1);
    } else {
        assert(items.take(k) =~= items);
    }
}

// --- instruction resolution --------------------------------------------------

pub open spec fn is_branch_mnemonic(m: Mnemonic) -> bool {
    m is Jmp || m is Jcc || m is Loop || m is Loope || m is Loopne || m is Jcxz || m is Call
}

/// A branch's length follows from its form alone: `JMP` is near (3)
/// unless `SHORT` (2), `CALL` is near (3), the rest are rel8 (2).
pub open spec fn branch_length(m: Mnemonic, short_jump: bool) -> u8 {
    match m {
        Mnemonic::Jmp => if short_jump {
            2
        } else {
            3
        },
        Mnemonic::Call => 3,
        _ => 2,
    }
}

pub open spec fn needs_width(m: Mnemonic) -> bool {
    m is Mov || m is Xchg || m is Add || m is Adc || m is Sub || m is Sbb || m is Cmp || m is Inc
        || m is Dec || m is And || m is Or || m is Xor || m is Test || m is Mul || m is Imul
        || m is Div || m is Idiv || m is Neg || m is Not
}

pub open spec fn is_shift_rotate(m: Mnemonic) -> bool {
    m is Shl || m is Shr || m is Sar || m is Rol || m is Ror || m is Rcl || m is Rcr
}

/// The width of the first register operand from `i` on.
pub open spec fn first_register_width(ops: Seq<OperandView>, i: int) -> Option<Width>
    decreases ops.len() - i,
{
    if i < 0 || i >= ops.len() {
        None
    } else {
        match ops[i] {
            OperandView::Reg8(_) => Some(Width::Byte),
            OperandView::Reg16(_) => Some(Width::Word),
            _ => first_register_width(ops, i + 1),
        }
    }
}

/// The first explicit `BYTE`/`WORD` size from `i` on.
pub open spec fn first_size_override(ops: Seq<OperandView>, i: int) -> Option<Width>
    decreases ops.len() - i,
{
    if i < 0 || i >= ops.len() {
        None
    } else {
        match ops[i] {
            OperandView::Memory { size_override: Some(w), .. } => Some(w),
            _ => first_size_override(ops, i + 1),
        }
    }
}

/// The operand width an instruction gets: fixed for PUSH/POP/LEA, the
/// destination's for shifts, none where the mnemonic needs none, else the
/// first register's, else the first explicit size; `None` (outer) where
/// it stays ambiguous.
pub open spec fn width_for(m: Mnemonic, ops: Seq<OperandView>) -> Option<Option<Width>> {
    if m is Push || m is Pop || m is Lea {
        Some(Some(Width::Word))
    } else if is_shift_rotate(m) {
        if ops.len() == 0 {
            None
        } else {
            match ops[0] {
                OperandView::Reg8(_) => Some(Some(Width::Byte)),
                OperandView::Reg16(_) => Some(Some(Width::Word)),
                OperandView::Memory { size_override: Some(w), .. } => Some(Some(w)),
                _ => None,
            }
        }
    } else if !needs_width(m) {
        Some(None)
    } else if first_register_width(ops, 0) is Some {
        Some(first_register_width(ops, 0))
    } else if first_size_override(ops, 0) is Some {
        Some(first_size_override(ops, 0))
    } else {
        None
    }
}

/// Strict evaluation in pass two, lenient in pass one.
pub open spec fn strict_value(e: ExprView, syms: Symbols, strict: bool, dsp: i64, cur: i64) -> Option<i64> {
    if strict {
        eval(e, syms, dsp, cur)
    } else {
        Some(eval_lenient(e, syms, dsp, cur))
    }
}

/// The operand an unresolved one becomes. `OFFSET x` is x's value; `$`
/// and `@DATA` are the location and data paragraph; a bare `DB`/`DW`
/// variable is a direct memory reference in MASM style (`nasm` false)
/// and its address in NASM style; in pass one (`strict` false) an
/// unknown symbol reads as 0, taking the memory shape when the prescan
/// saw a data variable of that name.
pub open spec fn resolved_operand(
    op: OperandView,
    syms: Symbols,
    kinds: Symbols,
    strict: bool,
    dsp: i64,
    cur: i64,
    nasm: bool,
) -> Option<Operand> {
    match op {
        OperandView::Reg16(r) => Some(Operand::Reg16(r)),
        OperandView::Reg8(r) => Some(Operand::Reg8(r)),
        OperandView::Immediate(ExprView::Offset(inner)) => match strict_value(*inner, syms, strict, dsp, cur) {
            Some(v) => Some(Operand::Immediate(v as i32)),
            None => None,
        },
        OperandView::Immediate(ExprView::Symbol(name)) => if name == "$"@ {
            Some(Operand::Immediate(cur as i32))
        } else if eq_ignore_case(name, "@data"@) {
            Some(Operand::Immediate(dsp as i32))
        } else if syms.contains_key(name) {
            let entry = syms[name];
            if entry.kind.spec_is_data() && !nasm {
                Some(
                    Operand::Memory {
                        segment_override: None,
                        base: None,
                        index: None,
                        displacement: entry.value as i32,
                    },
                )
            } else {
                Some(Operand::Immediate(entry.value as i32))
            }
        } else if strict {
            None
        } else if kinds.contains_key(name) && kinds[name].kind.spec_is_data() && !nasm {
            Some(Operand::Memory { segment_override: None, base: None, index: None, displacement: 0 })
        } else {
            Some(Operand::Immediate(0))
        },
        OperandView::Immediate(e) => match strict_value(e, syms, strict, dsp, cur) {
            Some(v) => Some(Operand::Immediate(v as i32)),
            None => None,
        },
        OperandView::Memory { segment_override, base, index, displacement, .. } => {
            let d: Option<i64> = match displacement {
                None => Some(0),
                Some(e) => strict_value(e, syms, strict, dsp, cur),
            };
            match d {
                Some(v) => Some(Operand::Memory { segment_override, base, index, displacement: v as i32 }),
                None => None,
            }
        },
    }
}

/// Why `resolved_operand` fails (only strictly: an undefined symbol).
pub open spec fn operand_error(op: OperandView, syms: Symbols, dsp: i64, cur: i64) -> Seq<char> {
    match op {
        OperandView::Immediate(e) => eval_error(e, syms, dsp, cur),
        OperandView::Memory { displacement: Some(e), .. } => eval_error(e, syms, dsp, cur),
        _ => Seq::empty(),
    }
}

/// Why `resolved_operands` fails: the first failing operand's message.
pub open spec fn operands_error(
    ops: Seq<OperandView>,
    syms: Symbols,
    kinds: Symbols,
    strict: bool,
    dsp: i64,
    cur: i64,
    nasm: bool,
) -> Seq<char>
    decreases ops.len(),
{
    if ops.len() == 0 {
        Seq::empty()
    } else if resolved_operands(ops.drop_last(), syms, kinds, strict, dsp, cur, nasm) is None {
        operands_error(ops.drop_last(), syms, kinds, strict, dsp, cur, nasm)
    } else {
        operand_error(ops.last(), syms, dsp, cur)
    }
}

/// Why `resolved_instruction` fails.
pub open spec fn instruction_error(
    m: Mnemonic,
    ops: Seq<OperandView>,
    syms: Symbols,
    kinds: Symbols,
    loc: u32,
    strict: bool,
    dsp: i64,
    nasm: bool,
) -> Seq<char> {
    if is_branch_mnemonic(m) {
        if ops.len() == 0 {
            "branch instruction requires a target operand"@
        } else if !(ops[0] is Immediate) {
            "branch target must be a label or address"@
        } else {
            eval_error(ops[0]->Immediate_0, syms, dsp, loc as i64)
        }
    } else if width_for(m, ops) is None {
        "ambiguous operand size: add BYTE PTR or WORD PTR"@
    } else {
        operands_error(ops, syms, kinds, strict, dsp, loc as i64, nasm)
    }
}

/// All operands resolved, in order; `None` if any fails.
pub open spec fn resolved_operands(
    ops: Seq<OperandView>,
    syms: Symbols,
    kinds: Symbols,
    strict: bool,
    dsp: i64,
    cur: i64,
    nasm: bool,
) -> Option<Seq<Operand>>
    decreases ops.len(),
{
    if ops.len() == 0 {
        Some(Seq::empty())
    } else {
        match (
            resolved_operands(ops.drop_last(), syms, kinds, strict, dsp, cur, nasm),
            resolved_operand(ops.last(), syms, kinds, strict, dsp, cur, nasm),
        ) {
            (Some(a), Some(b)) => Some(a.push(b)),
            _ => None,
        }
    }
}

/// A resolved instruction: (mnemonic, operands, width, byte length,
/// repeat prefix).
pub type Resolved = (Mnemonic, Seq<Operand>, Option<Width>, u8, Option<Repeat>);

/// The instruction a parsed one resolves to at location `loc`. A branch
/// gets its target as a displacement from the address after it.
pub open spec fn resolved_instruction(
    m: Mnemonic,
    ops: Seq<OperandView>,
    short_jump: bool,
    repeat: Option<Repeat>,
    syms: Symbols,
    kinds: Symbols,
    loc: u32,
    strict: bool,
    dsp: i64,
    nasm: bool,
) -> Option<Resolved> {
    if is_branch_mnemonic(m) {
        if ops.len() == 0 || !(ops[0] is Immediate) {
            None
        } else {
            let fixed = branch_length(m, short_jump);
            let after = loc.wrapping_add(fixed as u32);
            let target = if strict {
                eval(ops[0]->Immediate_0, syms, dsp, loc as i64)
            } else {
                Some(eval_lenient(ops[0]->Immediate_0, syms, dsp, loc as i64))
            };
            match target {
                Some(t) => Some(
                    (m, seq![Operand::Immediate(t.wrapping_sub(after as i64) as i32)], None, fixed, None),
                ),
                None => None,
            }
        }
    } else {
        match width_for(m, ops) {
            None => None,
            Some(w) => match resolved_operands(ops, syms, kinds, strict, dsp, loc as i64, nasm) {
                Some(r) => Some((m, r, w, 0, repeat)),
                None => None,
            },
        }
    }
}

/// The bytes of a resolved instruction, when it has enough operands and
/// an encoding.
pub open spec fn resolved_bytes(r: Resolved) -> Encoded {
    if r.1.len() < operands_needed(r.0) {
        Err("wrong number of operands for this instruction"@)
    } else {
        encoding_of(r.0, r.1, r.2, r.3, r.4)
    }
}

fn is_branch(m: Mnemonic) -> (r: bool)
    ensures
        r == is_branch_mnemonic(m),
{
    match m {
        Mnemonic::Jmp | Mnemonic::Jcc(_) | Mnemonic::Loop | Mnemonic::Loope | Mnemonic::Loopne
        | Mnemonic::Jcxz | Mnemonic::Call => true,
        _ => false,
    }
}

fn branch_fixed_length(m: Mnemonic, short_jump: bool) -> (r: u8)
    ensures
        r == branch_length(m, short_jump),
{
    match m {
        Mnemonic::Jmp => if short_jump {
            2
        } else {
            3
        },
        Mnemonic::Call => 3,
        _ => 2,
    }
}

fn mnemonic_needs_width(m: Mnemonic) -> (r: bool)
    ensures
        r == needs_width(m),
{
    match m {
        Mnemonic::Mov | Mnemonic::Xchg | Mnemonic::Add | Mnemonic::Adc | Mnemonic::Sub
        | Mnemonic::Sbb | Mnemonic::Cmp | Mnemonic::Inc | Mnemonic::Dec | Mnemonic::And
        | Mnemonic::Or | Mnemonic::Xor | Mnemonic::Test | Mnemonic::Mul | Mnemonic::Imul
        | Mnemonic::Div | Mnemonic::Idiv | Mnemonic::Neg | Mnemonic::Not => true,
        _ => false,
    }
}

fn is_shift_rotate_mnemonic(m: Mnemonic) -> (r: bool)
    ensures
        r == is_shift_rotate(m),
{
    match m {
        Mnemonic::Shl | Mnemonic::Shr | Mnemonic::Sar | Mnemonic::Rol | Mnemonic::Ror
        | Mnemonic::Rcl | Mnemonic::Rcr => true,
        _ => false,
    }
}

fn ambiguous_size() -> (m: String)
    ensures
        m@ == "ambiguous operand size: add BYTE PTR or WORD PTR"@,
{
    text_of("ambiguous operand size: add BYTE PTR or WORD PTR")
}

fn determine_width(m: Mnemonic, operands: &Vec<ParsedOperand>) -> (r: Result<Option<Width>, String>)
    ensures
        match width_for(m, operands_view(operands@)) {
            Some(w) => r == Ok::<Option<Width>, String>(w),
            None => r matches Err(msg) && msg@ == "ambiguous operand size: add BYTE PTR or WORD PTR"@,
        },
{
    let ghost ov = operands_view(operands@);
    if matches!(m, Mnemonic::Push | Mnemonic::Pop | Mnemonic::Lea) {
        return Ok(Some(Width::Word));
    }
    if is_shift_rotate_mnemonic(m) {
        if operands.len() == 0 {
            return Err(ambiguous_size());
        }
        assert(ov[0] == operands@[0]@);
        return match &operands[0] {
            ParsedOperand::Reg8(_) => Ok(Some(Width::Byte)),
            ParsedOperand::Reg16(_) => Ok(Some(Width::Word)),
            ParsedOperand::Memory { size_override: Some(w), .. } => Ok(Some(*w)),
            _ => Err(ambiguous_size()),
        };
    }
    if !mnemonic_needs_width(m) {
        return Ok(None);
    }
    let mut i: usize = 0;
    while i < operands.len()
        invariant
            i <= operands.len(),
            ov == operands_view(operands@),
            !(m is Push || m is Pop || m is Lea),
            !is_shift_rotate(m),
            needs_width(m),
            first_register_width(ov, 0) == first_register_width(ov, i as int),
        decreases operands.len() - i,
    {
        assert(ov[i as int] == operands@[i as int]@);
        match &operands[i] {
            ParsedOperand::Reg8(_) => {
                return Ok(Some(Width::Byte));
            },
            ParsedOperand::Reg16(_) => {
                return Ok(Some(Width::Word));
            },
            _ => {},
        }
        i = i + 1;
    }
    let mut j: usize = 0;
    while j < operands.len()
        invariant
            j <= operands.len(),
            ov == operands_view(operands@),
            !(m is Push || m is Pop || m is Lea),
            !is_shift_rotate(m),
            needs_width(m),
            first_register_width(ov, 0) is None,
            first_size_override(ov, 0) == first_size_override(ov, j as int),
        decreases operands.len() - j,
    {
        assert(ov[j as int] == operands@[j as int]@);
        if let ParsedOperand::Memory { size_override: Some(w), .. } = &operands[j] {
            return Ok(Some(*w));
        }
        j = j + 1;
    }
    Err(ambiguous_size())
}

fn value_of(expr: &ParsedExpr, symbols: &SymbolTable, strict: bool, dsp: i64, cur: i64) -> (r: Result<
    i64,
    String,
>)
    requires
        symbols.wf(),
    ensures
        strict ==> match eval(expr@, symbols.view(), dsp, cur) {
            Some(v) => r == Ok::<i64, String>(v),
            None => r matches Err(m) && m@ == eval_error(expr@, symbols.view(), dsp, cur),
        },
        !strict ==> r == Ok::<i64, String>(eval_lenient(expr@, symbols.view(), dsp, cur)),
{
    if strict {
        eval_expr(expr, symbols, dsp, cur)
    } else {
        Ok(eval_expr_lenient(expr, symbols, dsp, cur))
    }
}

fn resolve_operand(
    operand: &ParsedOperand,
    symbols: &SymbolTable,
    kinds: &SymbolTable,
    strict: bool,
    dsp: i64,
    cur: i64,
    nasm: bool,
) -> (r: Result<Operand, String>)
    requires
        symbols.wf(),
        kinds.wf(),
    ensures
        match resolved_operand(operand@, symbols.view(), kinds.view(), strict, dsp, cur, nasm) {
            Some(o) => r == Ok::<Operand, String>(o),
            None => r matches Err(m) && m@ == operand_error(operand@, symbols.view(), dsp, cur),
        },
{
    match operand {
        ParsedOperand::Reg16(r) => Ok(Operand::Reg16(*r)),
        ParsedOperand::Reg8(r) => Ok(Operand::Reg8(*r)),
        ParsedOperand::Immediate(ParsedExpr::Offset(inner)) => {
            match value_of(inner, symbols, strict, dsp, cur) {
                Ok(v) => Ok(Operand::Immediate(v as i32)),
                Err(m) => Err(m),
            }
        },
        ParsedOperand::Immediate(ParsedExpr::Symbol(name)) => {
            if is_dollar(name) {
                Ok(Operand::Immediate(cur as i32))
            } else if is_data_symbol_name(name) {
                Ok(Operand::Immediate(dsp as i32))
            } else {
                match symbols.get(name.as_str()) {
                    Some(entry) => {
                        if entry.kind.is_data() && !nasm {
                            Ok(Operand::mem_direct(entry.value as i32))
                        } else {
                            Ok(Operand::Immediate(entry.value as i32))
                        }
                    },
                    None => {
                        if strict {
                            Err(undefined_symbol(name))
                        } else {
                            match kinds.get(name.as_str()) {
                                Some(k) => if k.kind.is_data() && !nasm {
                                    Ok(Operand::mem_direct(0))
                                } else {
                                    Ok(Operand::Immediate(0))
                                },
                                None => Ok(Operand::Immediate(0)),
                            }
                        }
                    },
                }
            }
        },
        ParsedOperand::Immediate(expr) => match value_of(expr, symbols, strict, dsp, cur) {
            Ok(v) => Ok(Operand::Immediate(v as i32)),
            Err(m) => Err(m),
        },
        ParsedOperand::Memory { segment_override, base, index, displacement, .. } => {
            let d: i64 = match displacement {
                None => 0,
                Some(e) => match value_of(e, symbols, strict, dsp, cur) {
                    Ok(v) => v,
                    Err(m) => {
                        return Err(m);
                    },
                },
            };
            Ok(
                Operand::Memory {
                    segment_override: *segment_override,
                    base: *base,
                    index: *index,
                    displacement: d as i32,
                },
            )
        },
    }
}

/// Resolves a parsed instruction at location `loc`.
pub fn resolve_instruction(
    mnemonic: Mnemonic,
    operands: &Vec<ParsedOperand>,
    short_jump: bool,
    repeat: Option<Repeat>,
    symbols: &SymbolTable,
    kinds: &SymbolTable,
    loc: u32,
    strict: bool,
    dsp: i64,
    nasm: bool,
) -> (r: Result<Instruction, String>)
    requires
        symbols.wf(),
        kinds.wf(),
    ensures
        match resolved_instruction(
            mnemonic,
            operands_view(operands@),
            short_jump,
            repeat,
            symbols.view(),
            kinds.view(),
            loc,
            strict,
            dsp,
            nasm,
        ) {
            Some(x) => r matches Ok(i) && (i.mnemonic, i.operands@, i.width, i.byte_len, i.repeat) == x,
            None => r matches Err(m) && m@ == instruction_error(
                mnemonic,
                operands_view(operands@),
                symbols.view(),
                kinds.view(),
                loc,
                strict,
                dsp,
                nasm,
            ),
        },
{
    let ghost ov = operands_view(operands@);
    if is_branch(mnemonic) {
        if operands.len() == 0 {
            return Err(text_of("branch instruction requires a target operand"));
        }
        assert(ov[0] == operands@[0]@);
        let target_expr = match &operands[0] {
            ParsedOperand::Immediate(e) => e,
            _ => {
                return Err(text_of("branch target must be a label or address"));
            },
        };
        let fixed = branch_fixed_length(mnemonic, short_jump);
        let after = loc.wrapping_add(fixed as u32);
        let target = match value_of(target_expr, symbols, strict, dsp, loc as i64) {
            Ok(t) => t,
            Err(m) => {
                return Err(m);
            },
        };
        let rel = target.wrapping_sub(after as i64);
        let mut ops: Vec<Operand> = Vec::new();
        ops.push(Operand::Immediate(rel as i32));
        let instr = Instruction::new(mnemonic, ops, None, fixed);
        assert(instr.operands@ =~= seq![Operand::Immediate(rel as i32)]);
        return Ok(instr);
    }
    let width = match determine_width(mnemonic, operands) {
        Ok(w) => w,
        Err(m) => {
            return Err(m);
        },
    };
    let mut resolved: Vec<Operand> = Vec::new();
    let mut i: usize = 0;
    while i < operands.len()
        invariant
            i <= operands.len(),
            symbols.wf(),
            kinds.wf(),
            ov == operands_view(operands@),
            !is_branch_mnemonic(mnemonic),
            width_for(mnemonic, ov) == Some(width),
            resolved_operands(ov.take(i as int), symbols.view(), kinds.view(), strict, dsp, loc as i64, nasm)
                == Some(resolved@),
        decreases operands.len() - i,
    {
        assert(ov.take(i + 1).drop_last() =~= ov.take(i as int));
        assert(ov.take(i + 1).last() == operands@[i as int]@);
        match resolve_operand(&operands[i], symbols, kinds, strict, dsp, loc as i64, nasm) {
            Ok(o) => {
                resolved.push(o);
            },
            Err(m) => {
                proof {
                    lemma_resolved_fails(ov, symbols.view(), kinds.view(), strict, dsp, loc as i64, nasm, i + 1);
                }
                return Err(m);
            },
        }
        i = i + 1;
    }
    assert(ov.take(i as int) =~= ov);
    let mut instr = Instruction::new(mnemonic, resolved, width, 0);
    if let Some(rep) = repeat {
        instr = instr.with_repeat(rep);
    }
    Ok(instr)
}

proof fn lemma_resolved_fails(
    ops: Seq<OperandView>,
    syms: Symbols,
    kinds: Symbols,
    strict: bool,
    dsp: i64,
    cur: i64,
    nasm: bool,
    k: int,
)
    requires
        0 < k <= ops.len(),
        resolved_operands(ops.take(k), syms, kinds, strict, dsp, cur, nasm) is None,
    ensures
        resolved_operands(ops, syms, kinds, strict, dsp, cur, nasm) is None,
        operands_error(ops, syms, kinds, strict, dsp, cur, nasm) == operands_error(
            ops.take(k),
            syms,
            kinds,
            strict,
            dsp,
            cur,
            nasm,
        ),
    decreases ops.len() - k,
{
    if k < ops.len() {
        assert(ops.take(k + 1).drop_last() =~= ops.take(k));
        lemma_resolved_fails(ops, syms, kinds, strict, dsp, cur, nasm, k + 1);
    } else {
        assert(ops.take(k) =~= ops);
    }
}

/// Encodes a resolved instruction, first checking it has the operands
/// its mnemonic reads.
pub fn encode_resolved(instr: &Instruction) -> (r: Result<Vec<u8>, String>)
    ensures
        match resolved_bytes((instr.mnemonic, instr.operands@, instr.width, instr.byte_len, instr.repeat)) {
            Ok(b) => r matches Ok(v) && v@ == b,
            Err(m) => r matches Err(e) && e@ == m,
        },
{
    if instr.operands.len() < operand_count(instr.mnemonic) {
        return Err(text_of("wrong number of operands for this instruction"));
    }
    match encode_one(instr) {
        Ok(b) => Ok(b),
        Err(e) => Err(e.0),
    }
}

fn operand_count(m: Mnemonic) -> (r: usize)
    ensures
        r == operands_needed(m),
{
    match m {
        Mnemonic::Mov | Mnemonic::Xchg | Mnemonic::Lea | Mnemonic::Add | Mnemonic::Adc
        | Mnemonic::Sub | Mnemonic::Sbb | Mnemonic::And | Mnemonic::Or | Mnemonic::Xor
        | Mnemonic::Cmp | Mnemonic::Test => 2,
        Mnemonic::Push | Mnemonic::Pop | Mnemonic::Inc | Mnemonic::Dec | Mnemonic::Jmp
        | Mnemonic::Jcc(_) | Mnemonic::Loop | Mnemonic::Loope | Mnemonic::Loopne | Mnemonic::Jcxz
        | Mnemonic::Call | Mnemonic::Int | Mnemonic::Shl | Mnemonic::Shr | Mnemonic::Sar
        | Mnemonic::Rol | Mnemonic::Ror | Mnemonic::Rcl | Mnemonic::Rcr | Mnemonic::Mul
        | Mnemonic::Imul | Mnemonic::Div | Mnemonic::Idiv | Mnemonic::Not | Mnemonic::Neg => 1,
        _ => 0,
    }
}

// --- diagnostics and results ---------------------------------------------------

#[derive(Debug, Clone, Copy, PartialEq, Eq, Structural)]
pub enum Severity {
    Error,
    Warning,
}

#[derive(Debug, Clone, PartialEq, Eq)]
pub struct Diagnostic {
    pub line: u32,
    pub col: u32,
    pub severity: Severity,
    pub message: String,
}

/// A resolved symbol, for a Variables/Watch panel.
#[derive(Debug, Clone, PartialEq, Eq)]
pub struct SymbolTableEntry {
    pub name: String,
    pub value: i64,
    pub kind: SymbolKind,
}

/// An assembled program: its bytes, the line-to-address map, the
/// diagnostics of both passes and the symbol table.
#[derive(Debug, Clone, Default)]
pub struct AssembleResult {
    pub machine_code: Vec<u8>,
    pub entry_point: u32,
    pub line_to_address: std::collections::BTreeMap<u32, u32>,
    pub diagnostics: Vec<Diagnostic>,
    pub symbols: Vec<SymbolTableEntry>,
    /// The data segment's paragraph-aligned base, when `.DATA` was used.
    pub data_segment_base: Option<u32>,
    /// The stack segment's base and size, when `.STACK` was used.
    pub stack_segment: Option<(u32, u32)>,
}

/// Each diagnostic's line and message.
pub open spec fn diag_entries(d: Seq<Diagnostic>) -> Seq<(u32, Seq<char>)> {
    d.map_values(|x: Diagnostic| (x.line, x.message@))
}

/// The diagnostic a parse error becomes.
pub fn parse_error_to_diagnostic(e: &ParseError) -> (d: Diagnostic)
    ensures
        d.line == e.span.line,
        d.col == e.span.col,
        d.severity == Severity::Error,
        d.message == e.message,
{
    Diagnostic { line: e.span.line, col: e.span.col, severity: Severity::Error, message: e.message.clone() }
}

/// Every diagnostic from index `from` on is an error reported at column 1
/// (the passes report whole lines).
pub open spec fn line_errors_from(d: Seq<Diagnostic>, from: int) -> bool {
    forall|i: int| from <= i < d.len() ==> (#[trigger] d[i]).col == 1 && d[i].severity == Severity::Error
}

/// `d` begins with `prefix` and reports only line errors after it.
pub open spec fn extends_with_line_errors(d: Seq<Diagnostic>, prefix: Seq<Diagnostic>) -> bool {
    &&& prefix.len() <= d.len()
    &&& d.subrange(0, prefix.len() as int) == prefix
    &&& line_errors_from(d, prefix.len() as int)
}

/// Extending is transitive.
proof fn lemma_extends_trans(a: Seq<Diagnostic>, b: Seq<Diagnostic>, c: Seq<Diagnostic>)
    requires
        extends_with_line_errors(b, a),
        extends_with_line_errors(c, b),
    ensures
        extends_with_line_errors(c, a),
{
    assert(c.subrange(0, a.len() as int) =~= c.subrange(0, b.len() as int).subrange(0, a.len() as int));
    assert forall|i: int| a.len() <= i < c.len() implies (#[trigger] c[i]).col == 1 && c[i].severity
        == Severity::Error by {
        if i < b.len() {
            assert(c[i] == c.subrange(0, b.len() as int)[i]);
        }
    }
}

fn diag_error(diagnostics: &mut Vec<Diagnostic>, line: u32, message: String)
    ensures
        diag_entries(final(diagnostics)@) == diag_entries(old(diagnostics)@).push((line, message@)),
        final(diagnostics)@.len() == old(diagnostics)@.len() + 1,
        final(diagnostics)@.subrange(0, old(diagnostics)@.len() as int) == old(diagnostics)@,
        final(diagnostics)@.last().col == 1,
        final(diagnostics)@.last().severity == Severity::Error,
        forall|p: Seq<Diagnostic>|
            extends_with_line_errors(old(diagnostics)@, p) ==> #[trigger] extends_with_line_errors(
                final(diagnostics)@,
                p,
            ),
{
    diagnostics.push(Diagnostic { line, col: 1, severity: Severity::Error, message });
    assert(diag_entries(diagnostics@) =~= diag_entries(old(diagnostics)@).push((line, message@)));
    assert(diagnostics@.subrange(0, old(diagnostics)@.len() as int) =~= old(diagnostics)@);
    assert forall|p: Seq<Diagnostic>|
        extends_with_line_errors(old(diagnostics)@, p) implies #[trigger] extends_with_line_errors(
        diagnostics@,
        p,
    ) by {
        assert(diagnostics@.subrange(0, p.len() as int) =~= old(diagnostics)@.subrange(0, p.len() as int));
    }
}

// --- prescans ------------------------------------------------------------------

/// The kind of a label: a data variable when a `DB`/`DW` follows it.
pub open spec fn kind_after(stmts: Seq<StatementView>, i: int) -> SymbolKind {
    if 0 <= i + 1 < stmts.len() {
        match stmts[i + 1].0 {
            KindView::Db(_) => SymbolKind::DataByte,
            KindView::Dw(_) => SymbolKind::DataWord,
            _ => SymbolKind::Label,
        }
    } else {
        SymbolKind::Label
    }
}

/// Every label's kind, from the first `n` statements.
pub open spec fn kinds_upto(stmts: Seq<StatementView>, n: int) -> Symbols
    decreases n,
{
    if n <= 0 {
        Map::empty()
    } else {
        let m = kinds_upto(stmts, n - 1);
        match stmts[n - 1].0 {
            KindView::Label(name) => m.insert(name, SymbolEntry { value: 0, kind: kind_after(stmts, n - 1) }),
            _ => m,
        }
    }
}

/// The segment of each of the first `n` statements: `Code` until a
/// switch.
pub open spec fn roles_upto(stmts: Seq<StatementView>, n: int) -> Seq<SegmentRole>
    decreases n,
{
    if n <= 0 {
        Seq::empty()
    } else {
        let r = roles_upto(stmts, n - 1);
        let prev = if n - 1 == 0 {
            SegmentRole::Code
        } else {
            r.last()
        };
        r.push(
            match stmts[n - 1].0 {
                KindView::SegmentSwitch(role) => role,
                _ => prev,
            },
        )
    }
}

fn kind_following(statements: &Vec<Statement>, i: usize) -> (k: SymbolKind)
    requires
        i < statements.len(),
    ensures
        k == kind_after(statements_view(statements@), i as int),
{
    if i + 1 < statements.len() {
        assert(statements_view(statements@)[i + 1] == statements@[i + 1]@);
        match &statements[i + 1].kind {
            StatementKind::Db(_) => SymbolKind::DataByte,
            StatementKind::Dw(_) => SymbolKind::DataWord,
            _ => SymbolKind::Label,
        }
    } else {
        SymbolKind::Label
    }
}

pub fn prescan_symbol_kinds(statements: &Vec<Statement>) -> (kinds: SymbolTable)
    ensures
        kinds.wf(),
        kinds.view() == kinds_upto(statements_view(statements@), statements@.len() as int),
{
    let ghost sv = statements_view(statements@);
    let mut kinds = SymbolTable::new();
    let mut i: usize = 0;
    while i < statements.len()
        invariant
            i <= statements.len(),
            sv == statements_view(statements@),
            kinds.wf(),
            kinds.view() == kinds_upto(sv, i as int),
        decreases statements.len() - i,
    {
        assert(sv[i as int] == statements@[i as int]@);
        if let StatementKind::Label(name) = &statements[i].kind {
            let k = kind_following(statements, i);
            kinds.insert(name.clone(), SymbolEntry { value: 0, kind: k });
        }
        i = i + 1;
    }
    kinds
}

pub fn prescan_segment_roles(statements: &Vec<Statement>) -> (roles: Vec<SegmentRole>)
    ensures
        roles@ == roles_upto(statements_view(statements@), statements@.len() as int),
        roles@.len() == statements@.len(),
{
    let ghost sv = statements_view(statements@);
    let mut roles: Vec<SegmentRole> = Vec::new();
    let mut current = SegmentRole::Code;
    let mut i: usize = 0;
    while i < statements.len()
        invariant
            i <= statements.len(),
            sv == statements_view(statements@),
            roles@ == roles_upto(sv, i as int),
            roles@.len() == i,
            current == (if i == 0 {
                SegmentRole::Code
            } else {
                roles@.last()
            }),
        decreases statements.len() - i,
    {
        assert(sv[i as int] == statements@[i as int]@);
        if let StatementKind::SegmentSwitch(role) = &statements[i].kind {
            current = *role;
        }
        roles.push(current);
        i = i + 1;
    }
    roles
}

// --- pass one --------------------------------------------------------------------

/// Pass one's state: the symbol table, the code and data location
/// counters, and the lines of the diagnostics raised so far.
pub type OneState = (Symbols, u32, u32, Seq<(u32, Seq<char>)>);

pub open spec fn loc_of(role: SegmentRole, code: u32, data: u32) -> u32 {
    match role {
        SegmentRole::Code => code,
        SegmentRole::Data => data,
    }
}

pub open spec fn advanced(st: OneState, role: SegmentRole, n: u32) -> OneState {
    match role {
        SegmentRole::Code => (st.0, st.1.wrapping_add(n), st.2, st.3),
        SegmentRole::Data => (st.0, st.1, st.2.wrapping_add(n), st.3),
    }
}

/// An instruction's length in pass one: fixed by form for branches, else
/// the length of its lenient encoding (0 if it has none).
pub open spec fn instruction_length(
    m: Mnemonic,
    ops: Seq<OperandView>,
    short_jump: bool,
    repeat: Option<Repeat>,
    syms: Symbols,
    kinds: Symbols,
    loc: u32,
    nasm: bool,
) -> u32 {
    if is_branch_mnemonic(m) {
        branch_length(m, short_jump) as u32
    } else {
        match resolved_instruction(m, ops, short_jump, repeat, syms, kinds, loc, false, 0, nasm) {
            Some(r) => match resolved_bytes(r) {
                Ok(b) => b.len() as u32,
                Err(_) => 0,
            },
            None => 0,
        }
    }
}

/// Pass one over statement `i`.
pub open spec fn step_one(
    stmts: Seq<StatementView>,
    roles: Seq<SegmentRole>,
    kinds: Symbols,
    nasm: bool,
    i: int,
    st: OneState,
) -> OneState {
    let (syms, code, data, diags) = st;
    let role = roles[i];
    let loc = loc_of(role, code, data);
    let line = stmts[i].1;
    match stmts[i].0 {
        KindView::Label(name) => (
            syms.insert(name, SymbolEntry { value: loc as i64, kind: kind_after(stmts, i) }),
            code,
            data,
            diags,
        ),
        KindView::Org(e) => match eval(e, syms, 0, loc as i64) {
            Some(v) => match role {
                SegmentRole::Code => (syms, v as u32, data, diags),
                SegmentRole::Data => (syms, code, v as u32, diags),
            },
            None => (syms, code, data, diags.push((line, eval_error(e, syms, 0, loc as i64)))),
        },
        KindView::Equ { name, value } => match eval(value, syms, 0, loc as i64) {
            Some(v) => (syms.insert(name, SymbolEntry { value: v, kind: SymbolKind::Constant }), code, data, diags),
            None => (syms, code, data, diags.push((line, eval_error(value, syms, 0, loc as i64)))),
        },
        KindView::Db(items) => advanced(st, role, items_len(items, 1, syms)),
        KindView::Dw(items) => advanced(st, role, items_len(items, 2, syms)),
        KindView::Instruction { mnemonic, operands, short_jump, repeat } => advanced(
            st,
            role,
            instruction_length(mnemonic, operands, short_jump, repeat, syms, kinds, loc, nasm),
        ),
        _ => st,
    }
}

/// Pass one over the first `n` statements.
pub open spec fn pass_one_upto(
    stmts: Seq<StatementView>,
    roles: Seq<SegmentRole>,
    kinds: Symbols,
    nasm: bool,
    n: int,
) -> OneState
    decreases n,
{
    if n <= 0 {
        (Map::empty(), 0, 0, Seq::empty())
    } else {
        step_one(stmts, roles, kinds, nasm, n - 1, pass_one_upto(stmts, roles, kinds, nasm, n - 1))
    }
}

fn instruction_len_exec(
    mnemonic: Mnemonic,
    operands: &Vec<ParsedOperand>,
    short_jump: bool,
    repeat: Option<Repeat>,
    symbols: &SymbolTable,
    kinds: &SymbolTable,
    loc: u32,
    nasm: bool,
) -> (n: u32)
    requires
        symbols.wf(),
        kinds.wf(),
    ensures
        n == instruction_length(mnemonic, operands_view(operands@), short_jump, repeat, symbols.view(), kinds.view(), loc, nasm),
{
    if is_branch(mnemonic) {
        return branch_fixed_length(mnemonic, short_jump) as u32;
    }
    match resolve_instruction(mnemonic, operands, short_jump, repeat, symbols, kinds, loc, false, 0, nasm) {
        Ok(instr) => match encode_resolved(&instr) {
            Ok(b) => b.len() as u32,
            Err(_) => 0,
        },
        Err(_) => 0,
    }
}

/// Pass one: the symbol table and the sizes of the code and data
/// segments; evaluation errors of `ORG`/`EQU` are reported here.
pub fn pass_one(
    statements: &Vec<Statement>,
    roles: &Vec<SegmentRole>,
    kinds: &SymbolTable,
    nasm: bool,
    diagnostics: &mut Vec<Diagnostic>,
) -> (r: (SymbolTable, u32, u32))
    requires
        kinds.wf(),
        roles@.len() == statements@.len(),
    ensures
        r.0.wf(),
        ({
            let st = pass_one_upto(statements_view(statements@), roles@, kinds.view(), nasm, statements@.len() as int);
            &&& r.0.view() == st.0
            &&& r.1 == st.1
            &&& r.2 == st.2
            &&& diag_entries(final(diagnostics)@) == diag_entries(old(diagnostics)@) + st.3
        }),
        extends_with_line_errors(final(diagnostics)@, old(diagnostics)@),
{
    let ghost sv = statements_view(statements@);
    let mut symbols = SymbolTable::new();
    let mut code: u32 = 0;
    let mut data: u32 = 0;
    let mut i: usize = 0;
    let ghost start = diag_entries(diagnostics@);
    assert(diag_entries(diagnostics@) =~= start + Seq::<(u32, Seq<char>)>::empty());
    assert(diagnostics@.subrange(0, diagnostics@.len() as int) =~= diagnostics@);
    while i < statements.len()
        invariant
            i <= statements.len(),
            roles@.len() == statements@.len(),
            sv == statements_view(statements@),
            kinds.wf(),
            symbols.wf(),
            start == diag_entries(old(diagnostics)@),
            extends_with_line_errors(diagnostics@, old(diagnostics)@),
            ({
                let st = pass_one_upto(sv, roles@, kinds.view(), nasm, i as int);
                &&& symbols.view() == st.0
                &&& code == st.1
                &&& data == st.2
                &&& diag_entries(diagnostics@) == start + st.3
            }),
        decreases statements.len() - i,
    {
        let ghost before = pass_one_upto(sv, roles@, kinds.view(), nasm, i as int);
        assert(sv[i as int] == statements@[i as int]@);
        let role = roles[i];
        let loc = match role {
            SegmentRole::Code => code,
            SegmentRole::Data => data,
        };
        let line = statements[i].line;
        match &statements[i].kind {
            StatementKind::Label(name) => {
                let k = kind_following(statements, i);
                symbols.insert(name.clone(), SymbolEntry { value: loc as i64, kind: k });
            },
            StatementKind::Org(expr) => match eval_expr(expr, &symbols, 0, loc as i64) {
                Ok(v) => match role {
                    SegmentRole::Code => {
                        code = v as u32;
                    },
                    SegmentRole::Data => {
                        data = v as u32;
                    },
                },
                Err(msg) => {
                    diag_error(diagnostics, line, msg);
                    assert(diag_entries(diagnostics@) =~= start + before.3.push((line, msg@)));
                },
            },
            StatementKind::Equ { name, value } => match eval_expr(value, &symbols, 0, loc as i64) {
                Ok(v) => {
                    symbols.insert(name.clone(), SymbolEntry { value: v, kind: SymbolKind::Constant });
                },
                Err(msg) => {
                    diag_error(diagnostics, line, msg);
                    assert(diag_entries(diagnostics@) =~= start + before.3.push((line, msg@)));
                },
            },
            StatementKind::Db(items) => {
                let len = data_items_len(items, 1, &symbols);
                match role {
                    SegmentRole::Code => {
                        code = code.wrapping_add(len);
                    },
                    SegmentRole::Data => {
                        data = data.wrapping_add(len);
                    },
                }
            },
            StatementKind::Dw(items) => {
                let len = data_items_len(items, 2, &symbols);
                match role {
                    SegmentRole::Code => {
                        code = code.wrapping_add(len);
                    },
                    SegmentRole::Data => {
                        data = data.wrapping_add(len);
                    },
                }
            },
            StatementKind::Instruction { mnemonic, operands, short_jump, repeat } => {
                let len = instruction_len_exec(*mnemonic, operands, *short_jump, *repeat, &symbols, kinds, loc, nasm);
                match role {
                    SegmentRole::Code => {
                        code = code.wrapping_add(len);
                    },
                    SegmentRole::Data => {
                        data = data.wrapping_add(len);
                    },
                }
            },
            _ => {},
        }
        i = i + 1;
    }
    (symbols, code, data)
}

// --- pass two --------------------------------------------------------------------

/// `buf` with `b` written at `addr`, grown with zeros as needed.
/// (Where the end would not fit a `usize`, nothing is written.)
pub open spec fn written(buf: Seq<u8>, addr: u32, b: Seq<u8>) -> Seq<u8> {
    let end = addr + b.len();
    if end > usize::MAX {
        buf
    } else {
        written_fitting(buf, addr, b)
    }
}

pub open spec fn written_fitting(buf: Seq<u8>, addr: u32, b: Seq<u8>) -> Seq<u8> {
    let end = addr + b.len();
    let n = if buf.len() < end {
        end
    } else {
        buf.len() as int
    };
    Seq::new(
        n as nat,
        |i: int|
            if addr <= i < end {
                b[i - addr]
            } else if i < buf.len() {
                buf[i]
            } else {
                0u8
            },
    )
}

/// Pass two's state: machine code, line map, code and data addresses,
/// the `END` label, the `.STACK` size and the diagnostic lines.
pub type TwoState = (Seq<u8>, Map<u32, u32>, u32, u32, Option<Seq<char>>, Option<u32>, Seq<(u32, Seq<char>)>);

/// Places bytes at the running address of `role`, maps the line to that
/// (flat) address, and advances it.
pub open spec fn placed(st: TwoState, role: SegmentRole, b: Seq<u8>, line: u32) -> TwoState {
    let addr = loc_of(role, st.2, st.3);
    let code = written(st.0, addr, b);
    let lines = st.1.insert(line, addr);
    match role {
        SegmentRole::Code => (code, lines, st.2.wrapping_add(b.len() as u32), st.3, st.4, st.5, st.6),
        SegmentRole::Data => (code, lines, st.2, st.3.wrapping_add(b.len() as u32), st.4, st.5, st.6),
    }
}

pub open spec fn with_diag(st: TwoState, line: u32, message: Seq<char>) -> TwoState {
    (st.0, st.1, st.2, st.3, st.4, st.5, st.6.push((line, message)))
}

/// Pass two over statement `i`, with the data segment at `dbase`.
pub open spec fn step_two(
    stmts: Seq<StatementView>,
    roles: Seq<SegmentRole>,
    syms: Symbols,
    kinds: Symbols,
    dbase: u32,
    nasm: bool,
    i: int,
    st: TwoState,
) -> TwoState {
    let dsp = (dbase / 16) as i64;
    let role = roles[i];
    let cur = loc_of(role, st.2, st.3);
    let line = stmts[i].1;
    match stmts[i].0 {
        KindView::Stack(e) => match eval(e, syms, dsp, st.2 as i64) {
            Some(v) => (st.0, st.1, st.2, st.3, st.4, Some(if v < 0 { 0u32 } else { v as u32 }), st.6),
            None => with_diag(st, line, eval_error(e, syms, dsp, st.2 as i64)),
        },
        KindView::Org(e) => match eval(e, syms, dsp, cur as i64) {
            Some(v) => match role {
                SegmentRole::Code => (st.0, st.1, v as u32, st.3, st.4, st.5, st.6),
                SegmentRole::Data => (st.0, st.1, st.2, dbase.wrapping_add(v as u32), st.4, st.5, st.6),
            },
            None => st,
        },
        KindView::End(label) => match label {
            Some(name) => if syms.contains_key(name) {
                (st.0, st.1, st.2, st.3, Some(name), st.5, st.6)
            } else {
                with_diag(st, line, "undefined entry point symbol '"@ + name + "'"@)
            },
            None => st,
        },
        KindView::Db(items) => match items_bytes(items, 1, syms, dsp, cur as i64) {
            Some(b) => placed(st, role, b, line),
            None => with_diag(st, line, items_error(items, 1, syms, dsp, cur as i64)),
        },
        KindView::Dw(items) => match items_bytes(items, 2, syms, dsp, cur as i64) {
            Some(b) => placed(st, role, b, line),
            None => with_diag(st, line, items_error(items, 2, syms, dsp, cur as i64)),
        },
        KindView::Instruction { mnemonic, operands, short_jump, repeat } => match resolved_instruction(
            mnemonic,
            operands,
            short_jump,
            repeat,
            syms,
            kinds,
            cur,
            true,
            dsp,
            nasm,
        ) {
            Some(r) => match resolved_bytes(r) {
                Ok(b) => placed(st, role, b, line),
                Err(m) => with_diag(st, line, m),
            },
            None => with_diag(st, line, instruction_error(mnemonic, operands, syms, kinds, cur, true, dsp, nasm)),
        },
        _ => st,
    }
}

pub open spec fn pass_two_upto(
    stmts: Seq<StatementView>,
    roles: Seq<SegmentRole>,
    syms: Symbols,
    kinds: Symbols,
    dbase: u32,
    nasm: bool,
    n: int,
) -> TwoState
    decreases n,
{
    if n <= 0 {
        (Seq::empty(), Map::empty(), 0, dbase, None, None, Seq::empty())
    } else {
        step_two(stmts, roles, syms, kinds, dbase, nasm, n - 1, pass_two_upto(stmts, roles, syms, kinds, dbase, nasm, n - 1))
    }
}

/// Writes `bytes` at `address`, growing `buf` with zeros as needed.
pub fn write_at(buf: &mut Vec<u8>, address: u32, bytes: &[u8])
    ensures
        final(buf)@ == written(old(buf)@, address, bytes@),
{
    let end: usize = match (address as usize).checked_add(bytes.len()) {
        Some(e) => e,
        None => {
            return;
        },
    };
    while buf.len() < end
        invariant
            end == address as int + bytes@.len(),
            old(buf)@.len() <= buf@.len(),
            buf@.len() <= end || buf@.len() == old(buf)@.len(),
            forall|i: int| 0 <= i < old(buf)@.len() ==> buf@[i] == old(buf)@[i],
            forall|i: int| old(buf)@.len() <= i < buf@.len() ==> buf@[i] == 0u8,
        decreases end - buf.len(),
    {
        buf.push(0u8);
    }
    let mut k: usize = 0;
    while k < bytes.len()
        invariant
            end == address as int + bytes@.len(),
            k <= bytes@.len(),
            buf@.len() == (if old(buf)@.len() < end {
                end as int
            } else {
                old(buf)@.len() as int
            }),
            forall|i: int|
                0 <= i < buf@.len() ==> buf@[i] == (if address <= i < address + k {
                    bytes@[i - address]
                } else if i < old(buf)@.len() {
                    old(buf)@[i]
                } else {
                    0u8
                }),
        decreases bytes@.len() - k,
    {
        buf.set(address as usize + k, bytes[k]);
        k = k + 1;
    }
    assert(buf@ =~= written_fitting(old(buf)@, address, bytes@));
}

/// `placed` on the executable state.
fn place_bytes(
    role: SegmentRole,
    bytes: &[u8],
    code_address: &mut u32,
    data_address: &mut u32,
    machine_code: &mut Vec<u8>,
    line_to_address: &mut std::collections::BTreeMap<u32, u32>,
    line: u32,
)
    ensures
        ({
            let st: TwoState = (old(machine_code)@, old(line_to_address)@, *old(code_address), *old(data_address), None, None, Seq::empty());
            let after = placed(st, role, bytes@, line);
            &&& final(machine_code)@ == after.0
            &&& final(line_to_address)@ == after.1
            &&& *final(code_address) == after.2
            &&& *final(data_address) == after.3
        }),
{
    let address = match role {
        SegmentRole::Code => *code_address,
        SegmentRole::Data => *data_address,
    };
    line_to_address.insert(line, address);
    write_at(machine_code, address, bytes);
    match role {
        SegmentRole::Code => {
            *code_address = code_address.wrapping_add(bytes.len() as u32);
        },
        SegmentRole::Data => {
            *data_address = data_address.wrapping_add(bytes.len() as u32);
        },
    }
}

/// What pass two produces, besides the diagnostics it appends.
pub struct PassTwo {
    pub machine_code: Vec<u8>,
    pub line_to_address: std::collections::BTreeMap<u32, u32>,
    pub entry_symbol: Option<String>,
    pub stack_size: Option<u32>,
}

fn end_label_known(symbols: &SymbolTable, name: &String) -> (r: bool)
    requires
        symbols.wf(),
    ensures
        r == symbols.view().contains_key(name@),
{
    symbols.get(name.as_str()).is_some()
}

/// Pass two: strict resolution and encoding at the addresses pass one
/// fixed, with the data segment at `dbase`.
#[verifier::rlimit(100)]
#[verifier::spinoff_prover]
pub fn pass_two(
    statements: &Vec<Statement>,
    roles: &Vec<SegmentRole>,
    symbols: &SymbolTable,
    kinds: &SymbolTable,
    dbase: u32,
    nasm: bool,
    diagnostics: &mut Vec<Diagnostic>,
) -> (r: PassTwo)
    requires
        symbols.wf(),
        kinds.wf(),
        roles@.len() == statements@.len(),
    ensures
        ({
            let st = pass_two_upto(statements_view(statements@), roles@, symbols.view(), kinds.view(), dbase, nasm, statements@.len() as int);
            &&& r.machine_code@ == st.0
            &&& r.line_to_address@ == st.1
            &&& (match r.entry_symbol {
                Some(s) => st.4 == Some(s@),
                None => st.4 is None,
            })
            &&& r.stack_size == st.5
            &&& diag_entries(final(diagnostics)@) == diag_entries(old(diagnostics)@) + st.6
        }),
        extends_with_line_errors(final(diagnostics)@, old(diagnostics)@),
{
    let ghost sv = statements_view(statements@);
    let dsp: i64 = (dbase / 16) as i64;
    let mut machine_code: Vec<u8> = Vec::new();
    let mut line_to_address: std::collections::BTreeMap<u32, u32> = std::collections::BTreeMap::new();
    let mut code_address: u32 = 0;
    let mut data_address: u32 = dbase;
    let mut entry_symbol: Option<String> = None;
    let mut stack_size: Option<u32> = None;
    let ghost start = diag_entries(diagnostics@);
    assert(diag_entries(diagnostics@) =~= start + Seq::<(u32, Seq<char>)>::empty());
    assert(diagnostics@.subrange(0, diagnostics@.len() as int) =~= diagnostics@);
    let mut i: usize = 0;
    while i < statements.len()
        invariant
            i <= statements.len(),
            roles@.len() == statements@.len(),
            sv == statements_view(statements@),
            symbols.wf(),
            kinds.wf(),
            dsp == (dbase / 16) as i64,
            start == diag_entries(old(diagnostics)@),
            extends_with_line_errors(diagnostics@, old(diagnostics)@),
            ({
                let st = pass_two_upto(sv, roles@, symbols.view(), kinds.view(), dbase, nasm, i as int);
                &&& machine_code@ == st.0
                &&& line_to_address@ == st.1
                &&& code_address == st.2
                &&& data_address == st.3
                &&& (match entry_symbol {
                    Some(s) => st.4 == Some(s@),
                    None => st.4 is None,
                })
                &&& stack_size == st.5
                &&& diag_entries(diagnostics@) == start + st.6
            }),
        decreases statements.len() - i,
    {
        let ghost before = pass_two_upto(sv, roles@, symbols.view(), kinds.view(), dbase, nasm, i as int);
        assert(sv[i as int] == statements@[i as int]@);
        let role = roles[i];
        let cur = match role {
            SegmentRole::Code => code_address,
            SegmentRole::Data => data_address,
        };
        let line = statements[i].line;
        match &statements[i].kind {
            StatementKind::Stack(expr) => match eval_expr(expr, symbols, dsp, code_address as i64) {
                Ok(v) => {
                    stack_size = Some(
                        if v < 0 {
                            0
                        } else {
                            v as u32
                        },
                    );
                },
                Err(msg) => {
                    diag_error(diagnostics, line, msg);
                    assert(diag_entries(diagnostics@) =~= start + before.6.push((line, msg@)));
                },
            },
            StatementKind::Org(expr) => {
                if let Ok(v) = eval_expr(expr, symbols, dsp, cur as i64) {
                    match role {
                        SegmentRole::Code => {
                            code_address = v as u32;
                        },
                        SegmentRole::Data => {
                            data_address = dbase.wrapping_add(v as u32);
                        },
                    }
                }
            },
            StatementKind::End(label) => {
                if let Some(name) = label {
                    if end_label_known(symbols, name) {
                        entry_symbol = Some(name.clone());
                    } else {
                        let msg = quoted("undefined entry point symbol '", name.as_str(), "'");
                        diag_error(diagnostics, line, msg);
                        assert(diag_entries(diagnostics@) =~= start + before.6.push((line, msg@)));
                    }
                }
            },
            StatementKind::Db(items) => match encode_data_items(items, 1, symbols, dsp, cur as i64) {
                Ok(bytes) => {
                    place_bytes(role, bytes.as_slice(), &mut code_address, &mut data_address, &mut machine_code, &mut line_to_address, line);
                },
                Err(msg) => {
                    diag_error(diagnostics, line, msg);
                    assert(diag_entries(diagnostics@) =~= start + before.6.push((line, msg@)));
                },
            },
            StatementKind::Dw(items) => match encode_data_items(items, 2, symbols, dsp, cur as i64) {
                Ok(bytes) => {
                    place_bytes(role, bytes.as_slice(), &mut code_address, &mut data_address, &mut machine_code, &mut line_to_address, line);
                },
                Err(msg) => {
                    diag_error(diagnostics, line, msg);
                    assert(diag_entries(diagnostics@) =~= start + before.6.push((line, msg@)));
                },
            },
            StatementKind::Instruction { mnemonic, operands, short_jump, repeat } => {
                match resolve_instruction(*mnemonic, operands, *short_jump, *repeat, symbols, kinds, cur, true, dsp, nasm) {
                    Ok(instr) => match encode_resolved(&instr) {
                        Ok(bytes) => {
                            place_bytes(role, bytes.as_slice(), &mut code_address, &mut data_address, &mut machine_code, &mut line_to_address, line);
                        },
                        Err(msg) => {
                            diag_error(diagnostics, line, msg);
                            assert(diag_entries(diagnostics@) =~= start + before.6.push((line, msg@)));
                        },
                    },
                    Err(msg) => {
                        diag_error(diagnostics, line, msg);
                        assert(diag_entries(diagnostics@) =~= start + before.6.push((line, msg@)));
                    },
                }
            },
            _ => {},
        }
        i = i + 1;
    }
    PassTwo { machine_code, line_to_address, entry_symbol, stack_size }
}

// --- the whole assembly ------------------------------------------------------------

/// `entries` list exactly the names of `m`, in strictly increasing
/// order, each with its value and kind.
pub open spec fn symbols_listed(entries: Seq<SymbolTableEntry>, m: Symbols) -> bool {
    &&& forall|i: int|
        0 <= i < entries.len() ==> m.contains_key(#[trigger] entries[i].name@) && m[entries[i].name@]
            == (SymbolEntry { value: entries[i].value, kind: entries[i].kind })
    &&& forall|k: Seq<char>| m.contains_key(k) ==> exists|i: int| 0 <= i < entries.len() && #[trigger] entries[i].name@ == k
    &&& forall|i: int, j: int|
        0 <= i < j < entries.len() ==> chars_less(#[trigger] entries[i].name@, #[trigger] entries[j].name@)
}

/// Whether the source uses NASM's `SECTION` anywhere: then a bare data
/// variable means its address rather than its contents.
pub open spec fn nasm_dialect(toks: Seq<Token>) -> bool {
    exists|k: int| 0 <= k < toks.len() && keyword_is(#[trigger] toks[k], "section"@)
}

pub open spec fn has_data_switch(stmts: Seq<StatementView>) -> bool {
    exists|i: int| 0 <= i < stmts.len() && #[trigger] stmts[i].0 == KindView::SegmentSwitch(SegmentRole::Data)
}

/// Everything `assemble` states of its result, given the statements, the
/// number of parse errors reported first, and the dialect.
pub open spec fn assembled_as(r: AssembleResult, stmts: Seq<StatementView>, parsed: int, nasm: bool) -> bool {
    let n = stmts.len() as int;
    let kinds = kinds_upto(stmts, n);
    let roles = roles_upto(stmts, n);
    let one = pass_one_upto(stmts, roles, kinds, nasm, n);
    let dbase = paragraph_round(one.1);
    let sbase = paragraph_round(dbase.wrapping_add(one.2));
    let two = pass_two_upto(stmts, roles, one.0, kinds, dbase, nasm, n);
    &&& r.machine_code@ == two.0
    &&& r.line_to_address@ == two.1
    &&& r.entry_point == (match two.4 {
        Some(name) => one.0[name].value as u32,
        None => 0u32,
    })
    &&& 0 <= parsed <= r.diagnostics@.len()
    &&& diag_entries(r.diagnostics@).skip(parsed) == one.3 + two.6
    &&& symbols_listed(r.symbols@, one.0)
    &&& r.data_segment_base == (if one.2 > 0 || has_data_switch(stmts) { Some(dbase) } else { None })
    &&& r.stack_segment == (match two.5 {
        Some(size) => Some((sbase, size)),
        None => None,
    })
}

fn is_nasm_dialect(tokens: &Vec<Token>) -> (r: bool)
    ensures
        r == nasm_dialect(tokens@),
{
    let mut i: usize = 0;
    while i < tokens.len()
        invariant
            i <= tokens.len(),
            forall|k: int| 0 <= k < i ==> !keyword_is(#[trigger] tokens@[k], "section"@),
        decreases tokens.len() - i,
    {
        if super::expr_parser::is_keyword(&tokens[i], "section") {
            return true;
        }
        i = i + 1;
    }
    false
}

fn uses_data_switch(statements: &Vec<Statement>) -> (r: bool)
    ensures
        r == has_data_switch(statements_view(statements@)),
{
    let ghost sv = statements_view(statements@);
    let mut i: usize = 0;
    while i < statements.len()
        invariant
            i <= statements.len(),
            sv == statements_view(statements@),
            forall|k: int| 0 <= k < i ==> sv[k].0 != KindView::SegmentSwitch(SegmentRole::Data),
        decreases statements.len() - i,
    {
        assert(sv[i as int] == statements@[i as int]@);
        if let StatementKind::SegmentSwitch(SegmentRole::Data) = &statements[i].kind {
            return true;
        }
        i = i + 1;
    }
    false
}

fn symbol_entries(symbols: &SymbolTable) -> (r: Vec<SymbolTableEntry>)
    requires
        symbols.wf(),
    ensures
        symbols_listed(r@, symbols.view()),
{
    let list = symbols.entries();
    let ghost l = list@.map_values(|e: (String, SymbolEntry)| (e.0@, e.1));
    proof {
        symbols.lemma_listing();
    }
    let mut out: Vec<SymbolTableEntry> = Vec::new();
    let mut i: usize = 0;
    while i < list.len()
        invariant
            i <= list.len(),
            l == list@.map_values(|e: (String, SymbolEntry)| (e.0@, e.1)),
            l == symbols.listing(),
            out@.len() == i,
            forall|j: int|
                0 <= j < i ==> (#[trigger] out@[j]).name@ == l[j].0 && out@[j].value == l[j].1.value
                    && out@[j].kind == l[j].1.kind,
        decreases list.len() - i,
    {
        let (name, entry) = &list[i];
        out.push(SymbolTableEntry { name: name.clone(), value: entry.value, kind: entry.kind });
        i = i + 1;
    }
    proof {
        assert forall|j: int| 0 <= j < out@.len() implies symbols.view().contains_key(
            #[trigger] out@[j].name@,
        ) && symbols.view()[out@[j].name@] == (SymbolEntry { value: out@[j].value, kind: out@[j].kind }) by {
            assert(symbols.listing()[j].0 == out@[j].name@);
        }
        assert forall|k: Seq<char>| symbols.view().contains_key(k) implies exists|j: int|
            0 <= j < out@.len() && #[trigger] out@[j].name@ == k by {
            let j = choose|j: int| 0 <= j < symbols.listing().len() && #[trigger] symbols.listing()[j].0 == k;
            assert(out@[j].name@ == k);
        }
        assert forall|a: int, b: int| 0 <= a < b < out@.len() implies chars_less(
            #[trigger] out@[a].name@,
            #[trigger] out@[b].name@,
        ) by {
            assert(symbols.listing()[a].0 == out@[a].name@);
            assert(symbols.listing()[b].0 == out@[b].name@);
        }
    }
    out
}

/// What assembling source bytes gives: the result of both passes over
/// the statements parsed from the source's tokens, with the parse errors
/// reported first.
pub open spec fn assembly_of(source: Seq<u8>, r: AssembleResult) -> bool {
    exists|toks: Seq<Token>|
        {
            &&& toks.len() == lex_from(source, 0, 1, 1).len()
            &&& forall|k: int|
                0 <= k < toks.len() ==> token_matches(
                    #[trigger] toks[k],
                    lex_from(source, 0, 1, 1)[k],
                    source,
                )
            &&& assembled_as(
                r,
                program_from(lines_from(toks, 0, Seq::empty()), 0).0,
                program_from(lines_from(toks, 0, Seq::empty()), 0).1.len() as int,
                nasm_dialect(toks),
            )
            &&& parse_errors_first(r.diagnostics@, program_from(lines_from(toks, 0, Seq::empty()), 0).1)
        }
}

/// The diagnostics begin with one error per parse error, at its line and
/// column and with its message; every later one is an error at column 1.
pub open spec fn parse_errors_first(d: Seq<Diagnostic>, faults: Seq<Fault>) -> bool {
    &&& faults.len() <= d.len()
    &&& forall|i: int|
        0 <= i < faults.len() ==> (#[trigger] d[i]).line == faults[i].0.line && d[i].col
            == faults[i].0.col && d[i].severity == Severity::Error && d[i].message@ == faults[i].1
    &&& line_errors_from(d, faults.len() as int)
}

/// Two-pass assembly of emu8086-syntax source: parse, resolve symbols and
/// addresses, encode.
#[verifier::rlimit(50)]
#[verifier::spinoff_prover]
pub fn assemble(source: &str) -> (r: AssembleResult)
    requires
        source.spec_bytes().len() < u32::MAX,
    ensures
        assembly_of(source.spec_bytes(), r),
{
    let tokens = tokenize(source);
    let ghost toks = tokens@;
    let slice = tokens.as_slice();
    let (statements, parse_errors) = super::statement_parser::parse_tokens(slice);
    let ghost sv = statements_view(statements@);
    let mut diagnostics: Vec<Diagnostic> = Vec::new();
    let mut i: usize = 0;
    while i < parse_errors.len()
        invariant
            i <= parse_errors.len(),
            diagnostics@.len() == i,
            forall|j: int|
                0 <= j < i ==> (#[trigger] diagnostics@[j]).line == parse_errors@[j].span.line
                    && diagnostics@[j].col == parse_errors@[j].span.col && diagnostics@[j].severity
                    == Severity::Error && diagnostics@[j].message@ == parse_errors@[j].message@,
        decreases parse_errors.len() - i,
    {
        let d = parse_error_to_diagnostic(&parse_errors[i]);
        diagnostics.push(d);
        i = i + 1;
    }
    let nasm = is_nasm_dialect(&tokens);
    let ghost d0 = diagnostics@;
    let r = assemble_statements(&statements, diagnostics, nasm);
    assert(slice@ == toks);
    proof {
        let spans = program_from(lines_from(toks, 0, Seq::empty()), 0).1;
        assert(spans =~= parse_errors@.map_values(|e: ParseError| e@));
        assert forall|j: int| 0 <= j < spans.len() implies (#[trigger] r.diagnostics@[j]).line
            == spans[j].0.line && r.diagnostics@[j].col == spans[j].0.col && r.diagnostics@[j].severity
            == Severity::Error && r.diagnostics@[j].message@ == spans[j].1 by {
            assert(r.diagnostics@[j] == r.diagnostics@.subrange(0, d0.len() as int)[j]);
            assert(d0[j].line == parse_errors@[j].span.line);
        }
        assert(parse_errors_first(r.diagnostics@, spans));
    }
    r
}

proof fn lemma_skip_prefix<T>(a: Seq<T>, b: Seq<T>, c: Seq<T>)
    ensures
        (a + b + c).skip(a.len() as int) == b + c,
{
    assert((a + b + c).skip(a.len() as int) =~= b + c);
}

/// Pass two only records an `END` label the table defines.
proof fn lemma_entry_defined(
    stmts: Seq<StatementView>,
    roles: Seq<SegmentRole>,
    syms: Symbols,
    kinds: Symbols,
    dbase: u32,
    nasm: bool,
    n: int,
)
    ensures
        pass_two_upto(stmts, roles, syms, kinds, dbase, nasm, n).4 matches Some(name) ==> syms.contains_key(name),
    decreases n,
{
    if n > 0 {
        lemma_entry_defined(stmts, roles, syms, kinds, dbase, nasm, n - 1);
    }
}

/// The two passes over parsed statements; `diagnostics` holds the parse
/// errors already reported.
#[verifier::rlimit(100)]
#[verifier::spinoff_prover]
fn assemble_statements(statements: &Vec<Statement>, diagnostics: Vec<Diagnostic>, nasm: bool) -> (r:
    AssembleResult)
    ensures
        assembled_as(r, statements_view(statements@), diagnostics@.len() as int, nasm),
        extends_with_line_errors(r.diagnostics@, diagnostics@),
{
    let mut diagnostics = diagnostics;
    let ghost d0 = diagnostics@;
    let kinds = prescan_symbol_kinds(statements);
    let roles = prescan_segment_roles(statements);
    let (symbols, code_size, data_size) = pass_one(statements, &roles, &kinds, nasm, &mut diagnostics);
    let ghost d1 = diagnostics@;
    let dbase = round_up_to_paragraph(code_size);
    let sbase = round_up_to_paragraph(dbase.wrapping_add(data_size));
    let has_data = data_size > 0 || uses_data_switch(statements);
    let two = pass_two(statements, &roles, &symbols, &kinds, dbase, nasm, &mut diagnostics);
    proof {
        lemma_extends_trans(d0, d1, diagnostics@);
        let sv = statements_view(statements@);
        let n = sv.len() as int;
        let one = pass_one_upto(sv, roles@, kinds.view(), nasm, n);
        let two_st = pass_two_upto(sv, roles@, symbols.view(), kinds.view(), dbase, nasm, n);
        lemma_skip_prefix(diag_entries(d0), one.3, two_st.6);
    }
    proof {
        lemma_entry_defined(
            statements_view(statements@),
            roles@,
            symbols.view(),
            kinds.view(),
            dbase,
            nasm,
            statements@.len() as int,
        );
    }
    let entry_point: u32 = match &two.entry_symbol {
        Some(name) => match symbols.get(name.as_str()) {
            Some(e) => e.value as u32,
            None => 0,
        },
        None => 0,
    };
    let entries = symbol_entries(&symbols);
    let stack_segment = match two.stack_size {
        Some(size) => Some((sbase, size)),
        None => None,
    };
    AssembleResult {
        machine_code: two.machine_code,
        entry_point,
        line_to_address: two.line_to_address,
        diagnostics,
        symbols: entries,
        data_segment_base: if has_data {
            Some(dbase)
        } else {
            None
        },
        stack_segment,
    }
}

} // verus!
