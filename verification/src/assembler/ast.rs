//! The parsed (pre-resolution) statement model. An operand may name a
//! symbol whose value is only known once the two-pass resolver has walked
//! the whole program, so these types hold expressions, not values.
use crate::isa::{Mnemonic, Reg16, Reg8, Repeat, Width};
use vstd::prelude::*;

verus! {

#[derive(Debug, PartialEq)]
pub enum ParsedExpr {
    Number(i64),
    /// A named symbol, or the reserved pseudo-symbol `$` (the address of
    /// the current line).
    Symbol(String),
    /// `a+b`; subtracting a plain number is folded into a `Sum` with the
    /// number negated.
    Sum(Box<ParsedExpr>, Box<ParsedExpr>),
    /// `a-b` where `b` is not a plain number.
    Diff(Box<ParsedExpr>, Box<ParsedExpr>),
    /// `OFFSET expr`: always the address of what `expr` names.
    Offset(Box<ParsedExpr>),
}

/// An expression with its symbol names as character sequences.
pub enum ExprView {
    Number(i64),
    Symbol(Seq<char>),
    Sum(Box<ExprView>, Box<ExprView>),
    Diff(Box<ExprView>, Box<ExprView>),
    Offset(Box<ExprView>),
}

pub open spec fn expr_view(e: ParsedExpr) -> ExprView
    decreases e,
{
    match e {
        ParsedExpr::Number(n) => ExprView::Number(n),
        ParsedExpr::Symbol(s) => ExprView::Symbol(s@),
        ParsedExpr::Sum(a, b) => ExprView::Sum(Box::new(expr_view(*a)), Box::new(expr_view(*b))),
        ParsedExpr::Diff(a, b) => ExprView::Diff(Box::new(expr_view(*a)), Box::new(expr_view(*b))),
        ParsedExpr::Offset(a) => ExprView::Offset(Box::new(expr_view(*a))),
    }
}

impl View for ParsedExpr {
    type V = ExprView;

    open spec fn view(&self) -> ExprView {
        expr_view(*self)
    }
}

/// `existing + new`, or just `new` on the first term.
pub open spec fn accumulated(existing: Option<ExprView>, new: ExprView) -> ExprView {
    match existing {
        None => new,
        Some(e) => ExprView::Sum(Box::new(e), Box::new(new)),
    }
}

impl ParsedExpr {
    /// Folds `new` into `existing` (`None` on the first term), building a
    /// left-associative `Sum` chain term by term.
    pub fn accumulate(existing: Option<ParsedExpr>, new: ParsedExpr) -> (r: ParsedExpr)
        ensures
            r@ == accumulated(
                match existing {
                    Some(e) => Some(e@),
                    None => None,
                },
                new@,
            ),
    {
        match existing {
            None => new,
            Some(expr) => ParsedExpr::Sum(Box::new(expr), Box::new(new)),
        }
    }
}

#[derive(Debug, PartialEq)]
pub enum ParsedOperand {
    Reg16(Reg16),
    Reg8(Reg8),
    /// An immediate value, or (for branch mnemonics) a jump/call target.
    Immediate(ParsedExpr),
    Memory {
        size_override: Option<Width>,
        segment_override: Option<Reg16>,
        base: Option<Reg16>,
        index: Option<Reg16>,
        displacement: Option<ParsedExpr>,
    },
}

pub enum OperandView {
    Reg16(Reg16),
    Reg8(Reg8),
    Immediate(ExprView),
    Memory {
        size_override: Option<Width>,
        segment_override: Option<Reg16>,
        base: Option<Reg16>,
        index: Option<Reg16>,
        displacement: Option<ExprView>,
    },
}

pub open spec fn opt_expr_view(e: Option<ParsedExpr>) -> Option<ExprView> {
    match e {
        Some(x) => Some(x@),
        None => None,
    }
}

impl View for ParsedOperand {
    type V = OperandView;

    open spec fn view(&self) -> OperandView {
        match *self {
            ParsedOperand::Reg16(r) => OperandView::Reg16(r),
            ParsedOperand::Reg8(r) => OperandView::Reg8(r),
            ParsedOperand::Immediate(e) => OperandView::Immediate(e@),
            ParsedOperand::Memory { size_override, segment_override, base, index, displacement } =>
                OperandView::Memory {
                size_override,
                segment_override,
                base,
                index,
                displacement: opt_expr_view(displacement),
            },
        }
    }
}

#[derive(Debug, PartialEq)]
pub enum DataItem {
    Value(ParsedExpr),
    /// `DB "text"`: each character one byte.
    Str(String),
    /// `?`: reserved space, zero-filled.
    Uninitialized,
    Dup { count: ParsedExpr, item: Box<DataItem> },
}

pub enum DataView {
    Value(ExprView),
    Str(Seq<char>),
    Uninitialized,
    Dup { count: ExprView, item: Box<DataView> },
}

pub open spec fn data_view(d: DataItem) -> DataView
    decreases d,
{
    match d {
        DataItem::Value(e) => DataView::Value(e@),
        DataItem::Str(s) => DataView::Str(s@),
        DataItem::Uninitialized => DataView::Uninitialized,
        DataItem::Dup { count, item } => DataView::Dup {
            count: count@,
            item: Box::new(data_view(*item)),
        },
    }
}

impl View for DataItem {
    type V = DataView;

    open spec fn view(&self) -> DataView {
        data_view(*self)
    }
}

pub open spec fn items_view(items: Seq<DataItem>) -> Seq<DataView> {
    items.map_values(|d: DataItem| d@)
}

pub open spec fn operands_view(ops: Seq<ParsedOperand>) -> Seq<OperandView> {
    ops.map_values(|o: ParsedOperand| o@)
}

/// Which segment statements belong to, as switched by `.DATA`/`.CODE`.
#[derive(Debug, Clone, Copy, PartialEq, Eq, Structural)]
pub enum SegmentRole {
    Code,
    Data,
}

#[derive(Debug, PartialEq)]
pub enum StatementKind {
    Label(String),
    Org(ParsedExpr),
    Equ { name: String, value: ParsedExpr },
    Db(Vec<DataItem>),
    Dw(Vec<DataItem>),
    Instruction {
        mnemonic: Mnemonic,
        operands: Vec<ParsedOperand>,
        /// `JMP SHORT target`: the 2-byte rel8 form.
        short_jump: bool,
        /// A `REP`/`REPE`/`REPNE` prefix on a string instruction.
        repeat: Option<Repeat>,
    },
    /// `END [label]`.
    End(Option<String>),
    /// `.STACK <size>`.
    Stack(ParsedExpr),
    /// `.DATA` / `.CODE` (or a NASM `SECTION`).
    SegmentSwitch(SegmentRole),
    /// Structural directives accepted for source compatibility only.
    NoOp,
}

#[derive(Debug, PartialEq)]
pub struct Statement {
    pub kind: StatementKind,
    pub line: u32,
}

pub enum KindView {
    Label(Seq<char>),
    Org(ExprView),
    Equ { name: Seq<char>, value: ExprView },
    Db(Seq<DataView>),
    Dw(Seq<DataView>),
    Instruction {
        mnemonic: Mnemonic,
        operands: Seq<OperandView>,
        short_jump: bool,
        repeat: Option<Repeat>,
    },
    End(Option<Seq<char>>),
    Stack(ExprView),
    SegmentSwitch(SegmentRole),
    NoOp,
}

impl View for StatementKind {
    type V = KindView;

    open spec fn view(&self) -> KindView {
        match *self {
            StatementKind::Label(s) => KindView::Label(s@),
            StatementKind::Org(e) => KindView::Org(e@),
            StatementKind::Equ { name, value } => KindView::Equ { name: name@, value: value@ },
            StatementKind::Db(items) => KindView::Db(items_view(items@)),
            StatementKind::Dw(items) => KindView::Dw(items_view(items@)),
            StatementKind::Instruction { mnemonic, operands, short_jump, repeat } =>
                KindView::Instruction {
                mnemonic,
                operands: operands_view(operands@),
                short_jump,
                repeat,
            },
            StatementKind::End(label) => KindView::End(
                match label {
                    Some(s) => Some(s@),
                    None => None,
                },
            ),
            StatementKind::Stack(e) => KindView::Stack(e@),
            StatementKind::SegmentSwitch(r) => KindView::SegmentSwitch(r),
            StatementKind::NoOp => KindView::NoOp,
        }
    }
}

/// A statement: what it is and its source line.
pub type StatementView = (KindView, u32);

impl View for Statement {
    type V = StatementView;

    open spec fn view(&self) -> StatementView {
        (self.kind@, self.line)
    }
}

pub open spec fn statements_view(s: Seq<Statement>) -> Seq<StatementView> {
    s.map_values(|x: Statement| x@)
}

} // verus!
