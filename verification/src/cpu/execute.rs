//! Instruction execution: given a decoded `Instruction` and the current
//! register and memory state, apply its effect.
//!
//! `regs.ip` must already point past the instruction being executed:
//! relative jumps, calls and loops measure their displacement from the
//! address of the next instruction, as the 8086 itself does.
use super::flags::{
    add_result, add_with_flags, modulus, negative, parity_even, parity_of, set_flags_after_logic,
    sign_bit, signed_value, spec_add_flags, spec_logic_flags, spec_sub_flags, sub_result,
    sub_with_flags,
};
use super::operand::{
    effective_offset, lemma_write_then_read, read_operand, spec_effective_offset, spec_read_memory, spec_read_operand,
    spec_write_memory, spec_write_operand_mem, spec_write_operand_regs, write_operand,
};
use super::registers::{high_byte, low_byte, with_high_byte, with_low_byte, Registers};
use crate::decoder::spec_condition_from_index;
use crate::isa::{Condition, Flag, Instruction, Mnemonic, Operand, Reg8, Repeat, Width};
use crate::memory::{
    lemma_undo_preserved_refl, lemma_undo_preserved_trans, phys, spec_resolve, undo_preserved,
    Memory, MEMORY_SIZE,
};
use vstd::prelude::*;

verus! {

#[derive(Debug, Clone, Copy, PartialEq, Eq, Structural)]
pub enum ExecutionEffect {
    Continue,
    Halted,
    /// A software interrupt was invoked; simulating what the vector does
    /// is the interrupt layer's job, not this module's.
    Interrupt(u8),
}

/// The five FLAGS bits LAHF/SAHF move through AH: SF, ZF, AF, PF, CF.
pub const LOW_FLAGS_MASK: u16 = 0xD5;

// --- what each instruction needs to be executable ------------------------

pub open spec fn is_string_mnemonic(m: Mnemonic) -> bool {
    m is Movsb || m is Movsw || m is Cmpsb || m is Cmpsw || m is Stosb || m is Stosw || m is Lodsb
        || m is Lodsw || m is Scasb || m is Scasw
}

pub open spec fn is_shift_rotate(m: Mnemonic) -> bool {
    m is Shl || m is Shr || m is Sar || m is Rol || m is Ror || m is Rcl || m is Rcr
}

pub open spec fn writable(op: Operand) -> bool {
    !(op is Immediate)
}

/// The operand count, width and destination shape each mnemonic needs
/// (what the decoder produces for it).
pub open spec fn executable(instr: Instruction) -> bool {
    executable_parts(instr.mnemonic, instr.operands@, instr.width)
}

/// `executable`, stated over an instruction's mnemonic, operand list and
/// width.
pub open spec fn executable_parts(mnemonic: Mnemonic, ops: Seq<Operand>, width: Option<Width>) -> bool {
    let has_width = width is Some;
    match mnemonic {
        Mnemonic::Mov => ops.len() >= 2 && has_width && writable(ops[0]),
        Mnemonic::Xchg => ops.len() >= 2 && has_width && writable(ops[0]) && writable(ops[1]),
        Mnemonic::Lea => ops.len() >= 2 && (ops[1] is Memory ==> writable(ops[0])),
        Mnemonic::Push => ops.len() >= 1,
        Mnemonic::Pop => ops.len() >= 1 && writable(ops[0]),
        Mnemonic::Cmp | Mnemonic::Test => ops.len() >= 2 && has_width,
        Mnemonic::Add | Mnemonic::Adc | Mnemonic::Sub | Mnemonic::Sbb | Mnemonic::And
        | Mnemonic::Or | Mnemonic::Xor => ops.len() >= 2 && has_width && writable(ops[0]),
        Mnemonic::Inc | Mnemonic::Dec | Mnemonic::Neg | Mnemonic::Not => ops.len() >= 1
            && has_width && writable(ops[0]),
        Mnemonic::Mul | Mnemonic::Imul | Mnemonic::Div | Mnemonic::Idiv => ops.len() >= 1
            && has_width,
        Mnemonic::Shl | Mnemonic::Shr | Mnemonic::Sar | Mnemonic::Rol | Mnemonic::Ror
        | Mnemonic::Rcl | Mnemonic::Rcr => ops.len() >= 1 && has_width && writable(ops[0]),
        _ => true,
    }
}

// --- stack and control flow ----------------------------------------------

/// Registers and memory after pushing a word: SP drops by 2 and the word
/// is stored at SS:SP.
pub open spec fn spec_push(regs: Registers, mem: Seq<u8>, value: u16) -> (Registers, Seq<u8>) {
    let sp = ((regs.sp as int + 65534) % 65536) as u16;
    let r = Registers { sp, ..regs };
    (r, spec_write_memory(mem, spec_resolve(regs.ss, sp), Width::Word, value))
}

/// Popping right after a push gives back the pushed word and the
/// registers as they were before the push, in any 1MB memory.
pub proof fn lemma_push_then_pop(regs: Registers, mem: Seq<u8>, value: u16)
    requires
        mem.len() == MEMORY_SIZE,
    ensures
        spec_pop(spec_push(regs, mem, value).0, spec_push(regs, mem, value).1) == (regs, value),
{
    let (r1, m1) = spec_push(regs, mem, value);
    lemma_write_then_read(mem, spec_resolve(regs.ss, r1.sp), Width::Word, value);
    assert(((r1.sp as int + 2) % 65536) as u16 == regs.sp);
    assert(Registers { sp: regs.sp, ..r1 } == regs);
}

/// The word at SS:SP, and the registers after SP rises by 2.
pub open spec fn spec_pop(regs: Registers, mem: Seq<u8>) -> (Registers, u16) {
    let value = spec_read_memory(mem, spec_resolve(regs.ss, regs.sp), Width::Word);
    (Registers { sp: ((regs.sp as int + 2) % 65536) as u16, ..regs }, value)
}

/// IP advanced by the instruction's relative displacement (if it has one).
pub open spec fn spec_jump(instr: Instruction, regs: Registers) -> Registers {
    if instr.operands@.len() >= 1 && instr.operands@[0] is Immediate {
        let rel = instr.operands@[0]->Immediate_0;
        Registers { ip: ((regs.ip as int + (rel as u16) as int) % 65536) as u16, ..regs }
    } else {
        regs
    }
}

pub open spec fn spec_condition_holds(condition: Condition, regs: Registers) -> bool {
    let carry = regs.spec_get_flag(Flag::Carry);
    let zero = regs.spec_get_flag(Flag::Zero);
    let sign = regs.spec_get_flag(Flag::Sign);
    let overflow = regs.spec_get_flag(Flag::Overflow);
    let parity = regs.spec_get_flag(Flag::Parity);
    match condition {
        Condition::Overflow => overflow,
        Condition::NotOverflow => !overflow,
        Condition::Below => carry,
        Condition::AboveOrEqual => !carry,
        Condition::Equal => zero,
        Condition::NotEqual => !zero,
        Condition::BelowOrEqual => carry || zero,
        Condition::Above => !carry && !zero,
        Condition::Sign => sign,
        Condition::NotSign => !sign,
        Condition::Parity => parity,
        Condition::NotParity => !parity,
        Condition::Less => sign != overflow,
        Condition::GreaterOrEqual => sign == overflow,
        Condition::LessOrEqual => zero || (sign != overflow),
        Condition::Greater => !zero && (sign == overflow),
    }
}

/// CX minus one, and whether a LOOP/LOOPE/LOOPNE then branches.
pub open spec fn spec_loop(m: Mnemonic, instr: Instruction, regs: Registers) -> Registers {
    let cx = ((regs.cx as int + 65535) % 65536) as u16;
    let r = Registers { cx, ..regs };
    let zero = regs.spec_get_flag(Flag::Zero);
    let taken = match m {
        Mnemonic::Loope => cx != 0 && zero,
        Mnemonic::Loopne => cx != 0 && !zero,
        _ => cx != 0,
    };
    if taken {
        spec_jump(instr, r)
    } else {
        r
    }
}

#[verifier::rlimit(100)]
#[verifier::spinoff_prover]
proof fn lemma_execute_jcc(instr: Instruction, regs: Registers, mem: Seq<u8>, c: Condition)
    requires
        instr.mnemonic == Mnemonic::Jcc(c),
    ensures
        spec_execute(instr, regs, mem) == (
            if spec_condition_holds(c, regs) {
                spec_jump(instr, regs)
            } else {
                regs
            },
            mem,
            ExecutionEffect::Continue,
        ),
{
}

/// Whether the conditional jump with opcode 70h + `k` is taken, read off
/// the FLAGS bits (CF bit 0, PF 2, ZF 6, SF 7, OF 11) as the 8086 manual
/// gives the sixteen conditions.
pub open spec fn jcc_taken(k: u8, flags: u16) -> bool {
    let cf = (flags >> 0u16) & 1u16 == 1u16;
    let pf = (flags >> 2u16) & 1u16 == 1u16;
    let zf = (flags >> 6u16) & 1u16 == 1u16;
    let sf = (flags >> 7u16) & 1u16 == 1u16;
    let of = (flags >> 11u16) & 1u16 == 1u16;
    match k {
        0 => of,
        1 => !of,
        2 => cf,
        3 => !cf,
        4 => zf,
        5 => !zf,
        6 => cf || zf,
        7 => !cf && !zf,
        8 => sf,
        9 => !sf,
        10 => pf,
        11 => !pf,
        12 => sf != of,
        13 => sf == of,
        14 => zf || sf != of,
        _ => !zf && sf == of,
    }
}

/// The conditional jump the decoder reads from opcode 70h + `k`, with
/// displacement `rel`, goes to IP + rel exactly when its condition holds
/// on the FLAGS bits, and otherwise changes nothing; odd opcodes are the
/// negations of the even ones before them.
#[verifier::rlimit(100)]
#[verifier::spinoff_prover]
pub proof fn lemma_jcc_branches(k: u8, instr: Instruction, regs: Registers, mem: Seq<u8>, rel: i32)
    requires
        k < 16,
        instr.mnemonic == Mnemonic::Jcc(spec_condition_from_index(k)),
        instr.operands@.len() >= 1,
        instr.operands@[0] == Operand::Immediate(rel),
    ensures
        spec_execute(instr, regs, mem) == (
            if jcc_taken(k, regs.flags) {
                Registers { ip: ((regs.ip as int + (rel as u16) as int) % 65536) as u16, ..regs }
            } else {
                regs
            },
            mem,
            ExecutionEffect::Continue,
        ),
        k % 2 == 1 ==> jcc_taken(k, regs.flags) == !jcc_taken((k - 1) as u8, regs.flags),
{
    lemma_execute_jcc(instr, regs, mem, spec_condition_from_index(k));
    lemma_condition_bits(k, regs);
}

proof fn lemma_condition_bits(k: u8, regs: Registers)
    requires
        k < 16,
    ensures
        spec_condition_holds(spec_condition_from_index(k), regs) == jcc_taken(k, regs.flags),
        k % 2 == 1 ==> jcc_taken(k, regs.flags) == !jcc_taken((k - 1) as u8, regs.flags),
{
}

#[verifier::rlimit(100)]
#[verifier::spinoff_prover]
proof fn lemma_execute_loop(instr: Instruction, regs: Registers, mem: Seq<u8>)
    requires
        instr.mnemonic is Loop || instr.mnemonic is Loope || instr.mnemonic is Loopne,
    ensures
        spec_execute(instr, regs, mem) == (spec_loop(instr.mnemonic, instr, regs), mem, ExecutionEffect::Continue),
{
}

/// LOOP, LOOPE/LOOPZ and LOOPNE/LOOPNZ with displacement `rel`: CX drops
/// by one (wrapping); the jump to IP + rel is taken exactly when the new
/// CX is nonzero and, for LOOPE, ZF (FLAGS bit 6) is set, for LOOPNE, ZF
/// is clear. Nothing else changes, memory included.
#[verifier::rlimit(100)]
#[verifier::spinoff_prover]
pub proof fn lemma_loop_branches(instr: Instruction, regs: Registers, mem: Seq<u8>, rel: i32)
    requires
        instr.mnemonic is Loop || instr.mnemonic is Loope || instr.mnemonic is Loopne,
        instr.operands@.len() >= 1,
        instr.operands@[0] == Operand::Immediate(rel),
    ensures
        ({
            let (r, m, e) = spec_execute(instr, regs, mem);
            let cx: u16 = if regs.cx == 0 { 0xFFFFu16 } else { (regs.cx - 1) as u16 };
            let zf = (regs.flags >> 6u16) & 1u16 == 1u16;
            let taken = cx != 0 && (instr.mnemonic is Loope ==> zf) && (instr.mnemonic is Loopne
                ==> !zf);
            let ip: u16 = if taken {
                ((regs.ip as int + (rel as u16) as int) % 65536) as u16
            } else {
                regs.ip
            };
            &&& e == ExecutionEffect::Continue
            &&& m == mem
            &&& r == Registers { cx, ip, ..regs }
        }),
{
    lemma_execute_loop(instr, regs, mem);
    lemma_loop_registers(instr, regs, rel);
}

proof fn lemma_loop_registers(instr: Instruction, regs: Registers, rel: i32)
    requires
        instr.mnemonic is Loop || instr.mnemonic is Loope || instr.mnemonic is Loopne,
        instr.operands@.len() >= 1,
        instr.operands@[0] == Operand::Immediate(rel),
    ensures
        ({
            let cx: u16 = if regs.cx == 0 { 0xFFFFu16 } else { (regs.cx - 1) as u16 };
            let zf = (regs.flags >> 6u16) & 1u16 == 1u16;
            let taken = cx != 0 && (instr.mnemonic is Loope ==> zf) && (instr.mnemonic is Loopne
                ==> !zf);
            let ip: u16 = if taken {
                ((regs.ip as int + (rel as u16) as int) % 65536) as u16
            } else {
                regs.ip
            };
            spec_loop(instr.mnemonic, instr, regs) == Registers { cx, ip, ..regs }
        }),
{
    lemma_cx_decrement(regs.cx);
}

proof fn lemma_cx_decrement(cx: u16)
    ensures
        ((cx as int + 65535) % 65536) as u16 == (if cx == 0 { 0xFFFFu16 } else { (cx - 1) as u16 }),
{
}

// --- shifts and rotates ----------------------------------------------------

/// One bit-step of a shift/rotate: the new value and the bit shifted out.
pub open spec fn shift_step(m: Mnemonic, value: int, carry: bool, width: Width) -> (int, bool) {
    let md = modulus(width);
    let sb = sign_bit(width);
    let top = value >= sb;
    let low = value % 2 == 1;
    let cin = if carry { 1int } else { 0int };
    match m {
        Mnemonic::Shl => ((value * 2) % md, top),
        Mnemonic::Shr => (value / 2, low),
        Mnemonic::Sar => (value / 2 + (if top { sb } else { 0 }), low),
        Mnemonic::Rol => ((value * 2) % md + (if top { 1int } else { 0int }), top),
        Mnemonic::Ror => (value / 2 + (if low { sb } else { 0 }), low),
        Mnemonic::Rcl => ((value * 2) % md + cin, top),
        _ => (value / 2 + cin * sb, low),
    }
}

/// `count` bit-steps from `(value, carry)`.
pub open spec fn shift_iter(m: Mnemonic, value: int, carry: bool, count: nat, width: Width) -> (int, bool)
    decreases count,
{
    if count == 0 {
        (value, carry)
    } else {
        let (v, c) = shift_iter(m, value, carry, (count - 1) as nat, width);
        shift_step(m, v, c, width)
    }
}

/// The shift count an instruction carries: an immediate's low byte, or CL.
pub open spec fn spec_shift_count(instr: Instruction, regs: Registers) -> nat {
    if instr.operands@.len() >= 2 {
        match instr.operands@[1] {
            Operand::Immediate(n) => (n as u8) as nat,
            Operand::Reg8(Reg8::Cl) => regs.spec_get8(Reg8::Cl) as nat,
            _ => 0,
        }
    } else {
        0
    }
}

/// OF after a single-bit shift/rotate.
pub open spec fn shift_overflow(m: Mnemonic, original: int, value: int, carry: bool, width: Width) -> bool {
    let sb = sign_bit(width);
    match m {
        Mnemonic::Shl | Mnemonic::Rol | Mnemonic::Rcl => (value >= sb) != carry,
        Mnemonic::Shr => original >= sb,
        Mnemonic::Sar => false,
        _ => (value >= sb) != ((value / (sb / 2)) % 2 == 1),
    }
}

/// Registers and memory after a shift/rotate of `dst` by `count`. A count
/// of zero changes nothing at all; OF is only written for a count of 1;
/// only the shifts (not the rotates) write ZF/SF/PF.
pub open spec fn spec_shift_rotate(
    m: Mnemonic,
    dst: Operand,
    width: Width,
    count: nat,
    regs: Registers,
    mem: Seq<u8>,
) -> (Registers, Seq<u8>) {
    if count == 0 {
        (regs, mem)
    } else {
        let original = spec_read_operand(dst, width, regs, mem) as int % modulus(width);
        let (value, carry) = shift_iter(
            m,
            original,
            regs.spec_get_flag(Flag::Carry),
            count,
            width,
        );
        let r1 = regs.spec_with_flag(Flag::Carry, carry);
        let r2 = if count == 1 {
            r1.spec_with_flag(Flag::Overflow, shift_overflow(m, original, value, carry, width))
        } else {
            r1
        };
        let r3 = if m is Shl || m is Shr || m is Sar {
            r2.spec_with_flag(Flag::Zero, value == 0).spec_with_flag(
                Flag::Sign,
                value >= sign_bit(width),
            ).spec_with_flag(Flag::Parity, parity_even((value % 256) as u8))
        } else {
            r2
        };
        (
            spec_write_operand_regs(dst, value as u16, r3),
            spec_write_operand_mem(dst, width, value as u16, r3, mem),
        )
    }
}

// --- multiply and divide ---------------------------------------------------

/// MUL: AL*src into AX (byte) or AX*src into DX:AX (word); CF=OF=upper
/// half nonzero.
pub open spec fn spec_mul(width: Width, src_value: u16, regs: Registers) -> Registers {
    match width {
        Width::Byte => {
            let result = regs.spec_get8(Reg8::Al) as int * (src_value as int % 256);
            let overflow = result >= 256;
            Registers { ax: result as u16, ..regs }.spec_with_flag(Flag::Carry, overflow).spec_with_flag(
                Flag::Overflow,
                overflow,
            )
        },
        Width::Word => {
            let result = regs.ax as int * src_value as int;
            let overflow = result >= 65536;
            Registers {
                ax: (result % 65536) as u16,
                dx: (result / 65536) as u16,
                ..regs
            }.spec_with_flag(Flag::Carry, overflow).spec_with_flag(Flag::Overflow, overflow)
        },
    }
}

/// IMUL: the signed product; CF=OF=the product does not fit the
/// operand width.
pub open spec fn spec_imul(width: Width, src_value: u16, regs: Registers) -> Registers {
    match width {
        Width::Byte => {
            let result = signed_value(regs.spec_get8(Reg8::Al) as int, Width::Byte) * signed_value(
                src_value as int % 256,
                Width::Byte,
            );
            let overflow = result < -128 || result > 127;
            Registers { ax: (result % 65536) as u16, ..regs }.spec_with_flag(
                Flag::Carry,
                overflow,
            ).spec_with_flag(Flag::Overflow, overflow)
        },
        Width::Word => {
            let result = signed_value(regs.ax as int, Width::Word) * signed_value(
                src_value as int,
                Width::Word,
            );
            let overflow = result < -32768 || result > 32767;
            Registers {
                ax: (result % 65536) as u16,
                dx: ((result / 65536) % 65536) as u16,
                ..regs
            }.spec_with_flag(Flag::Carry, overflow).spec_with_flag(Flag::Overflow, overflow)
        },
    }
}

/// Unsigned divide; `None` on a zero divisor or a quotient that does not
/// fit (the divide-error case, which leaves every register untouched).
pub open spec fn spec_div(width: Width, divisor: u16, regs: Registers) -> Option<Registers> {
    match width {
        Width::Byte => {
            let d = divisor as int;
            if d == 0 || regs.ax as int / d > 255 {
                None
            } else {
                Some(
                    regs.spec_set8(Reg8::Al, (regs.ax as int / d) as u8).spec_set8(
                        Reg8::Ah,
                        (regs.ax as int % d) as u8,
                    ),
                )
            }
        },
        Width::Word => {
            let d = divisor as int;
            let dividend = regs.dx as int * 65536 + regs.ax as int;
            if d == 0 || dividend / d > 65535 {
                None
            } else {
                Some(Registers { ax: (dividend / d) as u16, dx: (dividend % d) as u16, ..regs })
            }
        },
    }
}

/// Division rounding toward zero (as the 8086 and Rust's `/` do).
pub open spec fn trunc_div(a: int, b: int) -> int {
    let q = (if a >= 0 { a } else { -a }) / (if b >= 0 { b } else { -b });
    if (a >= 0) == (b >= 0) {
        q
    } else {
        -q
    }
}

/// The remainder matching `trunc_div` (it takes the dividend's sign).
pub open spec fn trunc_rem(a: int, b: int) -> int {
    a - b * trunc_div(a, b)
}

/// Signed divide; `None` on a zero divisor or an out-of-range quotient.
pub open spec fn spec_idiv(width: Width, divisor: u16, regs: Registers) -> Option<Registers> {
    match width {
        Width::Byte => {
            let d = signed_value(divisor as int % 256, Width::Byte);
            let a = signed_value(regs.ax as int, Width::Word);
            if d == 0 || trunc_div(a, d) < -128 || trunc_div(a, d) > 127 {
                None
            } else {
                Some(
                    regs.spec_set8(Reg8::Al, (trunc_div(a, d) % 256) as u8).spec_set8(
                        Reg8::Ah,
                        (trunc_rem(a, d) % 256) as u8,
                    ),
                )
            }
        },
        Width::Word => {
            let d = signed_value(divisor as int, Width::Word);
            let raw = regs.dx as int * 65536 + regs.ax as int;
            let a = if raw >= 0x8000_0000 {
                raw - 0x1_0000_0000
            } else {
                raw
            };
            if d == 0 || trunc_div(a, d) < -32768 || trunc_div(a, d) > 32767 {
                None
            } else {
                Some(
                    Registers {
                        ax: (trunc_div(a, d) % 65536) as u16,
                        dx: (trunc_rem(a, d) % 65536) as u16,
                        ..regs
                    },
                )
            }
        },
    }
}

// --- string instructions ---------------------------------------------------

pub open spec fn string_width(m: Mnemonic) -> Width {
    if m is Movsb || m is Cmpsb || m is Stosb || m is Lodsb || m is Scasb {
        Width::Byte
    } else {
        Width::Word
    }
}

/// +1/+2 per iteration, or -1/-2 when DF is set, as a 16-bit addend.
pub open spec fn spec_string_step(width: Width, direction: bool) -> u16 {
    let n: int = if width == Width::Byte {
        1
    } else {
        2
    };
    if direction {
        (65536 - n) as u16
    } else {
        n as u16
    }
}

pub open spec fn add16(a: u16, b: u16) -> u16 {
    ((a as int + b as int) % 65536) as u16
}

/// One iteration of a string instruction: source DS:SI, destination ES:DI.
pub open spec fn spec_string_once(m: Mnemonic, regs: Registers, mem: Seq<u8>) -> (Registers, Seq<u8>) {
    let w = string_width(m);
    let step = spec_string_step(w, regs.spec_get_flag(Flag::Direction));
    let src = spec_resolve(regs.ds, regs.si);
    let dst = spec_resolve(regs.es, regs.di);
    if m is Movsb || m is Movsw {
        (
            Registers { si: add16(regs.si, step), di: add16(regs.di, step), ..regs },
            spec_write_memory(mem, dst, w, spec_read_memory(mem, src, w)),
        )
    } else if m is Lodsb || m is Lodsw {
        let loaded = spec_read_memory(mem, src, w);
        let r = if w == Width::Byte {
            regs.spec_set8(Reg8::Al, loaded as u8)
        } else {
            Registers { ax: loaded, ..regs }
        };
        (Registers { si: add16(regs.si, step), ..r }, mem)
    } else if m is Stosb || m is Stosw {
        let value = if w == Width::Byte {
            regs.spec_get8(Reg8::Al) as u16
        } else {
            regs.ax
        };
        (Registers { di: add16(regs.di, step), ..regs }, spec_write_memory(mem, dst, w, value))
    } else if m is Cmpsb || m is Cmpsw {
        let a = spec_read_memory(mem, src, w);
        let b = spec_read_memory(mem, dst, w);
        let r = spec_sub_flags(regs, a, b, false, w);
        (Registers { si: add16(regs.si, step), di: add16(regs.di, step), ..r }, mem)
    } else {
        let acc = if w == Width::Byte {
            regs.spec_get8(Reg8::Al) as u16
        } else {
            regs.ax
        };
        let r = spec_sub_flags(regs, acc, spec_read_memory(mem, dst, w), false, w);
        (Registers { di: add16(regs.di, step), ..r }, mem)
    }
}

/// A repeated string instruction with `n` iterations left (`n` is CX):
/// each iteration runs once and drops CX; REPE stops early once ZF is
/// clear, REPNE once it is set.
pub open spec fn spec_string_rep(m: Mnemonic, repeat: Repeat, regs: Registers, mem: Seq<u8>, n: nat) -> (Registers, Seq<u8>)
    decreases n,
{
    if n == 0 {
        (regs, mem)
    } else {
        let (r1, m1) = spec_string_once(m, regs, mem);
        let r2 = Registers { cx: (n - 1) as u16, ..r1 };
        let stop = match repeat {
            Repeat::Rep => false,
            Repeat::Repe => !r2.spec_get_flag(Flag::Zero),
            Repeat::Repne => r2.spec_get_flag(Flag::Zero),
        };
        if stop {
            (r2, m1)
        } else {
            spec_string_rep(m, repeat, r2, m1, (n - 1) as nat)
        }
    }
}

// --- the whole instruction set -----------------------------------------------

/// What an instruction does depends only on its mnemonic, operands, width
/// and repeat prefix.
#[verifier::rlimit(60)]
#[verifier::spinoff_prover]
pub proof fn lemma_execute_by_view(i1: Instruction, i2: Instruction, regs: Registers, mem: Seq<u8>)
    requires
        i1.mnemonic == i2.mnemonic,
        i1.operands@ == i2.operands@,
        i1.width == i2.width,
        i1.repeat == i2.repeat,
    ensures
        spec_execute(i1, regs, mem) == spec_execute(i2, regs, mem),
{
    assert(spec_jump(i1, regs) == spec_jump(i2, regs));
    assert(spec_loop(i1.mnemonic, i1, regs) == spec_loop(i2.mnemonic, i2, regs));
    assert(spec_shift_count(i1, regs) == spec_shift_count(i2, regs));
    assert forall|r: Registers| #[trigger] spec_jump(i1, r) == spec_jump(i2, r) by {}
}

/// Registers, memory and reported effect after executing `instr`.
pub open spec fn spec_execute(instr: Instruction, regs: Registers, mem: Seq<u8>) -> (Registers, Seq<u8>, ExecutionEffect) {
    let ops = instr.operands@;
    let w = instr.width.unwrap();
    let go = ExecutionEffect::Continue;
    match instr.mnemonic {
        Mnemonic::Mov => {
            let v = spec_read_operand(ops[1], w, regs, mem);
            (
                spec_write_operand_regs(ops[0], v, regs),
                spec_write_operand_mem(ops[0], w, v, regs, mem),
                go,
            )
        },
        Mnemonic::Xchg => {
            let a = spec_read_operand(ops[0], w, regs, mem);
            let b = spec_read_operand(ops[1], w, regs, mem);
            let r1 = spec_write_operand_regs(ops[0], b, regs);
            let m1 = spec_write_operand_mem(ops[0], w, b, regs, mem);
            (spec_write_operand_regs(ops[1], a, r1), spec_write_operand_mem(ops[1], w, a, r1, m1), go)
        },
        Mnemonic::Lea => match ops[1] {
            Operand::Memory { base, index, displacement, .. } => {
                let off = spec_effective_offset(base, index, displacement, regs);
                (
                    spec_write_operand_regs(ops[0], off, regs),
                    spec_write_operand_mem(ops[0], Width::Word, off, regs, mem),
                    go,
                )
            },
            _ => (regs, mem, go),
        },
        Mnemonic::Push => {
            let (r, m) = spec_push(regs, mem, spec_read_operand(ops[0], Width::Word, regs, mem));
            (r, m, go)
        },
        Mnemonic::Pop => {
            let (r, v) = spec_pop(regs, mem);
            (
                spec_write_operand_regs(ops[0], v, r),
                spec_write_operand_mem(ops[0], Width::Word, v, r, mem),
                go,
            )
        },
        Mnemonic::Add | Mnemonic::Adc | Mnemonic::Sub | Mnemonic::Sbb | Mnemonic::Cmp => {
            let a = spec_read_operand(ops[0], w, regs, mem);
            let b = spec_read_operand(ops[1], w, regs, mem);
            let cin = regs.spec_get_flag(Flag::Carry);
            let (r, result) = match instr.mnemonic {
                Mnemonic::Add => (spec_add_flags(regs, a, b, false, w), add_result(a, b, false, w)),
                Mnemonic::Adc => (spec_add_flags(regs, a, b, cin, w), add_result(a, b, cin, w)),
                Mnemonic::Sbb => (spec_sub_flags(regs, a, b, cin, w), sub_result(a, b, cin, w)),
                _ => (spec_sub_flags(regs, a, b, false, w), sub_result(a, b, false, w)),
            };
            if instr.mnemonic is Cmp {
                (r, mem, go)
            } else {
                (
                    spec_write_operand_regs(ops[0], result as u16, r),
                    spec_write_operand_mem(ops[0], w, result as u16, r, mem),
                    go,
                )
            }
        },
        Mnemonic::Inc | Mnemonic::Dec => {
            let a = spec_read_operand(ops[0], w, regs, mem);
            let cf = regs.spec_get_flag(Flag::Carry);
            let (r, result) = if instr.mnemonic is Inc {
                (spec_add_flags(regs, a, 1, false, w), add_result(a, 1, false, w))
            } else {
                (spec_sub_flags(regs, a, 1, false, w), sub_result(a, 1, false, w))
            };
            let r2 = r.spec_with_flag(Flag::Carry, cf);
            (
                spec_write_operand_regs(ops[0], result as u16, r2),
                spec_write_operand_mem(ops[0], w, result as u16, r2, mem),
                go,
            )
        },
        Mnemonic::And | Mnemonic::Or | Mnemonic::Xor | Mnemonic::Test => {
            let a = spec_read_operand(ops[0], w, regs, mem);
            let b = spec_read_operand(ops[1], w, regs, mem);
            let result = match instr.mnemonic {
                Mnemonic::Or => a | b,
                Mnemonic::Xor => a ^ b,
                _ => a & b,
            };
            let r = spec_logic_flags(regs, result, w);
            if instr.mnemonic is Test {
                (r, mem, go)
            } else {
                (
                    spec_write_operand_regs(ops[0], result, r),
                    spec_write_operand_mem(ops[0], w, result, r, mem),
                    go,
                )
            }
        },
        Mnemonic::Jmp => (spec_jump(instr, regs), mem, go),
        Mnemonic::Jcc(c) => (
            if spec_condition_holds(c, regs) {
                spec_jump(instr, regs)
            } else {
                regs
            },
            mem,
            go,
        ),
        Mnemonic::Loop | Mnemonic::Loope | Mnemonic::Loopne => (
            spec_loop(instr.mnemonic, instr, regs),
            mem,
            go,
        ),
        Mnemonic::Jcxz => (
            if regs.cx == 0 {
                spec_jump(instr, regs)
            } else {
                regs
            },
            mem,
            go,
        ),
        Mnemonic::Call => {
            let (r, m) = spec_push(regs, mem, regs.ip);
            (spec_jump(instr, r), m, go)
        },
        Mnemonic::Ret => {
            let (r, v) = spec_pop(regs, mem);
            let r2 = Registers { ip: v, ..r };
            if ops.len() >= 1 && ops[0] is Immediate {
                (Registers { sp: add16(r2.sp, ops[0]->Immediate_0 as u16), ..r2 }, mem, go)
            } else {
                (r2, mem, go)
            }
        },
        Mnemonic::Int => (
            regs,
            mem,
            ExecutionEffect::Interrupt(
                if ops.len() >= 1 && ops[0] is Immediate {
                    ops[0]->Immediate_0 as u8
                } else {
                    0
                },
            ),
        ),
        Mnemonic::Int3 => (regs, mem, ExecutionEffect::Interrupt(3)),
        Mnemonic::Iret => {
            let (r1, ip) = spec_pop(regs, mem);
            let (r2, cs) = spec_pop(Registers { ip, ..r1 }, mem);
            let (r3, flags) = spec_pop(Registers { cs, ..r2 }, mem);
            (Registers { flags, ..r3 }, mem, go)
        },
        Mnemonic::Hlt => (regs, mem, ExecutionEffect::Halted),
        Mnemonic::Clc => (regs.spec_with_flag(Flag::Carry, false), mem, go),
        Mnemonic::Stc => (regs.spec_with_flag(Flag::Carry, true), mem, go),
        Mnemonic::Cmc => (regs.spec_with_flag(Flag::Carry, !regs.spec_get_flag(Flag::Carry)), mem, go),
        Mnemonic::Cld => (regs.spec_with_flag(Flag::Direction, false), mem, go),
        Mnemonic::Std => (regs.spec_with_flag(Flag::Direction, true), mem, go),
        Mnemonic::Cli => (regs.spec_with_flag(Flag::Interrupt, false), mem, go),
        Mnemonic::Sti => (regs.spec_with_flag(Flag::Interrupt, true), mem, go),
        Mnemonic::Pushf => {
            let (r, m) = spec_push(regs, mem, regs.flags);
            (r, m, go)
        },
        Mnemonic::Popf => {
            let (r, v) = spec_pop(regs, mem);
            (Registers { flags: v, ..r }, mem, go)
        },
        Mnemonic::Lahf => (regs.spec_set8(Reg8::Ah, low_byte(regs.flags)), mem, go),
        Mnemonic::Sahf => (
            Registers {
                flags: (regs.flags & !LOW_FLAGS_MASK) | ((high_byte(regs.ax) as u16)
                    & LOW_FLAGS_MASK),
                ..regs
            },
            mem,
            go,
        ),
        Mnemonic::Xlat => {
            let off = add16(regs.bx, regs.spec_get8(Reg8::Al) as u16);
            (regs.spec_set8(Reg8::Al, mem[phys(spec_resolve(regs.ds, off) as int)]), mem, go)
        },
        Mnemonic::Shl | Mnemonic::Shr | Mnemonic::Sar | Mnemonic::Rol | Mnemonic::Ror
        | Mnemonic::Rcl | Mnemonic::Rcr => {
            let (r, m) = spec_shift_rotate(
                instr.mnemonic,
                ops[0],
                w,
                spec_shift_count(instr, regs),
                regs,
                mem,
            );
            (r, m, go)
        },
        Mnemonic::Mul => (spec_mul(w, spec_read_operand(ops[0], w, regs, mem), regs), mem, go),
        Mnemonic::Imul => (spec_imul(w, spec_read_operand(ops[0], w, regs, mem), regs), mem, go),
        Mnemonic::Div => match spec_div(w, spec_read_operand(ops[0], w, regs, mem), regs) {
            Some(r) => (r, mem, go),
            None => (regs, mem, ExecutionEffect::Interrupt(0)),
        },
        Mnemonic::Idiv => match spec_idiv(w, spec_read_operand(ops[0], w, regs, mem), regs) {
            Some(r) => (r, mem, go),
            None => (regs, mem, ExecutionEffect::Interrupt(0)),
        },
        Mnemonic::Neg => {
            let a = spec_read_operand(ops[0], w, regs, mem);
            let r = spec_sub_flags(regs, 0, a, false, w);
            let result = sub_result(0, a, false, w) as u16;
            (
                spec_write_operand_regs(ops[0], result, r),
                spec_write_operand_mem(ops[0], w, result, r, mem),
                go,
            )
        },
        Mnemonic::Not => {
            let a = spec_read_operand(ops[0], w, regs, mem);
            let result = (!a) & (if w == Width::Byte { 0xFFu16 } else { 0xFFFFu16 });
            (
                spec_write_operand_regs(ops[0], result, regs),
                spec_write_operand_mem(ops[0], w, result, regs, mem),
                go,
            )
        },
        Mnemonic::Movsb | Mnemonic::Movsw | Mnemonic::Cmpsb | Mnemonic::Cmpsw | Mnemonic::Stosb
        | Mnemonic::Stosw | Mnemonic::Lodsb | Mnemonic::Lodsw | Mnemonic::Scasb
        | Mnemonic::Scasw => match instr.repeat {
            None => {
                let (r, m) = spec_string_once(instr.mnemonic, regs, mem);
                (r, m, go)
            },
            Some(rep) => {
                let (r, m) = spec_string_rep(instr.mnemonic, rep, regs, mem, regs.cx as nat);
                (r, m, go)
            },
        },
        _ => (regs, mem, go),
    }
}


// --- executable pieces -----------------------------------------------------

fn push_word(regs: &mut Registers, memory: &mut Memory, value: u16)
    ensures
        (*final(regs), final(memory)@) == spec_push(*old(regs), old(memory)@, value),
        undo_preserved(old(memory), final(memory)),
{
    regs.sp = ((regs.sp as u32 + 65534) % 65536) as u16;
    let addr = Memory::resolve(regs.ss, regs.sp);
    memory.write_u16(addr, value);
}

fn pop_word(regs: &mut Registers, memory: &Memory) -> (v: u16)
    ensures
        (*final(regs), v) == spec_pop(*old(regs), memory@),
{
    let addr = Memory::resolve(regs.ss, regs.sp);
    let value = memory.read_u16(addr);
    regs.sp = ((regs.sp as u32 + 2) % 65536) as u16;
    value
}

fn jump_relative(instr: &Instruction, regs: &mut Registers)
    ensures
        *final(regs) == spec_jump(*instr, *old(regs)),
{
    if instr.operands.len() >= 1 {
        if let Operand::Immediate(rel) = instr.operands[0] {
            regs.ip = ((regs.ip as u32 + (rel as u16) as u32) % 65536) as u16;
        }
    }
}

fn condition_holds(condition: Condition, regs: &Registers) -> (r: bool)
    ensures
        r == spec_condition_holds(condition, *regs),
{
    let carry = regs.get_flag(Flag::Carry);
    let zero = regs.get_flag(Flag::Zero);
    let sign = regs.get_flag(Flag::Sign);
    let overflow = regs.get_flag(Flag::Overflow);
    let parity = regs.get_flag(Flag::Parity);
    match condition {
        Condition::Overflow => overflow,
        Condition::NotOverflow => !overflow,
        Condition::Below => carry,
        Condition::AboveOrEqual => !carry,
        Condition::Equal => zero,
        Condition::NotEqual => !zero,
        Condition::BelowOrEqual => carry || zero,
        Condition::Above => !carry && !zero,
        Condition::Sign => sign,
        Condition::NotSign => !sign,
        Condition::Parity => parity,
        Condition::NotParity => !parity,
        Condition::Less => sign != overflow,
        Condition::GreaterOrEqual => sign == overflow,
        Condition::LessOrEqual => zero || (sign != overflow),
        Condition::Greater => !zero && (sign == overflow),
    }
}

fn execute_mov(instr: &Instruction, regs: &mut Registers, memory: &mut Memory)
    requires
        executable(*instr),
        instr.mnemonic is Mov,
    ensures
        (*final(regs), final(memory)@, ExecutionEffect::Continue) == spec_execute(
            *instr,
            *old(regs),
            old(memory)@,
        ),
        undo_preserved(old(memory), final(memory)),
{
    let width = instr.width.unwrap();
    let value = read_operand(&instr.operands[1], width, regs, memory);
    write_operand(&instr.operands[0], width, value, regs, memory);
}

fn execute_xchg(instr: &Instruction, regs: &mut Registers, memory: &mut Memory)
    requires
        executable(*instr),
        instr.mnemonic is Xchg,
    ensures
        (*final(regs), final(memory)@, ExecutionEffect::Continue) == spec_execute(
            *instr,
            *old(regs),
            old(memory)@,
        ),
        undo_preserved(old(memory), final(memory)),
{
    let width = instr.width.unwrap();
    let a = read_operand(&instr.operands[0], width, regs, memory);
    let b = read_operand(&instr.operands[1], width, regs, memory);
    let ghost m0 = *memory;
    write_operand(&instr.operands[0], width, b, regs, memory);
    let ghost m1 = *memory;
    write_operand(&instr.operands[1], width, a, regs, memory);
    proof {
        lemma_undo_preserved_trans(&m0, &m1, memory);
    }
}

fn execute_lea(instr: &Instruction, regs: &mut Registers, memory: &mut Memory)
    requires
        executable(*instr),
        instr.mnemonic is Lea,
    ensures
        (*final(regs), final(memory)@, ExecutionEffect::Continue) == spec_execute(
            *instr,
            *old(regs),
            old(memory)@,
        ),
        undo_preserved(old(memory), final(memory)),
{
    if let Operand::Memory { base, index, displacement, .. } = instr.operands[1] {
        let offset = effective_offset(base, index, displacement, regs);
        write_operand(&instr.operands[0], Width::Word, offset, regs, memory);
    } else {
        proof {
            lemma_undo_preserved_refl(memory);
        }
    }
}

fn execute_arith(instr: &Instruction, regs: &mut Registers, memory: &mut Memory)
    requires
        executable(*instr),
        instr.mnemonic is Add || instr.mnemonic is Adc || instr.mnemonic is Sub
            || instr.mnemonic is Sbb || instr.mnemonic is Cmp,
    ensures
        (*final(regs), final(memory)@, ExecutionEffect::Continue) == spec_execute(
            *instr,
            *old(regs),
            old(memory)@,
        ),
        undo_preserved(old(memory), final(memory)),
{
    let width = instr.width.unwrap();
    let a = read_operand(&instr.operands[0], width, regs, memory);
    let b = read_operand(&instr.operands[1], width, regs, memory);
    let carry_in = regs.get_flag(Flag::Carry);
    let result = match instr.mnemonic {
        Mnemonic::Add => add_with_flags(regs, a, b, false, width),
        Mnemonic::Adc => add_with_flags(regs, a, b, carry_in, width),
        Mnemonic::Sbb => sub_with_flags(regs, a, b, carry_in, width),
        _ => sub_with_flags(regs, a, b, false, width),
    };
    if instr.mnemonic != Mnemonic::Cmp {
        write_operand(&instr.operands[0], width, result, regs, memory);
    } else {
        proof {
            lemma_undo_preserved_refl(memory);
        }
    }
}

fn execute_inc_dec(instr: &Instruction, regs: &mut Registers, memory: &mut Memory)
    requires
        executable(*instr),
        instr.mnemonic is Inc || instr.mnemonic is Dec,
    ensures
        (*final(regs), final(memory)@, ExecutionEffect::Continue) == spec_execute(
            *instr,
            *old(regs),
            old(memory)@,
        ),
        undo_preserved(old(memory), final(memory)),
{
    // INC/DEC leave CF untouched, so a loop counter's INC doesn't clobber
    // a carry from surrounding arithmetic.
    let width = instr.width.unwrap();
    let a = read_operand(&instr.operands[0], width, regs, memory);
    let saved_carry = regs.get_flag(Flag::Carry);
    let result = if instr.mnemonic == Mnemonic::Inc {
        add_with_flags(regs, a, 1, false, width)
    } else {
        sub_with_flags(regs, a, 1, false, width)
    };
    regs.set_flag(Flag::Carry, saved_carry);
    write_operand(&instr.operands[0], width, result, regs, memory);
}

fn execute_logic(instr: &Instruction, regs: &mut Registers, memory: &mut Memory)
    requires
        executable(*instr),
        instr.mnemonic is And || instr.mnemonic is Or || instr.mnemonic is Xor
            || instr.mnemonic is Test,
    ensures
        (*final(regs), final(memory)@, ExecutionEffect::Continue) == spec_execute(
            *instr,
            *old(regs),
            old(memory)@,
        ),
        undo_preserved(old(memory), final(memory)),
{
    let width = instr.width.unwrap();
    let a = read_operand(&instr.operands[0], width, regs, memory);
    let b = read_operand(&instr.operands[1], width, regs, memory);
    let result = match instr.mnemonic {
        Mnemonic::Or => a | b,
        Mnemonic::Xor => a ^ b,
        _ => a & b,
    };
    set_flags_after_logic(regs, result, width);
    if instr.mnemonic != Mnemonic::Test {
        write_operand(&instr.operands[0], width, result, regs, memory);
    } else {
        proof {
            lemma_undo_preserved_refl(memory);
        }
    }
}


fn shift_rotate_count(instr: &Instruction, regs: &Registers) -> (r: u32)
    ensures
        r == spec_shift_count(*instr, *regs),
        r < 256,
{
    if instr.operands.len() >= 2 {
        match instr.operands[1] {
            Operand::Immediate(n) => (n as u8) as u32,
            Operand::Reg8(Reg8::Cl) => regs.get8(Reg8::Cl) as u32,
            _ => 0,
        }
    } else {
        0
    }
}

fn shift_step_exec(m: Mnemonic, value: u32, carry: bool, width: Width) -> (r: (u32, bool))
    requires
        value < modulus(width),
    ensures
        (r.0 as int, r.1) == shift_step(m, value as int, carry, width),
        r.0 < modulus(width),
{
    let (md, sb): (u32, u32) = match width {
        Width::Byte => (0x100, 0x80),
        Width::Word => (0x10000, 0x8000),
    };
    let top = value >= sb;
    let low = value % 2 == 1;
    let cin: u32 = if carry {
        1
    } else {
        0
    };
    match m {
        Mnemonic::Shl => ((value * 2) % md, top),
        Mnemonic::Shr => (value / 2, low),
        Mnemonic::Sar => (value / 2 + (if top {
            sb
        } else {
            0
        }), low),
        Mnemonic::Rol => ((value * 2) % md + (if top {
            1
        } else {
            0
        }), top),
        Mnemonic::Ror => (value / 2 + (if low {
            sb
        } else {
            0
        }), low),
        Mnemonic::Rcl => ((value * 2) % md + cin, top),
        _ => (value / 2 + cin * sb, low),
    }
}

/// The 8086 does not mask a shift count to the operand width (that is a
/// 286+ behavior): a count of 20 on a byte really shifts 20 times, which
/// a bit-at-a-time loop handles directly.
fn execute_shift_rotate(
    mnemonic: Mnemonic,
    dst: &Operand,
    width: Width,
    count: u32,
    regs: &mut Registers,
    memory: &mut Memory,
)
    requires
        writable(*dst),
        is_shift_rotate(mnemonic),
        count < 256,
    ensures
        (*final(regs), final(memory)@) == spec_shift_rotate(
            mnemonic,
            *dst,
            width,
            count as nat,
            *old(regs),
            old(memory)@,
        ),
        undo_preserved(old(memory), final(memory)),
{
    if count == 0 {
        proof {
            lemma_undo_preserved_refl(memory);
        }
        return ;
    }
    let (md, sb): (u32, u32) = match width {
        Width::Byte => (0x100, 0x80),
        Width::Word => (0x10000, 0x8000),
    };
    let original = read_operand(dst, width, regs, memory) as u32 % md;
    let mut value = original;
    let mut carry = regs.get_flag(Flag::Carry);
    let mut i: u32 = 0;
    while i < count
        invariant
            i <= count,
            md == modulus(width),
            value < md,
            (value as int, carry) == shift_iter(
                mnemonic,
                original as int,
                old(regs).spec_get_flag(Flag::Carry),
                i as nat,
                width,
            ),
        decreases count - i,
    {
        let (v, c) = shift_step_exec(mnemonic, value, carry, width);
        value = v;
        carry = c;
        i = i + 1;
    }
    regs.set_flag(Flag::Carry, carry);
    // OF is only defined for a count of exactly 1; otherwise it keeps
    // whatever it held.
    if count == 1 {
        let overflow = match mnemonic {
            Mnemonic::Shl | Mnemonic::Rol | Mnemonic::Rcl => (value >= sb) != carry,
            Mnemonic::Shr => original >= sb,
            Mnemonic::Sar => false,
            _ => (value >= sb) != ((value / (sb / 2)) % 2 == 1),
        };
        regs.set_flag(Flag::Overflow, overflow);
    }
    // Shifts (not rotates) also set ZF/SF/PF; AF is left alone.
    if mnemonic == Mnemonic::Shl || mnemonic == Mnemonic::Shr || mnemonic == Mnemonic::Sar {
        regs.set_flag(Flag::Zero, value == 0);
        regs.set_flag(Flag::Sign, value >= sb);
        regs.set_flag(Flag::Parity, parity_of((value % 256) as u8));
    }
    write_operand(dst, width, value as u16, regs, memory);
}

fn execute_mul(src: &Operand, width: Width, regs: &mut Registers, memory: &Memory)
    ensures
        *final(regs) == spec_mul(width, spec_read_operand(*src, width, *old(regs), memory@), *old(regs)),
{
    match width {
        Width::Byte => {
            let al = regs.get8(Reg8::Al) as u32;
            let operand = read_operand(src, width, regs, memory) as u32 % 256;
            assert(al * operand < 65536) by (nonlinear_arith)
                requires al < 256, operand < 256;
            let result = al * operand;
            regs.ax = result as u16;
            let overflow = result >= 256;
            regs.set_flag(Flag::Carry, overflow);
            regs.set_flag(Flag::Overflow, overflow);
        },
        Width::Word => {
            let ax = regs.ax as u32;
            let operand = read_operand(src, width, regs, memory) as u32;
            assert(ax * operand <= 0xFFFE_0001) by (nonlinear_arith)
                requires ax < 65536, operand < 65536;
            let result = ax * operand;
            regs.ax = (result % 65536) as u16;
            regs.dx = (result / 65536) as u16;
            let overflow = result >= 65536;
            regs.set_flag(Flag::Carry, overflow);
            regs.set_flag(Flag::Overflow, overflow);
        },
    }
}

fn signed_of(value: u32, width: Width) -> (r: i32)
    requires
        value < modulus(width),
    ensures
        r == signed_value(value as int, width),
{
    match width {
        Width::Byte => if value >= 128 {
            value as i32 - 256
        } else {
            value as i32
        },
        Width::Word => if value >= 32768 {
            value as i32 - 65536
        } else {
            value as i32
        },
    }
}

/// `value mod 2^16` of a value in i64 range (non-negative result).
fn low_word(value: i64) -> (r: u16)
    requires
        -0x1_0000_0000 <= value < 0x1_0000_0000,
    ensures
        r == value % 65536,
{
    let shifted = value + 0x1_0000_0000;
    proof {
        vstd::arithmetic::div_mod::lemma_mod_add_multiples_vanish(value as int, 65536);
        assert(shifted % 65536 == value % 65536) by {
            vstd::arithmetic::div_mod::lemma_mod_multiples_vanish(65536, value as int, 65536);
        }
    }
    (shifted % 65536) as u16
}

fn execute_imul(src: &Operand, width: Width, regs: &mut Registers, memory: &Memory)
    ensures
        *final(regs) == spec_imul(width, spec_read_operand(*src, width, *old(regs), memory@), *old(regs)),
{
    match width {
        Width::Byte => {
            let al = signed_of(regs.get8(Reg8::Al) as u32, Width::Byte);
            let operand = signed_of(read_operand(src, width, regs, memory) as u32 % 256, Width::Byte);
            assert(-16384 <= al * operand <= 16384) by (nonlinear_arith)
                requires -128 <= al < 128, -128 <= operand < 128;
            let result = al * operand;
            regs.ax = low_word(result as i64);
            let overflow = result < -128 || result > 127;
            regs.set_flag(Flag::Carry, overflow);
            regs.set_flag(Flag::Overflow, overflow);
        },
        Width::Word => {
            let ax = signed_of(regs.ax as u32, Width::Word);
            let operand = signed_of(read_operand(src, width, regs, memory) as u32, Width::Word);
            assert(-0x4000_0000 <= ax * operand <= 0x4000_0000) by (nonlinear_arith)
                requires -32768 <= ax < 32768, -32768 <= operand < 32768;
            let result = ax * operand;
            let wide = result as i64;
            regs.ax = low_word(wide);
            let high = (wide + 0x1_0000_0000) / 65536;
            proof {
                assert((wide + 0x1_0000_0000) / 65536 == wide / 65536 + 65536) by {
                    let q = (wide as int) / 65536;
                    let r = (wide as int) % 65536;
                    vstd::arithmetic::div_mod::lemma_fundamental_div_mod(wide as int, 65536);
                    vstd::arithmetic::div_mod::lemma_fundamental_div_mod_converse_div(
                        wide + 0x1_0000_0000,
                        65536,
                        q + 65536,
                        r,
                    );
                }
                assert(((wide / 65536 + 65536) % 65536) == (wide / 65536) % 65536) by {
                    vstd::arithmetic::div_mod::lemma_mod_add_multiples_vanish(wide / 65536, 65536);
                }
            }
            regs.dx = (high % 65536) as u16;
            let overflow = result < -32768 || result > 32767;
            regs.set_flag(Flag::Carry, overflow);
            regs.set_flag(Flag::Overflow, overflow);
        },
    }
}

/// Returns false on a zero divisor or a quotient that does not fit, in
/// which case no register is written (the caller reports interrupt 0).
fn execute_div(src: &Operand, width: Width, regs: &mut Registers, memory: &Memory) -> (ok: bool)
    ensures
        match spec_div(width, spec_read_operand(*src, width, *old(regs), memory@), *old(regs)) {
            Some(r) => ok && *final(regs) == r,
            None => !ok && *final(regs) == *old(regs),
        },
{
    match width {
        Width::Byte => {
            let divisor = read_operand(src, width, regs, memory);
            if divisor == 0 {
                return false;
            }
            let dividend = regs.ax;
            let quotient = dividend / divisor;
            let remainder = dividend % divisor;
            if quotient > 0xFF {
                return false;
            }
            regs.set8(Reg8::Al, quotient as u8);
            regs.set8(Reg8::Ah, remainder as u8);
            true
        },
        Width::Word => {
            let divisor = read_operand(src, width, regs, memory) as u32;
            if divisor == 0 {
                return false;
            }
            let dividend = (regs.dx as u32) * 65536 + (regs.ax as u32);
            let quotient = dividend / divisor;
            let remainder = dividend % divisor;
            if quotient > 0xFFFF {
                return false;
            }
            regs.ax = quotient as u16;
            regs.dx = remainder as u16;
            true
        },
    }
}

/// `(trunc_div(a, b), trunc_rem(a, b))` computed on magnitudes; the
/// remainder is smaller in magnitude than the divisor.
fn div_toward_zero(a: i64, b: i64) -> (r: (i64, i64))
    requires
        b != 0,
        -0x1_0000_0000 <= a <= 0x1_0000_0000,
        -0x1_0000 <= b <= 0x1_0000,
    ensures
        r.0 == trunc_div(a as int, b as int),
        r.1 == trunc_rem(a as int, b as int),
        -(if b >= 0 { b as int } else { -b }) < r.1 < (if b >= 0 { b as int } else { -b }),
{
    let abs_a: i64 = if a >= 0 {
        a
    } else {
        -a
    };
    let abs_b: i64 = if b >= 0 {
        b
    } else {
        -b
    };
    let q0 = abs_a / abs_b;
    let rem = abs_a % abs_b;
    let q = if (a >= 0) == (b >= 0) {
        q0
    } else {
        -q0
    };
    proof {
        vstd::arithmetic::div_mod::lemma_fundamental_div_mod(abs_a as int, abs_b as int);
        vstd::arithmetic::div_mod::lemma_div_is_ordered_by_denominator(abs_a as int, 1, abs_b as int);
        vstd::arithmetic::div_mod::lemma_div_by_multiple(abs_a as int, 1);
        assert(0 <= q0 <= abs_a);
        assert(0 <= rem < abs_b);
        assert(b * q == (if a >= 0 { abs_a - rem } else { -(abs_a - rem) })) by (nonlinear_arith)
            requires
                abs_a == abs_b * q0 + rem,
                abs_b == (if b >= 0 { b as int } else { -b }),
                abs_a == (if a >= 0 { a as int } else { -a }),
                q == (if (a >= 0) == (b >= 0) { q0 as int } else { -q0 }),
        ;
    }
    (q, a - b * q)
}

fn execute_idiv_byte(src: &Operand, regs: &mut Registers, memory: &Memory) -> (ok: bool)
    ensures
        match spec_idiv(Width::Byte, spec_read_operand(*src, Width::Byte, *old(regs), memory@), *old(regs)) {
            Some(r) => ok && *final(regs) == r,
            None => !ok && *final(regs) == *old(regs),
        },
{
    let divisor = signed_of(read_operand(src, Width::Byte, regs, memory) as u32 % 256, Width::Byte);
    if divisor == 0 {
        return false;
    }
    let dividend = signed_of(regs.ax as u32, Width::Word);
    let (quotient, remainder) = div_toward_zero(dividend as i64, divisor as i64);
    if quotient < -128 || quotient > 127 {
        return false;
    }
    regs.set8(Reg8::Al, (low_word(quotient) % 256) as u8);
    regs.set8(Reg8::Ah, (low_word(remainder) % 256) as u8);
    proof {
        assert((quotient as int % 65536) % 256 == quotient as int % 256) by {
            vstd::arithmetic::div_mod::lemma_mod_mod(quotient as int, 256, 256);
        }
        assert((remainder as int % 65536) % 256 == remainder as int % 256) by {
            vstd::arithmetic::div_mod::lemma_mod_mod(remainder as int, 256, 256);
        }
    }
    true
}

fn execute_idiv_word(src: &Operand, regs: &mut Registers, memory: &Memory) -> (ok: bool)
    ensures
        match spec_idiv(Width::Word, spec_read_operand(*src, Width::Word, *old(regs), memory@), *old(regs)) {
            Some(r) => ok && *final(regs) == r,
            None => !ok && *final(regs) == *old(regs),
        },
{
    let divisor = signed_of(read_operand(src, Width::Word, regs, memory) as u32, Width::Word);
    if divisor == 0 {
        return false;
    }
    let raw = (regs.dx as i64) * 65536 + (regs.ax as i64);
    let dividend: i64 = if raw >= 0x8000_0000 {
        raw - 0x1_0000_0000
    } else {
        raw
    };
    let (quotient, remainder) = div_toward_zero(dividend, divisor as i64);
    if quotient < -32768 || quotient > 32767 {
        return false;
    }
    regs.ax = low_word(quotient);
    regs.dx = low_word(remainder);
    true
}

fn execute_idiv(src: &Operand, width: Width, regs: &mut Registers, memory: &Memory) -> (ok: bool)
    ensures
        match spec_idiv(width, spec_read_operand(*src, width, *old(regs), memory@), *old(regs)) {
            Some(r) => ok && *final(regs) == r,
            None => !ok && *final(regs) == *old(regs),
        },
{
    match width {
        Width::Byte => execute_idiv_byte(src, regs, memory),
        Width::Word => execute_idiv_word(src, regs, memory),
    }
}


/// +width, or -width when DF is set (`STD`), as a 16-bit addend.
fn string_step(width: Width, direction_flag: bool) -> (r: u16)
    ensures
        r == spec_string_step(width, direction_flag),
{
    let n: u16 = match width {
        Width::Byte => 1,
        Width::Word => 2,
    };
    if direction_flag {
        65535 - n + 1
    } else {
        n
    }
}

fn add_u16(a: u16, b: u16) -> (r: u16)
    ensures
        r == add16(a, b),
{
    ((a as u32 + b as u32) % 65536) as u16
}

fn string_width_of(m: Mnemonic) -> (w: Width)
    ensures
        w == string_width(m),
{
    match m {
        Mnemonic::Movsb | Mnemonic::Cmpsb | Mnemonic::Stosb | Mnemonic::Lodsb | Mnemonic::Scasb => Width::Byte,
        _ => Width::Word,
    }
}

fn read_sized(memory: &Memory, address: u32, width: Width) -> (v: u16)
    ensures
        v == spec_read_memory(memory@, address, width),
{
    match width {
        Width::Byte => memory.read_u8(address) as u16,
        Width::Word => memory.read_u16(address),
    }
}

fn write_sized(memory: &mut Memory, address: u32, width: Width, value: u16)
    ensures
        final(memory)@ == spec_write_memory(old(memory)@, address, width, value),
        undo_preserved(old(memory), final(memory)),
{
    match width {
        Width::Byte => memory.write_u8(address, (value % 256) as u8),
        Width::Word => memory.write_u16(address, value),
    }
}

/// One iteration of a string instruction. The source is always DS:SI and
/// the destination always ES:DI.
fn execute_string_op(mnemonic: Mnemonic, regs: &mut Registers, memory: &mut Memory)
    requires
        is_string_mnemonic(mnemonic),
    ensures
        (*final(regs), final(memory)@) == spec_string_once(mnemonic, *old(regs), old(memory)@),
        undo_preserved(old(memory), final(memory)),
{
    let df = regs.get_flag(Flag::Direction);
    let width = string_width_of(mnemonic);
    let step = string_step(width, df);
    let src_addr = Memory::resolve(regs.ds, regs.si);
    let dst_addr = Memory::resolve(regs.es, regs.di);
    match mnemonic {
        Mnemonic::Movsb | Mnemonic::Movsw => {
            let value = read_sized(memory, src_addr, width);
            write_sized(memory, dst_addr, width, value);
            regs.si = add_u16(regs.si, step);
            regs.di = add_u16(regs.di, step);
        },
        Mnemonic::Lodsb | Mnemonic::Lodsw => {
            let value = read_sized(memory, src_addr, width);
            match width {
                Width::Byte => regs.set8(Reg8::Al, value as u8),
                Width::Word => regs.ax = value,
            }
            regs.si = add_u16(regs.si, step);
            proof {
                lemma_undo_preserved_refl(memory);
            }
        },
        Mnemonic::Stosb | Mnemonic::Stosw => {
            let value = match width {
                Width::Byte => regs.get8(Reg8::Al) as u16,
                Width::Word => regs.ax,
            };
            write_sized(memory, dst_addr, width, value);
            regs.di = add_u16(regs.di, step);
        },
        Mnemonic::Cmpsb | Mnemonic::Cmpsw => {
            let a = read_sized(memory, src_addr, width);
            let b = read_sized(memory, dst_addr, width);
            sub_with_flags(regs, a, b, false, width);
            regs.si = add_u16(regs.si, step);
            regs.di = add_u16(regs.di, step);
            proof {
                lemma_undo_preserved_refl(memory);
            }
        },
        _ => {
            let acc = match width {
                Width::Byte => regs.get8(Reg8::Al) as u16,
                Width::Word => regs.ax,
            };
            let mem_val = read_sized(memory, dst_addr, width);
            sub_with_flags(regs, acc, mem_val, false, width);
            regs.di = add_u16(regs.di, step);
            proof {
                lemma_undo_preserved_refl(memory);
            }
        },
    }
}

/// A string instruction under a repeat prefix: runs while CX is nonzero,
/// dropping CX after each iteration; REPE stops once ZF is clear and
/// REPNE once it is set.
fn execute_repeated_string(mnemonic: Mnemonic, repeat: Repeat, regs: &mut Registers, memory: &mut Memory)
    requires
        is_string_mnemonic(mnemonic),
    ensures
        (*final(regs), final(memory)@) == spec_string_rep(
            mnemonic,
            repeat,
            *old(regs),
            old(memory)@,
            old(regs).cx as nat,
        ),
        undo_preserved(old(memory), final(memory)),
{
    proof {
        lemma_undo_preserved_refl(memory);
    }
    let ghost start_mem = *memory;
    let ghost target = spec_string_rep(mnemonic, repeat, *regs, memory@, regs.cx as nat);
    while regs.cx != 0
        invariant_except_break
            spec_string_rep(mnemonic, repeat, *regs, memory@, regs.cx as nat) == target,
        invariant
            is_string_mnemonic(mnemonic),
            undo_preserved(&start_mem, memory),
        ensures
            (*regs, memory@) == target,
        decreases regs.cx,
    {
        let ghost before = *memory;
        let ghost n = regs.cx as nat;
        execute_string_op(mnemonic, regs, memory);
        proof {
            lemma_undo_preserved_trans(&start_mem, &before, memory);
        }
        regs.cx = regs.cx - 1;
        let stop = match repeat {
            Repeat::Rep => false,
            Repeat::Repe => !regs.get_flag(Flag::Zero),
            Repeat::Repne => regs.get_flag(Flag::Zero),
        };
        if stop {
            break;
        }
    }
}

fn execute_stack(instr: &Instruction, regs: &mut Registers, memory: &mut Memory)
    requires
        executable(*instr),
        instr.mnemonic is Push || instr.mnemonic is Pop || instr.mnemonic is Pushf
            || instr.mnemonic is Popf || instr.mnemonic is Iret || instr.mnemonic is Call
            || instr.mnemonic is Ret,
    ensures
        (*final(regs), final(memory)@, ExecutionEffect::Continue) == spec_execute(
            *instr,
            *old(regs),
            old(memory)@,
        ),
        undo_preserved(old(memory), final(memory)),
{
    proof {
        lemma_undo_preserved_refl(memory);
    }
    match instr.mnemonic {
        Mnemonic::Push => {
            let value = read_operand(&instr.operands[0], Width::Word, regs, memory);
            push_word(regs, memory, value);
        },
        Mnemonic::Pop => {
            let value = pop_word(regs, memory);
            write_operand(&instr.operands[0], Width::Word, value, regs, memory);
        },
        Mnemonic::Pushf => {
            let flags = regs.flags;
            push_word(regs, memory, flags);
        },
        Mnemonic::Popf => regs.flags = pop_word(regs, memory),
        Mnemonic::Iret => {
            regs.ip = pop_word(regs, memory);
            regs.cs = pop_word(regs, memory);
            regs.flags = pop_word(regs, memory);
        },
        Mnemonic::Call => {
            let return_addr = regs.ip;
            push_word(regs, memory, return_addr);
            jump_relative(instr, regs);
        },
        _ => {
            regs.ip = pop_word(regs, memory);
            if instr.operands.len() >= 1 {
                if let Operand::Immediate(pop_count) = instr.operands[0] {
                    regs.sp = add_u16(regs.sp, pop_count as u16);
                }
            }
        },
    }
}

fn execute_control(instr: &Instruction, regs: &mut Registers)
    requires
        instr.mnemonic is Jmp || instr.mnemonic is Jcc || instr.mnemonic is Loop
            || instr.mnemonic is Loope || instr.mnemonic is Loopne || instr.mnemonic is Jcxz,
    ensures
        forall|mem: Seq<u8>|
            #![trigger spec_execute(*instr, *old(regs), mem)]
            (*final(regs), mem, ExecutionEffect::Continue) == spec_execute(*instr, *old(regs), mem),
{
    match instr.mnemonic {
        Mnemonic::Jmp => jump_relative(instr, regs),
        Mnemonic::Jcc(condition) => {
            if condition_holds(condition, regs) {
                jump_relative(instr, regs);
            }
        },
        Mnemonic::Jcxz => {
            if regs.cx == 0 {
                jump_relative(instr, regs);
            }
        },
        _ => {
            let zero = regs.get_flag(Flag::Zero);
            regs.cx = ((regs.cx as u32 + 65535) % 65536) as u16;
            let taken = match instr.mnemonic {
                Mnemonic::Loope => regs.cx != 0 && zero,
                Mnemonic::Loopne => regs.cx != 0 && !zero,
                _ => regs.cx != 0,
            };
            if taken {
                jump_relative(instr, regs);
            }
        },
    }
}

fn execute_flag_ops(instr: &Instruction, regs: &mut Registers, memory: &Memory)
    requires
        instr.mnemonic is Nop || instr.mnemonic is Clc || instr.mnemonic is Stc
            || instr.mnemonic is Cmc || instr.mnemonic is Cld || instr.mnemonic is Std
            || instr.mnemonic is Cli || instr.mnemonic is Sti || instr.mnemonic is Lahf
            || instr.mnemonic is Sahf || instr.mnemonic is Xlat || instr.mnemonic is Unknown,
    ensures
        (*final(regs), memory@, ExecutionEffect::Continue) == spec_execute(*instr, *old(regs), memory@),
{
    match instr.mnemonic {
        Mnemonic::Clc => regs.set_flag(Flag::Carry, false),
        Mnemonic::Stc => regs.set_flag(Flag::Carry, true),
        Mnemonic::Cmc => {
            let carry = regs.get_flag(Flag::Carry);
            regs.set_flag(Flag::Carry, !carry);
        },
        Mnemonic::Cld => regs.set_flag(Flag::Direction, false),
        Mnemonic::Std => regs.set_flag(Flag::Direction, true),
        Mnemonic::Cli => regs.set_flag(Flag::Interrupt, false),
        Mnemonic::Sti => regs.set_flag(Flag::Interrupt, true),
        // LAHF hands back the low byte of FLAGS as it stands; SAHF moves
        // only SF, ZF, AF, PF and CF back, so a round trip is lossless.
        Mnemonic::Lahf => {
            let low = (regs.flags % 256) as u8;
            regs.set8(Reg8::Ah, low);
        },
        Mnemonic::Sahf => {
            let ah = regs.get8(Reg8::Ah) as u16;
            regs.flags = (regs.flags & !LOW_FLAGS_MASK) | (ah & LOW_FLAGS_MASK);
        },
        // XLAT: AL indexes a byte table based at DS:BX.
        Mnemonic::Xlat => {
            let offset = add_u16(regs.bx, regs.get8(Reg8::Al) as u16);
            let value = memory.read_u8(Memory::resolve(regs.ds, offset));
            regs.set8(Reg8::Al, value);
        },
        _ => {},
    }
}

fn execute_mul_div(instr: &Instruction, regs: &mut Registers, memory: &Memory) -> (effect: ExecutionEffect)
    requires
        executable(*instr),
        instr.mnemonic is Mul || instr.mnemonic is Imul || instr.mnemonic is Div
            || instr.mnemonic is Idiv,
    ensures
        (*final(regs), memory@, effect) == spec_execute(*instr, *old(regs), memory@),
{
    let width = instr.width.unwrap();
    match instr.mnemonic {
        Mnemonic::Mul => execute_mul(&instr.operands[0], width, regs, memory),
        Mnemonic::Imul => execute_imul(&instr.operands[0], width, regs, memory),
        Mnemonic::Div => {
            if !execute_div(&instr.operands[0], width, regs, memory) {
                return ExecutionEffect::Interrupt(0);
            }
        },
        _ => {
            if !execute_idiv(&instr.operands[0], width, regs, memory) {
                return ExecutionEffect::Interrupt(0);
            }
        },
    }
    ExecutionEffect::Continue
}

fn execute_neg_not(instr: &Instruction, regs: &mut Registers, memory: &mut Memory)
    requires
        executable(*instr),
        instr.mnemonic is Neg || instr.mnemonic is Not,
    ensures
        (*final(regs), final(memory)@, ExecutionEffect::Continue) == spec_execute(
            *instr,
            *old(regs),
            old(memory)@,
        ),
        undo_preserved(old(memory), final(memory)),
{
    let width = instr.width.unwrap();
    if instr.mnemonic == Mnemonic::Neg {
        let a = read_operand(&instr.operands[0], width, regs, memory);
        let result = sub_with_flags(regs, 0, a, false, width);
        write_operand(&instr.operands[0], width, result, regs, memory);
    } else {
        let mask: u16 = match width {
            Width::Byte => 0x00FF,
            Width::Word => 0xFFFF,
        };
        let a = read_operand(&instr.operands[0], width, regs, memory);
        write_operand(&instr.operands[0], width, !a & mask, regs, memory);
    }
}

fn execute_shift_group(instr: &Instruction, regs: &mut Registers, memory: &mut Memory)
    requires
        executable(*instr),
        is_shift_rotate(instr.mnemonic),
    ensures
        (*final(regs), final(memory)@, ExecutionEffect::Continue) == spec_execute(
            *instr,
            *old(regs),
            old(memory)@,
        ),
        undo_preserved(old(memory), final(memory)),
{
    let width = instr.width.unwrap();
    let count = shift_rotate_count(instr, regs);
    execute_shift_rotate(instr.mnemonic, &instr.operands[0], width, count, regs, memory);
}

#[verifier::rlimit(50)]
fn execute_string_group(instr: &Instruction, regs: &mut Registers, memory: &mut Memory)
    requires
        is_string_mnemonic(instr.mnemonic),
    ensures
        (*final(regs), final(memory)@, ExecutionEffect::Continue) == spec_execute(
            *instr,
            *old(regs),
            old(memory)@,
        ),
        undo_preserved(old(memory), final(memory)),
{
    match instr.repeat {
        None => execute_string_op(instr.mnemonic, regs, memory),
        Some(repeat) => execute_repeated_string(instr.mnemonic, repeat, regs, memory),
    }
}

/// Executes one already-decoded instruction; `regs.ip` must already point
/// past it.
pub fn execute(instr: &Instruction, regs: &mut Registers, memory: &mut Memory) -> (effect: ExecutionEffect)
    requires
        executable(*instr),
    ensures
        (*final(regs), final(memory)@, effect) == spec_execute(*instr, *old(regs), old(memory)@),
        undo_preserved(old(memory), final(memory)),
{
    proof {
        lemma_undo_preserved_refl(memory);
    }
    match instr.mnemonic {
        Mnemonic::Mov => execute_mov(instr, regs, memory),
        Mnemonic::Xchg => execute_xchg(instr, regs, memory),
        Mnemonic::Lea => execute_lea(instr, regs, memory),
        Mnemonic::Push | Mnemonic::Pop | Mnemonic::Pushf | Mnemonic::Popf | Mnemonic::Iret
        | Mnemonic::Call | Mnemonic::Ret => execute_stack(instr, regs, memory),
        Mnemonic::Add | Mnemonic::Adc | Mnemonic::Sub | Mnemonic::Sbb | Mnemonic::Cmp => {
            execute_arith(instr, regs, memory)
        },
        Mnemonic::Inc | Mnemonic::Dec => execute_inc_dec(instr, regs, memory),
        Mnemonic::And | Mnemonic::Or | Mnemonic::Xor | Mnemonic::Test => {
            execute_logic(instr, regs, memory)
        },
        Mnemonic::Jmp | Mnemonic::Jcc(_) | Mnemonic::Loop | Mnemonic::Loope | Mnemonic::Loopne
        | Mnemonic::Jcxz => {
            execute_control(instr, regs);
            assert(spec_execute(*instr, *old(regs), old(memory)@).1 == old(memory)@);
        },
        Mnemonic::Int => {
            let vector: u8 = if instr.operands.len() >= 1 {
                match instr.operands[0] {
                    Operand::Immediate(n) => n as u8,
                    _ => 0,
                }
            } else {
                0
            };
            return ExecutionEffect::Interrupt(vector);
        },
        Mnemonic::Int3 => return ExecutionEffect::Interrupt(3),
        Mnemonic::Hlt => return ExecutionEffect::Halted,
        Mnemonic::Shl | Mnemonic::Shr | Mnemonic::Sar | Mnemonic::Rol | Mnemonic::Ror
        | Mnemonic::Rcl | Mnemonic::Rcr => execute_shift_group(instr, regs, memory),
        Mnemonic::Mul | Mnemonic::Imul | Mnemonic::Div | Mnemonic::Idiv => {
            return execute_mul_div(instr, regs, memory);
        },
        Mnemonic::Neg | Mnemonic::Not => execute_neg_not(instr, regs, memory),
        Mnemonic::Movsb | Mnemonic::Movsw | Mnemonic::Cmpsb | Mnemonic::Cmpsw | Mnemonic::Stosb
        | Mnemonic::Stosw | Mnemonic::Lodsb | Mnemonic::Lodsw | Mnemonic::Scasb
        | Mnemonic::Scasw => execute_string_group(instr, regs, memory),
        _ => execute_flag_ops(instr, regs, memory),
    }
    ExecutionEffect::Continue
}

} // verus!
