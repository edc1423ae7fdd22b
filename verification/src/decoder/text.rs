//! Renders a decoded instruction as assembly text, for a disassembly view.
//!
//! Relative branches show their absolute target; small immediates print in
//! decimal and larger ones in hex; a memory operand gets a `BYTE PTR` /
//! `WORD PTR` prefix only when no register operand fixes its size.
use super::is_branch;
use crate::isa::{Condition, Instruction, Mnemonic, Operand, Reg16, Reg8, Width};
use crate::textfmt::{
    decimal_text, digit_char, hex4_text, hex_text, push_char, push_decimal, push_hex, push_hex4,
    push_signed_decimal, push_str, signed_decimal_text,
};
use crate::assembler::numbers::{all_digits, digit_value, digits_value, from_str_radix};
use vstd::prelude::*;

verus! {

pub open spec fn reg16_chars(reg: Reg16) -> Seq<char> {
    match reg {
        Reg16::Ax => "AX"@,
        Reg16::Bx => "BX"@,
        Reg16::Cx => "CX"@,
        Reg16::Dx => "DX"@,
        Reg16::Sp => "SP"@,
        Reg16::Bp => "BP"@,
        Reg16::Si => "SI"@,
        Reg16::Di => "DI"@,
        Reg16::Cs => "CS"@,
        Reg16::Ds => "DS"@,
        Reg16::Es => "ES"@,
        Reg16::Ss => "SS"@,
        Reg16::Ip => "IP"@,
    }
}

pub open spec fn reg8_chars(reg: Reg8) -> Seq<char> {
    match reg {
        Reg8::Al => "AL"@,
        Reg8::Ah => "AH"@,
        Reg8::Bl => "BL"@,
        Reg8::Bh => "BH"@,
        Reg8::Cl => "CL"@,
        Reg8::Ch => "CH"@,
        Reg8::Dl => "DL"@,
        Reg8::Dh => "DH"@,
    }
}

pub open spec fn condition_chars(condition: Condition) -> Seq<char> {
    match condition {
        Condition::Overflow => "JO"@,
        Condition::NotOverflow => "JNO"@,
        Condition::Below => "JB"@,
        Condition::AboveOrEqual => "JAE"@,
        Condition::Equal => "JE"@,
        Condition::NotEqual => "JNE"@,
        Condition::BelowOrEqual => "JBE"@,
        Condition::Above => "JA"@,
        Condition::Sign => "JS"@,
        Condition::NotSign => "JNS"@,
        Condition::Parity => "JP"@,
        Condition::NotParity => "JNP"@,
        Condition::Less => "JL"@,
        Condition::GreaterOrEqual => "JGE"@,
        Condition::LessOrEqual => "JLE"@,
        Condition::Greater => "JG"@,
    }
}

pub open spec fn mnemonic_chars(mnemonic: Mnemonic) -> Seq<char> {
    match mnemonic {
        Mnemonic::Mov => "MOV"@,
        Mnemonic::Push => "PUSH"@,
        Mnemonic::Pop => "POP"@,
        Mnemonic::Xchg => "XCHG"@,
        Mnemonic::Lea => "LEA"@,
        Mnemonic::Add => "ADD"@,
        Mnemonic::Adc => "ADC"@,
        Mnemonic::Sub => "SUB"@,
        Mnemonic::Sbb => "SBB"@,
        Mnemonic::Cmp => "CMP"@,
        Mnemonic::Inc => "INC"@,
        Mnemonic::Dec => "DEC"@,
        Mnemonic::And => "AND"@,
        Mnemonic::Or => "OR"@,
        Mnemonic::Xor => "XOR"@,
        Mnemonic::Test => "TEST"@,
        Mnemonic::Jmp => "JMP"@,
        Mnemonic::Jcc(condition) => condition_chars(condition),
        Mnemonic::Loop => "LOOP"@,
        Mnemonic::Loope => "LOOPE"@,
        Mnemonic::Loopne => "LOOPNE"@,
        Mnemonic::Jcxz => "JCXZ"@,
        Mnemonic::Call => "CALL"@,
        Mnemonic::Ret => "RET"@,
        Mnemonic::Int => "INT"@,
        Mnemonic::Int3 => "INT3"@,
        Mnemonic::Iret => "IRET"@,
        Mnemonic::Hlt => "HLT"@,
        Mnemonic::Nop => "NOP"@,
        Mnemonic::Clc => "CLC"@,
        Mnemonic::Stc => "STC"@,
        Mnemonic::Cmc => "CMC"@,
        Mnemonic::Cld => "CLD"@,
        Mnemonic::Std => "STD"@,
        Mnemonic::Cli => "CLI"@,
        Mnemonic::Sti => "STI"@,
        Mnemonic::Pushf => "PUSHF"@,
        Mnemonic::Popf => "POPF"@,
        Mnemonic::Sahf => "SAHF"@,
        Mnemonic::Lahf => "LAHF"@,
        Mnemonic::Xlat => "XLAT"@,
        Mnemonic::Shl => "SHL"@,
        Mnemonic::Shr => "SHR"@,
        Mnemonic::Sar => "SAR"@,
        Mnemonic::Rol => "ROL"@,
        Mnemonic::Ror => "ROR"@,
        Mnemonic::Rcl => "RCL"@,
        Mnemonic::Rcr => "RCR"@,
        Mnemonic::Mul => "MUL"@,
        Mnemonic::Imul => "IMUL"@,
        Mnemonic::Div => "DIV"@,
        Mnemonic::Idiv => "IDIV"@,
        Mnemonic::Neg => "NEG"@,
        Mnemonic::Not => "NOT"@,
        Mnemonic::Movsb => "MOVSB"@,
        Mnemonic::Movsw => "MOVSW"@,
        Mnemonic::Cmpsb => "CMPSB"@,
        Mnemonic::Cmpsw => "CMPSW"@,
        Mnemonic::Stosb => "STOSB"@,
        Mnemonic::Stosw => "STOSW"@,
        Mnemonic::Lodsb => "LODSB"@,
        Mnemonic::Lodsw => "LODSW"@,
        Mnemonic::Scasb => "SCASB"@,
        Mnemonic::Scasw => "SCASW"@,
        Mnemonic::Unknown => "???"@,
    }
}

/// Immediates in 0..16 print in decimal, all others as the hex digits of
/// their 32-bit two's-complement pattern followed by `h`.
pub open spec fn immediate_chars(value: i32) -> Seq<char> {
    if 0 <= value < 16 {
        decimal_text(value as nat)
    } else {
        hex_text((value as u32) as nat) + "h"@
    }
}

/// The `BYTE PTR ` / `WORD PTR ` prefix: present when the instruction has
/// a width, a memory operand, and no register operand.
pub open spec fn size_prefix_chars(ops: Seq<Operand>, width: Option<Width>) -> Seq<char> {
    let has_memory = exists|i: int| 0 <= i < ops.len() && ops[i] is Memory;
    let has_register = exists|i: int| 0 <= i < ops.len() && (ops[i] is Reg8 || ops[i] is Reg16);
    match width {
        Some(w) => if has_memory && !has_register {
            match w {
                Width::Byte => "BYTE PTR "@,
                Width::Word => "WORD PTR "@,
            }
        } else {
            Seq::empty()
        },
        None => Seq::empty(),
    }
}

/// `base`, `+index` (the `+` only after a base), then a nonzero
/// displacement with its sign.
pub open spec fn address_chars(base: Option<Reg16>, index: Option<Reg16>, displacement: i32) -> Seq<
    char,
> {
    let b = match base {
        Some(r) => reg16_chars(r),
        None => Seq::empty(),
    };
    let i = match index {
        Some(r) => if base is Some {
            seq!['+'] + reg16_chars(r)
        } else {
            reg16_chars(r)
        },
        None => Seq::empty(),
    };
    let d = if displacement == 0 {
        Seq::empty()
    } else if displacement > 0 {
        seq!['+'] + decimal_text(displacement as nat)
    } else {
        signed_decimal_text(displacement as int)
    };
    b + i + d
}

/// `n` written in decimal reads back as `n`: every character is a decimal
/// digit and their value is `n`.
pub proof fn lemma_decimal_reads_back(n: nat)
    ensures
        decimal_text(n).len() >= 1,
        all_digits(decimal_text(n), 10),
        digits_value(decimal_text(n), 10) == n,
    decreases n,
{
    if n < 10 {
        let c = digit_char(n);
        assert(c as int == 48 + n);
        assert(digit_value(c, 10) == Some(n));
        assert(decimal_text(n).drop_last() =~= Seq::<char>::empty());
        assert(decimal_text(n).last() == c);
        assert(digits_value(Seq::<char>::empty(), 10) == 0);
        assert(digits_value(decimal_text(n), 10) == 0 * 10 + n);
    } else {
        lemma_decimal_reads_back(n / 10);
        let p = decimal_text(n / 10);
        let c = digit_char(n % 10);
        assert(c as int == 48 + n % 10);
        assert(digit_value(c, 10) == Some((n % 10) as nat));
        let t = decimal_text(n);
        assert(t == p.push(c));
        assert(t.drop_last() =~= p);
        assert forall|i: int| 0 <= i < t.len() implies digit_value(#[trigger] t[i], 10) is Some by {
            if i < p.len() {
                assert(t[i] == p[i]);
            }
        }
        assert(t.last() == c);
        assert(digits_value(t, 10) == digits_value(p, 10) * 10 + (n % 10));
        assert((n / 10) * 10 + n % 10 == n);
    }
}

/// The displacement of a memory operand is written after its registers
/// as a signed decimal term: reading that suffix back as a number gives
/// the displacement itself (a zero displacement adds nothing).
pub proof fn lemma_displacement_reads_back(base: Option<Reg16>, index: Option<Reg16>, d: i32)
    ensures
        ({
            let regs_part = address_chars(base, index, 0);
            let whole = address_chars(base, index, d);
            let suffix = whole.skip(regs_part.len() as int);
            &&& regs_part.len() <= whole.len()
            &&& whole.take(regs_part.len() as int) == regs_part
            &&& d == 0 ==> whole == regs_part
            &&& d != 0 ==> suffix.len() > 0 && (suffix[0] == '+' || suffix[0] == '-') && from_str_radix(
                suffix,
                10,
            ) == Some(d as i64)
        }),
{
    let regs_part = address_chars(base, index, 0);
    let whole = address_chars(base, index, d);
    if d != 0 {
        let m: nat = if d > 0 { d as nat } else { (-d) as nat };
        lemma_decimal_reads_back(m);
        let sign = if d > 0 { '+' } else { '-' };
        let t = seq![sign] + decimal_text(m);
        assert(regs_part + t == whole);
        assert(whole.take(regs_part.len() as int) =~= regs_part);
        assert(whole.skip(regs_part.len() as int) =~= t);
        assert(t.drop_first() =~= decimal_text(m));
    } else {
        assert(regs_part + Seq::<char>::empty() =~= regs_part);
        assert(whole.take(regs_part.len() as int) =~= regs_part);
    }
}

pub open spec fn operand_chars(operand: Operand, prefix: Seq<char>) -> Seq<char> {
    match operand {
        Operand::Reg16(r) => reg16_chars(r),
        Operand::Reg8(r) => reg8_chars(r),
        Operand::Immediate(v) => immediate_chars(v),
        Operand::Memory { segment_override, base, index, displacement } => {
            let segment = match segment_override {
                Some(s) => reg16_chars(s).push(':'),
                None => Seq::empty(),
            };
            if base is None && index is None {
                prefix + segment + seq!['['] + hex4_text((displacement as u16) as nat) + "h]"@
            } else {
                prefix + segment + seq!['['] + address_chars(base, index, displacement) + seq![']']
            }
        },
    }
}

/// The operands, each rendered with `prefix`, separated by ", ".
pub open spec fn operand_list_chars(ops: Seq<Operand>, prefix: Seq<char>) -> Seq<char>
    decreases ops.len(),
{
    if ops.len() == 0 {
        Seq::empty()
    } else if ops.len() == 1 {
        operand_chars(ops[0], prefix)
    } else {
        operand_list_chars(ops.drop_last(), prefix) + ", "@ + operand_chars(ops.last(), prefix)
    }
}

/// Where a relative branch of `byte_len` bytes at `address` lands.
pub open spec fn branch_target(address: u32, byte_len: u8, displacement: i32) -> nat {
    ((address as int + byte_len as int + displacement as int) % 65536) as nat
}

/// The text of `instr` placed at `address`.
pub open spec fn instruction_text(instr: Instruction, address: u32) -> Seq<char> {
    let ops = instr.operands@;
    let m = mnemonic_chars(instr.mnemonic);
    if is_branch(instr.mnemonic) && ops.len() == 1 && ops[0] is Immediate {
        m + seq![' '] + hex4_text(branch_target(address, instr.byte_len, ops[0]->Immediate_0))
            + "h"@
    } else if ops.len() == 0 {
        m
    } else {
        m + seq![' '] + operand_list_chars(ops, size_prefix_chars(ops, instr.width))
    }
}

pub fn reg16_text(reg: Reg16) -> (r: &'static str)
    ensures
        r@ == reg16_chars(reg),
{
    match reg {
        Reg16::Ax => "AX",
        Reg16::Bx => "BX",
        Reg16::Cx => "CX",
        Reg16::Dx => "DX",
        Reg16::Sp => "SP",
        Reg16::Bp => "BP",
        Reg16::Si => "SI",
        Reg16::Di => "DI",
        Reg16::Cs => "CS",
        Reg16::Ds => "DS",
        Reg16::Es => "ES",
        Reg16::Ss => "SS",
        Reg16::Ip => "IP",
    }
}

pub fn reg8_text(reg: Reg8) -> (r: &'static str)
    ensures
        r@ == reg8_chars(reg),
{
    match reg {
        Reg8::Al => "AL",
        Reg8::Ah => "AH",
        Reg8::Bl => "BL",
        Reg8::Bh => "BH",
        Reg8::Cl => "CL",
        Reg8::Ch => "CH",
        Reg8::Dl => "DL",
        Reg8::Dh => "DH",
    }
}

pub fn condition_text(condition: Condition) -> (r: &'static str)
    ensures
        r@ == condition_chars(condition),
{
    match condition {
        Condition::Overflow => "JO",
        Condition::NotOverflow => "JNO",
        Condition::Below => "JB",
        Condition::AboveOrEqual => "JAE",
        Condition::Equal => "JE",
        Condition::NotEqual => "JNE",
        Condition::BelowOrEqual => "JBE",
        Condition::Above => "JA",
        Condition::Sign => "JS",
        Condition::NotSign => "JNS",
        Condition::Parity => "JP",
        Condition::NotParity => "JNP",
        Condition::Less => "JL",
        Condition::GreaterOrEqual => "JGE",
        Condition::LessOrEqual => "JLE",
        Condition::Greater => "JG",
    }
}

pub fn mnemonic_text(mnemonic: Mnemonic) -> (r: &'static str)
    ensures
        r@ == mnemonic_chars(mnemonic),
{
    match mnemonic {
        Mnemonic::Mov => "MOV",
        Mnemonic::Push => "PUSH",
        Mnemonic::Pop => "POP",
        Mnemonic::Xchg => "XCHG",
        Mnemonic::Lea => "LEA",
        Mnemonic::Add => "ADD",
        Mnemonic::Adc => "ADC",
        Mnemonic::Sub => "SUB",
        Mnemonic::Sbb => "SBB",
        Mnemonic::Cmp => "CMP",
        Mnemonic::Inc => "INC",
        Mnemonic::Dec => "DEC",
        Mnemonic::And => "AND",
        Mnemonic::Or => "OR",
        Mnemonic::Xor => "XOR",
        Mnemonic::Test => "TEST",
        Mnemonic::Jmp => "JMP",
        Mnemonic::Jcc(condition) => condition_text(condition),
        Mnemonic::Loop => "LOOP",
        Mnemonic::Loope => "LOOPE",
        Mnemonic::Loopne => "LOOPNE",
        Mnemonic::Jcxz => "JCXZ",
        Mnemonic::Call => "CALL",
        Mnemonic::Ret => "RET",
        Mnemonic::Int => "INT",
        Mnemonic::Int3 => "INT3",
        Mnemonic::Iret => "IRET",
        Mnemonic::Hlt => "HLT",
        Mnemonic::Nop => "NOP",
        Mnemonic::Clc => "CLC",
        Mnemonic::Stc => "STC",
        Mnemonic::Cmc => "CMC",
        Mnemonic::Cld => "CLD",
        Mnemonic::Std => "STD",
        Mnemonic::Cli => "CLI",
        Mnemonic::Sti => "STI",
        Mnemonic::Pushf => "PUSHF",
        Mnemonic::Popf => "POPF",
        Mnemonic::Sahf => "SAHF",
        Mnemonic::Lahf => "LAHF",
        Mnemonic::Xlat => "XLAT",
        Mnemonic::Shl => "SHL",
        Mnemonic::Shr => "SHR",
        Mnemonic::Sar => "SAR",
        Mnemonic::Rol => "ROL",
        Mnemonic::Ror => "ROR",
        Mnemonic::Rcl => "RCL",
        Mnemonic::Rcr => "RCR",
        Mnemonic::Mul => "MUL",
        Mnemonic::Imul => "IMUL",
        Mnemonic::Div => "DIV",
        Mnemonic::Idiv => "IDIV",
        Mnemonic::Neg => "NEG",
        Mnemonic::Not => "NOT",
        Mnemonic::Movsb => "MOVSB",
        Mnemonic::Movsw => "MOVSW",
        Mnemonic::Cmpsb => "CMPSB",
        Mnemonic::Cmpsw => "CMPSW",
        Mnemonic::Stosb => "STOSB",
        Mnemonic::Stosw => "STOSW",
        Mnemonic::Lodsb => "LODSB",
        Mnemonic::Lodsw => "LODSW",
        Mnemonic::Scasb => "SCASB",
        Mnemonic::Scasw => "SCASW",
        Mnemonic::Unknown => "???",
    }
}

pub fn is_relative_branch(mnemonic: Mnemonic) -> (r: bool)
    ensures
        r == is_branch(mnemonic),
{
    match mnemonic {
        Mnemonic::Jmp | Mnemonic::Jcc(_) | Mnemonic::Loop | Mnemonic::Loope | Mnemonic::Loopne
        | Mnemonic::Jcxz | Mnemonic::Call => true,
        _ => false,
    }
}

/// The size prefix that a lone memory operand needs (empty otherwise).
pub fn size_prefix_if_needed(instr: &Instruction) -> (r: &'static str)
    ensures
        r@ == size_prefix_chars(instr.operands@, instr.width),
{
    let ops = &instr.operands;
    let mut has_memory = false;
    let mut has_register = false;
    let mut i: usize = 0;
    while i < ops.len()
        invariant
            i <= ops.len(),
            has_memory <==> exists|j: int| 0 <= j < i && ops@[j] is Memory,
            has_register <==> exists|j: int|
                0 <= j < i && (ops@[j] is Reg8 || ops@[j] is Reg16),
        decreases ops.len() - i,
    {
        match ops[i] {
            Operand::Memory { .. } => {
                has_memory = true;
            },
            Operand::Reg8(_) | Operand::Reg16(_) => {
                has_register = true;
            },
            Operand::Immediate(_) => {},
        }
        i = i + 1;
    }
    proof {
        reveal_strlit("");
    }
    match instr.width {
        Some(w) => if has_memory && !has_register {
            match w {
                Width::Byte => "BYTE PTR ",
                Width::Word => "WORD PTR ",
            }
        } else {
            ""
        },
        None => "",
    }
}

pub fn push_immediate(s: &mut String, value: i32)
    ensures
        final(s)@ == old(s)@ + immediate_chars(value),
{
    if 0 <= value && value < 16 {
        push_decimal(s, value as u32);
    } else {
        let ghost start = s@;
        push_hex(s, value as u32);
        push_str(s, "h");
        assert(s@ =~= start + immediate_chars(value));
    }
}

/// The text of an immediate operand.
pub fn format_immediate(value: i32) -> (r: String)
    ensures
        r@ == immediate_chars(value),
{
    let mut s = String::new();
    push_immediate(&mut s, value);
    assert(s@ =~= immediate_chars(value));
    s
}

fn push_address(s: &mut String, base: Option<Reg16>, index: Option<Reg16>, displacement: i32)
    ensures
        final(s)@ == old(s)@ + address_chars(base, index, displacement),
{
    let ghost start = s@;
    if let Some(b) = base {
        push_str(s, reg16_text(b));
    }
    let ghost after_base = s@;
    if let Some(i) = index {
        if base.is_some() {
            push_char(s, '+');
        }
        push_str(s, reg16_text(i));
    }
    let ghost after_index = s@;
    if displacement > 0 {
        push_char(s, '+');
        push_decimal(s, displacement as u32);
    } else if displacement < 0 {
        push_signed_decimal(s, displacement);
    }
    let ghost b = match base {
        Some(r) => reg16_chars(r),
        None => Seq::empty(),
    };
    assert(after_base =~= start + b);
    assert(s@ =~= start + address_chars(base, index, displacement));
}

fn push_operand(s: &mut String, operand: Operand, prefix: &str)
    ensures
        final(s)@ == old(s)@ + operand_chars(operand, prefix@),
{
    let ghost start = s@;
    match operand {
        Operand::Reg16(r) => push_str(s, reg16_text(r)),
        Operand::Reg8(r) => push_str(s, reg8_text(r)),
        Operand::Immediate(v) => push_immediate(s, v),
        Operand::Memory { segment_override, base, index, displacement } => {
            push_str(s, prefix);
            if let Some(seg) = segment_override {
                push_str(s, reg16_text(seg));
                push_char(s, ':');
            }
            push_char(s, '[');
            if base.is_none() && index.is_none() {
                push_hex4(s, (displacement as u16) as u32);
                push_str(s, "h]");
            } else {
                push_address(s, base, index, displacement);
                push_char(s, ']');
            }
            assert(s@ =~= start + operand_chars(operand, prefix@));
        },
    }
}

/// The text of one operand, with the given size prefix on a memory operand.
pub fn format_operand(operand: &Operand, size_prefix: &str) -> (r: String)
    ensures
        r@ == operand_chars(*operand, size_prefix@),
{
    let mut s = String::new();
    push_operand(&mut s, *operand, size_prefix);
    assert(s@ =~= operand_chars(*operand, size_prefix@));
    s
}

/// Formats `instr` as assembly text; `address` is where the instruction
/// itself sits, which a relative branch needs to show its target.
pub fn format_instruction(instr: &Instruction, address: u32) -> (r: String)
    ensures
        r@ == instruction_text(*instr, address),
{
    let mut s = String::new();
    push_str(&mut s, mnemonic_text(instr.mnemonic));
    let ghost m = s@;
    assert(m =~= mnemonic_chars(instr.mnemonic));
    let n = instr.operands.len();
    if is_relative_branch(instr.mnemonic) && n == 1 {
        if let Operand::Immediate(displacement) = instr.operands[0] {
            let sum: i64 = address as i64 + instr.byte_len as i64 + displacement as i64;
            let shifted: u64 = (sum + 0x1_0000_0000i64) as u64;
            let target: u32 = (shifted % 65536) as u32;
            proof {
                vstd::arithmetic::div_mod::lemma_mod_add_multiples_vanish(sum as int, 65536);
                assert((sum + 0x1_0000_0000i64) % 65536 == sum % 65536) by {
                    vstd::arithmetic::div_mod::lemma_mod_multiples_vanish(65536, sum as int, 65536);
                }
            }
            push_char(&mut s, ' ');
            push_hex4(&mut s, target);
            push_str(&mut s, "h");
            proof {
                assert(target as nat == branch_target(address, instr.byte_len, displacement));
                assert(hex4_text(target as nat) == hex4_text(
                    branch_target(address, instr.byte_len, displacement),
                ));
            }
            assert(s@ =~= instruction_text(*instr, address));
            return s;
        }
    }
    if n == 0 {
        return s;
    }
    let prefix = size_prefix_if_needed(instr);
    push_char(&mut s, ' ');
    let ghost head = s@;
    let ghost ops = instr.operands@;
    let mut i: usize = 0;
    while i < n
        invariant
            n == instr.operands.len(),
            ops == instr.operands@,
            i <= n,
            s@ == head + operand_list_chars(ops.take(i as int), prefix@),
        decreases n - i,
    {
        let ghost before = s@;
        if i > 0 {
            push_str(&mut s, ", ");
        }
        push_operand(&mut s, instr.operands[i], prefix);
        proof {
            let t = ops.take(i + 1);
            assert(t.drop_last() =~= ops.take(i as int));
            assert(t.last() == ops[i as int]);
            if i == 0 {
                assert(ops.take(0) =~= Seq::<Operand>::empty());
            }
        }
        assert(s@ =~= head + operand_list_chars(ops.take(i + 1), prefix@));
        i = i + 1;
    }
    assert(ops.take(n as int) =~= ops);
    assert(s@ =~= instruction_text(*instr, address));
    s
}

} // verus!
