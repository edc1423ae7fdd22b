//! Watch expressions over the fixed vocabulary that needs no symbol
//! table: register and flag names, and sized raw memory addresses
//! (`byte [0x10]`, `WORD[1234h]`). Named variables are resolved by the
//! caller, which holds the symbol table, when this returns `None`.
use crate::assembler::numbers::digit_value;
use crate::cpu::Registers;
use crate::isa::{Flag, Reg16, Reg8};
use crate::memory::{le16, phys, Memory};
use crate::textfmt::push_char;
use crate::words::{chars_of, is_word, upper, upper_char};
use vstd::prelude::*;

verus! {

#[derive(Debug, Clone, Copy, PartialEq, Eq, Structural)]
pub enum WatchSize {
    Byte,
    Word,
}

#[derive(Debug, Clone, Copy, PartialEq, Eq, Structural)]
pub enum WatchTarget {
    Reg16(Reg16),
    Reg8(Reg8),
    /// The whole 16-bit FLAGS register.
    Flags,
    Flag(Flag),
    Memory { address: u32, size: WatchSize },
}

/// `char::is_whitespace`: the Unicode White_Space characters.
pub open spec fn is_white(c: char) -> bool {
    ('\u{9}' <= c && c <= '\u{d}') || c == ' ' || c == '\u{85}' || c == '\u{a0}' || c
        == '\u{1680}' || ('\u{2000}' <= c && c <= '\u{200a}') || c == '\u{2028}' || c == '\u{2029}'
        || c == '\u{202f}' || c == '\u{205f}' || c == '\u{3000}'
}

pub open spec fn trim_start(s: Seq<char>) -> Seq<char>
    decreases s.len(),
{
    if s.len() > 0 && is_white(s[0]) {
        trim_start(s.drop_first())
    } else {
        s
    }
}

pub open spec fn trim_end(s: Seq<char>) -> Seq<char>
    decreases s.len(),
{
    if s.len() > 0 && is_white(s.last()) {
        trim_end(s.drop_last())
    } else {
        s
    }
}

pub open spec fn trim(s: Seq<char>) -> Seq<char> {
    trim_end(trim_start(s))
}

/// The register or flag an upper-cased name denotes.
pub open spec fn register_or_flag(u: Seq<char>) -> Option<WatchTarget> {
    if u == "AX"@ {
        Some(WatchTarget::Reg16(Reg16::Ax))
    } else if u == "BX"@ {
        Some(WatchTarget::Reg16(Reg16::Bx))
    } else if u == "CX"@ {
        Some(WatchTarget::Reg16(Reg16::Cx))
    } else if u == "DX"@ {
        Some(WatchTarget::Reg16(Reg16::Dx))
    } else if u == "SP"@ {
        Some(WatchTarget::Reg16(Reg16::Sp))
    } else if u == "BP"@ {
        Some(WatchTarget::Reg16(Reg16::Bp))
    } else if u == "SI"@ {
        Some(WatchTarget::Reg16(Reg16::Si))
    } else if u == "DI"@ {
        Some(WatchTarget::Reg16(Reg16::Di))
    } else if u == "CS"@ {
        Some(WatchTarget::Reg16(Reg16::Cs))
    } else if u == "DS"@ {
        Some(WatchTarget::Reg16(Reg16::Ds))
    } else if u == "ES"@ {
        Some(WatchTarget::Reg16(Reg16::Es))
    } else if u == "SS"@ {
        Some(WatchTarget::Reg16(Reg16::Ss))
    } else if u == "IP"@ {
        Some(WatchTarget::Reg16(Reg16::Ip))
    } else if u == "AL"@ {
        Some(WatchTarget::Reg8(Reg8::Al))
    } else if u == "AH"@ {
        Some(WatchTarget::Reg8(Reg8::Ah))
    } else if u == "BL"@ {
        Some(WatchTarget::Reg8(Reg8::Bl))
    } else if u == "BH"@ {
        Some(WatchTarget::Reg8(Reg8::Bh))
    } else if u == "CL"@ {
        Some(WatchTarget::Reg8(Reg8::Cl))
    } else if u == "CH"@ {
        Some(WatchTarget::Reg8(Reg8::Ch))
    } else if u == "DL"@ {
        Some(WatchTarget::Reg8(Reg8::Dl))
    } else if u == "DH"@ {
        Some(WatchTarget::Reg8(Reg8::Dh))
    } else if u == "FLAGS"@ {
        Some(WatchTarget::Flags)
    } else if u == "CF"@ {
        Some(WatchTarget::Flag(Flag::Carry))
    } else if u == "PF"@ {
        Some(WatchTarget::Flag(Flag::Parity))
    } else if u == "AF"@ {
        Some(WatchTarget::Flag(Flag::AuxCarry))
    } else if u == "ZF"@ {
        Some(WatchTarget::Flag(Flag::Zero))
    } else if u == "SF"@ {
        Some(WatchTarget::Flag(Flag::Sign))
    } else if u == "TF"@ {
        Some(WatchTarget::Flag(Flag::Trap))
    } else if u == "IF"@ {
        Some(WatchTarget::Flag(Flag::Interrupt))
    } else if u == "DF"@ {
        Some(WatchTarget::Flag(Flag::Direction))
    } else if u == "OF"@ {
        Some(WatchTarget::Flag(Flag::Overflow))
    } else {
        None
    }
}

/// What a register or flag name watches, read from `regs` and `mem`.
pub open spec fn named_value(u: Seq<char>, regs: Registers, mem: Seq<u8>) -> u16 {
    watch_value(register_or_flag(u)->Some_0, regs, mem)
}

/// Each register and flag name watches what it names: a 16-bit register
/// name that register; an 8-bit name the low (xL) or high (xH) byte of
/// its pair; FLAGS the flags word; and each flag name its bit of FLAGS as
/// 0 or 1 (CF bit 0, PF 2, AF 4, ZF 6, SF 7, TF 8, IF 9, DF 10, OF 11).
#[verifier::rlimit(100)]
#[verifier::spinoff_prover]
pub proof fn lemma_watch_names(regs: Registers, mem: Seq<u8>)
    ensures
        register_or_flag("AX"@) is Some && named_value("AX"@, regs, mem) == regs.ax,
        register_or_flag("BX"@) is Some && named_value("BX"@, regs, mem) == regs.bx,
        register_or_flag("CX"@) is Some && named_value("CX"@, regs, mem) == regs.cx,
        register_or_flag("DX"@) is Some && named_value("DX"@, regs, mem) == regs.dx,
        register_or_flag("SP"@) is Some && named_value("SP"@, regs, mem) == regs.sp,
        register_or_flag("BP"@) is Some && named_value("BP"@, regs, mem) == regs.bp,
        register_or_flag("SI"@) is Some && named_value("SI"@, regs, mem) == regs.si,
        register_or_flag("DI"@) is Some && named_value("DI"@, regs, mem) == regs.di,
        register_or_flag("CS"@) is Some && named_value("CS"@, regs, mem) == regs.cs,
        register_or_flag("DS"@) is Some && named_value("DS"@, regs, mem) == regs.ds,
        register_or_flag("ES"@) is Some && named_value("ES"@, regs, mem) == regs.es,
        register_or_flag("SS"@) is Some && named_value("SS"@, regs, mem) == regs.ss,
        register_or_flag("IP"@) is Some && named_value("IP"@, regs, mem) == regs.ip,
        register_or_flag("AL"@) is Some && named_value("AL"@, regs, mem) == regs.ax % 256,
        register_or_flag("AH"@) is Some && named_value("AH"@, regs, mem) == regs.ax / 256,
        register_or_flag("BL"@) is Some && named_value("BL"@, regs, mem) == regs.bx % 256,
        register_or_flag("BH"@) is Some && named_value("BH"@, regs, mem) == regs.bx / 256,
        register_or_flag("CL"@) is Some && named_value("CL"@, regs, mem) == regs.cx % 256,
        register_or_flag("CH"@) is Some && named_value("CH"@, regs, mem) == regs.cx / 256,
        register_or_flag("DL"@) is Some && named_value("DL"@, regs, mem) == regs.dx % 256,
        register_or_flag("DH"@) is Some && named_value("DH"@, regs, mem) == regs.dx / 256,
        register_or_flag("FLAGS"@) is Some && named_value("FLAGS"@, regs, mem) == regs.flags,
        register_or_flag("CF"@) is Some && named_value("CF"@, regs, mem) == (regs.flags >> 0u16) & 1u16,
        register_or_flag("PF"@) is Some && named_value("PF"@, regs, mem) == (regs.flags >> 2u16) & 1u16,
        register_or_flag("AF"@) is Some && named_value("AF"@, regs, mem) == (regs.flags >> 4u16) & 1u16,
        register_or_flag("ZF"@) is Some && named_value("ZF"@, regs, mem) == (regs.flags >> 6u16) & 1u16,
        register_or_flag("SF"@) is Some && named_value("SF"@, regs, mem) == (regs.flags >> 7u16) & 1u16,
        register_or_flag("TF"@) is Some && named_value("TF"@, regs, mem) == (regs.flags >> 8u16) & 1u16,
        register_or_flag("IF"@) is Some && named_value("IF"@, regs, mem) == (regs.flags >> 9u16) & 1u16,
        register_or_flag("DF"@) is Some && named_value("DF"@, regs, mem) == (regs.flags >> 10u16) & 1u16,
        register_or_flag("OF"@) is Some && named_value("OF"@, regs, mem) == (regs.flags >> 11u16) & 1u16,
{
    reveal_strlit("AX");
    assert("AX"@.len() == 2);
    assert("AX"@[0] == 'A');
    assert("AX"@[1] == 'X');
    reveal_strlit("BX");
    assert("BX"@.len() == 2);
    assert("BX"@[0] == 'B');
    assert("BX"@[1] == 'X');
    reveal_strlit("CX");
    assert("CX"@.len() == 2);
    assert("CX"@[0] == 'C');
    assert("CX"@[1] == 'X');
    reveal_strlit("DX");
    assert("DX"@.len() == 2);
    assert("DX"@[0] == 'D');
    assert("DX"@[1] == 'X');
    reveal_strlit("SP");
    assert("SP"@.len() == 2);
    assert("SP"@[0] == 'S');
    assert("SP"@[1] == 'P');
    reveal_strlit("BP");
    assert("BP"@.len() == 2);
    assert("BP"@[0] == 'B');
    assert("BP"@[1] == 'P');
    reveal_strlit("SI");
    assert("SI"@.len() == 2);
    assert("SI"@[0] == 'S');
    assert("SI"@[1] == 'I');
    reveal_strlit("DI");
    assert("DI"@.len() == 2);
    assert("DI"@[0] == 'D');
    assert("DI"@[1] == 'I');
    reveal_strlit("CS");
    assert("CS"@.len() == 2);
    assert("CS"@[0] == 'C');
    assert("CS"@[1] == 'S');
    reveal_strlit("DS");
    assert("DS"@.len() == 2);
    assert("DS"@[0] == 'D');
    assert("DS"@[1] == 'S');
    reveal_strlit("ES");
    assert("ES"@.len() == 2);
    assert("ES"@[0] == 'E');
    assert("ES"@[1] == 'S');
    reveal_strlit("SS");
    assert("SS"@.len() == 2);
    assert("SS"@[0] == 'S');
    assert("SS"@[1] == 'S');
    reveal_strlit("IP");
    assert("IP"@.len() == 2);
    assert("IP"@[0] == 'I');
    assert("IP"@[1] == 'P');
    reveal_strlit("AL");
    assert("AL"@.len() == 2);
    assert("AL"@[0] == 'A');
    assert("AL"@[1] == 'L');
    reveal_strlit("AH");
    assert("AH"@.len() == 2);
    assert("AH"@[0] == 'A');
    assert("AH"@[1] == 'H');
    reveal_strlit("BL");
    assert("BL"@.len() == 2);
    assert("BL"@[0] == 'B');
    assert("BL"@[1] == 'L');
    reveal_strlit("BH");
    assert("BH"@.len() == 2);
    assert("BH"@[0] == 'B');
    assert("BH"@[1] == 'H');
    reveal_strlit("CL");
    assert("CL"@.len() == 2);
    assert("CL"@[0] == 'C');
    assert("CL"@[1] == 'L');
    reveal_strlit("CH");
    assert("CH"@.len() == 2);
    assert("CH"@[0] == 'C');
    assert("CH"@[1] == 'H');
    reveal_strlit("DL");
    assert("DL"@.len() == 2);
    assert("DL"@[0] == 'D');
    assert("DL"@[1] == 'L');
    reveal_strlit("DH");
    assert("DH"@.len() == 2);
    assert("DH"@[0] == 'D');
    assert("DH"@[1] == 'H');
    reveal_strlit("FLAGS");
    assert("FLAGS"@.len() == 5);
    assert("FLAGS"@[0] == 'F');
    assert("FLAGS"@[1] == 'L');
    assert("FLAGS"@[2] == 'A');
    assert("FLAGS"@[3] == 'G');
    assert("FLAGS"@[4] == 'S');
    reveal_strlit("CF");
    assert("CF"@.len() == 2);
    assert("CF"@[0] == 'C');
    assert("CF"@[1] == 'F');
    reveal_strlit("PF");
    assert("PF"@.len() == 2);
    assert("PF"@[0] == 'P');
    assert("PF"@[1] == 'F');
    reveal_strlit("AF");
    assert("AF"@.len() == 2);
    assert("AF"@[0] == 'A');
    assert("AF"@[1] == 'F');
    reveal_strlit("ZF");
    assert("ZF"@.len() == 2);
    assert("ZF"@[0] == 'Z');
    assert("ZF"@[1] == 'F');
    reveal_strlit("SF");
    assert("SF"@.len() == 2);
    assert("SF"@[0] == 'S');
    assert("SF"@[1] == 'F');
    reveal_strlit("TF");
    assert("TF"@.len() == 2);
    assert("TF"@[0] == 'T');
    assert("TF"@[1] == 'F');
    reveal_strlit("IF");
    assert("IF"@.len() == 2);
    assert("IF"@[0] == 'I');
    assert("IF"@[1] == 'F');
    reveal_strlit("DF");
    assert("DF"@.len() == 2);
    assert("DF"@[0] == 'D');
    assert("DF"@[1] == 'F');
    reveal_strlit("OF");
    assert("OF"@.len() == 2);
    assert("OF"@[0] == 'O');
    assert("OF"@[1] == 'F');
    assert forall|x: u16| #![trigger x & 1u16] (x & 1u16) == 0u16 || (x & 1u16) == 1u16 by {
        assert((x & 1u16) == 0u16 || (x & 1u16) == 1u16) by (bit_vector);
    }
    assert(((regs.flags >> 0u16) & 1u16) == 0u16 || ((regs.flags >> 0u16) & 1u16) == 1u16);
    assert(((regs.flags >> 2u16) & 1u16) == 0u16 || ((regs.flags >> 2u16) & 1u16) == 1u16);
    assert(((regs.flags >> 4u16) & 1u16) == 0u16 || ((regs.flags >> 4u16) & 1u16) == 1u16);
    assert(((regs.flags >> 6u16) & 1u16) == 0u16 || ((regs.flags >> 6u16) & 1u16) == 1u16);
    assert(((regs.flags >> 7u16) & 1u16) == 0u16 || ((regs.flags >> 7u16) & 1u16) == 1u16);
    assert(((regs.flags >> 8u16) & 1u16) == 0u16 || ((regs.flags >> 8u16) & 1u16) == 1u16);
    assert(((regs.flags >> 9u16) & 1u16) == 0u16 || ((regs.flags >> 9u16) & 1u16) == 1u16);
    assert(((regs.flags >> 10u16) & 1u16) == 0u16 || ((regs.flags >> 10u16) & 1u16) == 1u16);
    assert(((regs.flags >> 11u16) & 1u16) == 0u16 || ((regs.flags >> 11u16) & 1u16) == 1u16);
}

/// `u32::from_str_radix`: an optional `+`, then one or more digits of
/// the radix, the value fitting in a `u32`.
pub open spec fn u32_from_radix(s: Seq<char>, radix: nat) -> Option<u32> {
    let digits = if s.len() > 0 && s[0] == '+' {
        s.drop_first()
    } else {
        s
    };
    if digits.len() == 0 || !crate::assembler::numbers::all_digits(digits, radix) {
        None
    } else {
        let v = crate::assembler::numbers::digits_value(digits, radix);
        if v <= u32::MAX {
            Some(v as u32)
        } else {
            None
        }
    }
}

/// `0X` hex, `H`-suffixed hex, or decimal (the text is upper case).
pub open spec fn numeric_literal(t: Seq<char>) -> Option<u32> {
    if t.len() >= 2 && t[0] == '0' && t[1] == 'X' {
        u32_from_radix(t.skip(2), 16)
    } else if t.len() > 0 && t.last() == 'H' {
        u32_from_radix(t.drop_last(), 16)
    } else {
        u32_from_radix(t, 10)
    }
}

/// `BYTE [addr]` / `WORD[addr]` on upper-cased text.
pub open spec fn memory_target(u: Seq<char>) -> Option<WatchTarget> {
    let sized = u.len() >= 4 && (u.take(4) == "BYTE"@ || u.take(4) == "WORD"@);
    if !sized {
        None
    } else {
        let size = if u.take(4) == "BYTE"@ {
            WatchSize::Byte
        } else {
            WatchSize::Word
        };
        let rest = trim_start(u.skip(4));
        if rest.len() >= 2 && rest[0] == '[' && rest.last() == ']' {
            match numeric_literal(trim(rest.subrange(1, rest.len() - 1))) {
                Some(address) => Some(WatchTarget::Memory { address, size }),
                None => None,
            }
        } else {
            None
        }
    }
}

/// What a watch text names: a register or flag, else a sized address.
pub open spec fn watch_target(text: Seq<char>) -> Option<WatchTarget> {
    let u = upper(trim(text));
    match register_or_flag(u) {
        Some(t) => Some(t),
        None => memory_target(u),
    }
}

fn white(c: char) -> (r: bool)
    ensures
        r == is_white(c),
{
    ('\u{9}' <= c && c <= '\u{d}') || c == ' ' || c == '\u{85}' || c == '\u{a0}' || c
        == '\u{1680}' || ('\u{2000}' <= c && c <= '\u{200a}') || c == '\u{2028}' || c == '\u{2029}'
        || c == '\u{202f}' || c == '\u{205f}' || c == '\u{3000}'
}

proof fn lemma_trim_start_skip(s: Seq<char>, i: int)
    requires
        0 <= i <= s.len(),
        forall|k: int| 0 <= k < i ==> is_white(s[k]),
    ensures
        trim_start(s) == trim_start(s.skip(i)),
    decreases i,
{
    if i > 0 {
        assert(s.skip(1) =~= s.drop_first());
        lemma_trim_start_skip(s.drop_first(), i - 1);
        assert(s.drop_first().skip(i - 1) =~= s.skip(i));
    } else {
        assert(s.skip(0) =~= s);
    }
}

proof fn lemma_trim_end_take(s: Seq<char>, j: int)
    requires
        0 <= j <= s.len(),
        forall|k: int| j <= k < s.len() ==> is_white(s[k]),
    ensures
        trim_end(s) == trim_end(s.take(j)),
    decreases s.len() - j,
{
    if j < s.len() {
        assert(s.drop_last().take(j) =~= s.take(j));
        lemma_trim_end_take(s.drop_last(), j);
    } else {
        assert(s.take(j) =~= s);
    }
}

/// The characters of `v` from `from` to `to` without leading and trailing
/// whitespace.
fn trimmed(v: &Vec<char>, from: usize, to: usize, start_only: bool) -> (r: Vec<char>)
    requires
        from <= to <= v.len(),
    ensures
        start_only ==> r@ == trim_start(v@.subrange(from as int, to as int)),
        !start_only ==> r@ == trim(v@.subrange(from as int, to as int)),
{
    let ghost s = v@.subrange(from as int, to as int);
    let mut a = from;
    while a < to && white(v[a])
        invariant
            from <= a <= to <= v.len(),
            s == v@.subrange(from as int, to as int),
            forall|k: int| 0 <= k < a - from ==> is_white(s[k]),
        decreases to - a,
    {
        a = a + 1;
    }
    proof {
        lemma_trim_start_skip(s, a - from);
        assert(s.skip(a - from) =~= v@.subrange(a as int, to as int));
        if a < to {
            assert(!is_white(v@.subrange(a as int, to as int)[0]));
        }
    }
    let mut b = to;
    if !start_only {
        while b > a && white(v[b - 1])
            invariant
                from <= a <= b <= to <= v.len(),
                forall|k: int| b <= k < to ==> is_white(v@[k]),
            decreases b - a,
        {
            b = b - 1;
        }
        proof {
            let t = v@.subrange(a as int, to as int);
            lemma_trim_end_take(t, b - a);
            assert(t.take(b - a) =~= v@.subrange(a as int, b as int));
            if b > a {
                assert(!is_white(v@.subrange(a as int, b as int).last()));
            }
        }
    }
    let mut r: Vec<char> = Vec::new();
    let mut k = a;
    while k < b
        invariant
            a <= k <= b <= v.len(),
            r@ == v@.subrange(a as int, k as int),
        decreases b - k,
    {
        r.push(v[k]);
        k = k + 1;
        assert(r@ =~= v@.subrange(a as int, k as int));
    }
    r
}

/// `str::trim`: the text without leading and trailing whitespace.
pub fn trim_str(text: &str) -> (r: String)
    ensures
        r@ == trim(text@),
{
    let raw = chars_of(text);
    assert(raw@.subrange(0, raw@.len() as int) =~= raw@);
    let t = trimmed(&raw, 0, raw.len(), false);
    let mut r = String::new();
    let mut k: usize = 0;
    while k < t.len()
        invariant
            k <= t.len(),
            r@ == t@.take(k as int),
        decreases t.len() - k,
    {
        push_char(&mut r, t[k]);
        k = k + 1;
        assert(r@ =~= t@.take(k as int));
    }
    assert(t@.take(k as int) =~= t@);
    r
}

fn word_at_start(u: &Vec<char>, word: &str) -> (r: bool)
    ensures
        r == (u@.len() >= word@.len() && u@.take(word@.len() as int) == word@),
{
    let w = chars_of(word);
    if u.len() < w.len() {
        return false;
    }
    let mut i: usize = 0;
    while i < w.len()
        invariant
            i <= w.len() <= u.len(),
            w@ == word@,
            forall|k: int| 0 <= k < i ==> u@[k] == w@[k],
        decreases w.len() - i,
    {
        if u[i] != w[i] {
            assert(u@.take(w@.len() as int)[i as int] != w@[i as int]);
            return false;
        }
        i = i + 1;
    }
    assert(u@.take(w@.len() as int) =~= w@);
    true
}

fn u32_radix(s: &Vec<char>, from: usize, to: usize, radix: u32) -> (r: Option<u32>)
    requires
        from <= to <= s.len(),
        radix == 10 || radix == 16,
    ensures
        r == u32_from_radix(s@.subrange(from as int, to as int), radix as nat),
{
    let ghost t = s@.subrange(from as int, to as int);
    let mut i = from;
    if i < to && s[i] == '+' {
        i = i + 1;
    }
    let ghost digits = s@.subrange(i as int, to as int);
    assert(digits =~= if t.len() > 0 && t[0] == '+' {
        t.drop_first()
    } else {
        t
    });
    if i >= to {
        return None;
    }
    let start = i;
    let mut acc: u64 = 0;
    while i < to
        invariant
            start <= i <= to <= s.len(),
            radix == 10 || radix == 16,
            t == s@.subrange(from as int, to as int),
            digits == s@.subrange(start as int, to as int),
            digits == (if t.len() > 0 && t[0] == '+' {
                t.drop_first()
            } else {
                t
            }),
            digits.len() > 0,
            acc == crate::assembler::numbers::digits_value(digits.take(i - start), radix as nat),
            acc <= u32::MAX,
            crate::assembler::numbers::all_digits(digits.take(i - start), radix as nat),
        decreases to - i,
    {
        let ghost k = i - start;
        assert(digits.take(k + 1).drop_last() =~= digits.take(k));
        assert(digits.take(k + 1).last() == s@[i as int]);
        let c = s[i];
        let d: u32 = if '0' <= c && c <= '9' {
            c as u32 - 48
        } else if 'a' <= c && c <= 'z' {
            c as u32 - 87
        } else if 'A' <= c && c <= 'Z' {
            c as u32 - 55
        } else {
            99
        };
        if d >= radix {
            assert(digits[k] == s@[i as int]);
            assert(!crate::assembler::numbers::all_digits(digits, radix as nat));
            return None;
        }
        assert(acc * radix <= 0xFFFF_FFFFu64 * 16) by (nonlinear_arith)
            requires
                acc <= 0xFFFF_FFFFu64,
                radix <= 16,
        ;
        let next: u64 = acc * radix as u64 + d as u64;
        assert(digit_value(c, radix as nat) == Some(d as nat));
        assert(crate::assembler::numbers::all_digits(digits.take(k + 1), radix as nat)) by {
            assert forall|j: int| 0 <= j < k + 1 implies digit_value(
                #[trigger] digits.take(k + 1)[j],
                radix as nat,
            ) is Some by {
                if j < k {
                    assert(digits.take(k + 1)[j] == digits.take(k)[j]);
                }
            }
        }
        if next > u32::MAX as u64 {
            proof {
                crate::assembler::numbers::lemma_digits_value_monotone(digits, radix as nat, k + 1);
            }
            return None;
        }
        acc = next;
        i = i + 1;
    }
    assert(digits.take(i - start) =~= digits);
    Some(acc as u32)
}

fn numeric(t: &Vec<char>) -> (r: Option<u32>)
    ensures
        r == numeric_literal(t@),
{
    let n = t.len();
    assert(t@.subrange(0, n as int) =~= t@);
    if n >= 2 && t[0] == '0' && t[1] == 'X' {
        assert(t@.subrange(2, n as int) =~= t@.skip(2));
        u32_radix(t, 2, n, 16)
    } else if n > 0 && t[n - 1] == 'H' {
        assert(t@.subrange(0, n - 1) =~= t@.drop_last());
        u32_radix(t, 0, n - 1, 16)
    } else {
        u32_radix(t, 0, n, 10)
    }
}

fn register_or_flag_target(u: &Vec<char>) -> (r: Option<WatchTarget>)
    ensures
        r == register_or_flag(u@),
{
    if is_word(u, "AX") {
        Some(WatchTarget::Reg16(Reg16::Ax))
    } else if is_word(u, "BX") {
        Some(WatchTarget::Reg16(Reg16::Bx))
    } else if is_word(u, "CX") {
        Some(WatchTarget::Reg16(Reg16::Cx))
    } else if is_word(u, "DX") {
        Some(WatchTarget::Reg16(Reg16::Dx))
    } else if is_word(u, "SP") {
        Some(WatchTarget::Reg16(Reg16::Sp))
    } else if is_word(u, "BP") {
        Some(WatchTarget::Reg16(Reg16::Bp))
    } else if is_word(u, "SI") {
        Some(WatchTarget::Reg16(Reg16::Si))
    } else if is_word(u, "DI") {
        Some(WatchTarget::Reg16(Reg16::Di))
    } else if is_word(u, "CS") {
        Some(WatchTarget::Reg16(Reg16::Cs))
    } else if is_word(u, "DS") {
        Some(WatchTarget::Reg16(Reg16::Ds))
    } else if is_word(u, "ES") {
        Some(WatchTarget::Reg16(Reg16::Es))
    } else if is_word(u, "SS") {
        Some(WatchTarget::Reg16(Reg16::Ss))
    } else if is_word(u, "IP") {
        Some(WatchTarget::Reg16(Reg16::Ip))
    } else if is_word(u, "AL") {
        Some(WatchTarget::Reg8(Reg8::Al))
    } else if is_word(u, "AH") {
        Some(WatchTarget::Reg8(Reg8::Ah))
    } else if is_word(u, "BL") {
        Some(WatchTarget::Reg8(Reg8::Bl))
    } else if is_word(u, "BH") {
        Some(WatchTarget::Reg8(Reg8::Bh))
    } else if is_word(u, "CL") {
        Some(WatchTarget::Reg8(Reg8::Cl))
    } else if is_word(u, "CH") {
        Some(WatchTarget::Reg8(Reg8::Ch))
    } else if is_word(u, "DL") {
        Some(WatchTarget::Reg8(Reg8::Dl))
    } else if is_word(u, "DH") {
        Some(WatchTarget::Reg8(Reg8::Dh))
    } else if is_word(u, "FLAGS") {
        Some(WatchTarget::Flags)
    } else if is_word(u, "CF") {
        Some(WatchTarget::Flag(Flag::Carry))
    } else if is_word(u, "PF") {
        Some(WatchTarget::Flag(Flag::Parity))
    } else if is_word(u, "AF") {
        Some(WatchTarget::Flag(Flag::AuxCarry))
    } else if is_word(u, "ZF") {
        Some(WatchTarget::Flag(Flag::Zero))
    } else if is_word(u, "SF") {
        Some(WatchTarget::Flag(Flag::Sign))
    } else if is_word(u, "TF") {
        Some(WatchTarget::Flag(Flag::Trap))
    } else if is_word(u, "IF") {
        Some(WatchTarget::Flag(Flag::Interrupt))
    } else if is_word(u, "DF") {
        Some(WatchTarget::Flag(Flag::Direction))
    } else if is_word(u, "OF") {
        Some(WatchTarget::Flag(Flag::Overflow))
    } else {
        None
    }
}

fn parse_memory_target(u: &Vec<char>) -> (r: Option<WatchTarget>)
    ensures
        r == memory_target(u@),
{
    proof {
        reveal_strlit("BYTE");
        reveal_strlit("WORD");
    }
    let is_byte = word_at_start(u, "BYTE");
    let is_word_size = word_at_start(u, "WORD");
    if !is_byte && !is_word_size {
        return None;
    }
    let size = if is_byte {
        WatchSize::Byte
    } else {
        WatchSize::Word
    };
    assert(u@.subrange(4, u@.len() as int) =~= u@.skip(4));
    let rest = trimmed(u, 4, u.len(), true);
    let n = rest.len();
    if n >= 2 && rest[0] == '[' && rest[n - 1] == ']' {
        let inner = trimmed(&rest, 1, n - 1, false);
        match numeric(&inner) {
            Some(address) => Some(WatchTarget::Memory { address, size }),
            None => None,
        }
    } else {
        None
    }
}

fn upper_vec(v: &Vec<char>) -> (r: Vec<char>)
    ensures
        r@ == upper(v@),
{
    let mut r: Vec<char> = Vec::new();
    let mut i: usize = 0;
    while i < v.len()
        invariant
            i <= v.len(),
            r@ == upper(v@.take(i as int)),
        decreases v.len() - i,
    {
        r.push(crate::words::to_upper_char(v[i]));
        i = i + 1;
        assert(r@ =~= upper(v@.take(i as int)));
    }
    assert(v@.take(i as int) =~= v@);
    r
}

/// Parses the fixed register/flag/sized-address vocabulary; `None` for
/// anything else (a variable name is for the caller to look up).
pub fn parse_register_or_raw_address(text: &str) -> (r: Option<WatchTarget>)
    ensures
        r == watch_target(text@),
{
    let raw = chars_of(text);
    assert(raw@.subrange(0, raw@.len() as int) =~= raw@);
    let t = trimmed(&raw, 0, raw.len(), false);
    let u = upper_vec(&t);
    match register_or_flag_target(&u) {
        Some(target) => Some(target),
        None => parse_memory_target(&u),
    }
}

/// The value of a watch target now: registers and flags as they are,
/// memory read little-endian; byte values zero-extended.
pub open spec fn watch_value(target: WatchTarget, registers: Registers, memory: Seq<u8>) -> u16 {
    match target {
        WatchTarget::Reg16(r) => registers.spec_get16(r),
        WatchTarget::Reg8(r) => registers.spec_get8(r) as u16,
        WatchTarget::Flags => registers.flags,
        WatchTarget::Flag(f) => if registers.spec_get_flag(f) {
            1
        } else {
            0
        },
        WatchTarget::Memory { address, size: WatchSize::Byte } => memory[phys(address as int)] as u16,
        WatchTarget::Memory { address, size: WatchSize::Word } => le16(
            memory[phys(address as int)],
            memory[phys(address as int + 1)],
        ),
    }
}

/// Reads a watch target's current value.
pub fn evaluate(target: WatchTarget, registers: &Registers, memory: &Memory) -> (v: u16)
    ensures
        v == watch_value(target, *registers, memory@),
{
    match target {
        WatchTarget::Reg16(reg) => registers.get16(reg),
        WatchTarget::Reg8(reg) => registers.get8(reg) as u16,
        WatchTarget::Flags => registers.flags,
        WatchTarget::Flag(flag) => if registers.get_flag(flag) {
            1
        } else {
            0
        },
        WatchTarget::Memory { address, size: WatchSize::Byte } => memory.read_u8(address) as u16,
        WatchTarget::Memory { address, size: WatchSize::Word } => memory.read_u16(address),
    }
}

} // verus!
