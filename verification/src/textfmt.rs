//! Building text: decimal and hexadecimal numerals and the character
//! pushes they are made of.
use vstd::prelude::*;

verus! {

/// The decimal digit or upper-case hex digit for `d` (below 16).
pub open spec fn digit_char(d: nat) -> char {
    if d < 10 {
        ((48 + d) as u8) as char
    } else {
        ((55 + d) as u8) as char
    }
}

/// `n` in decimal, without leading zeros ("0" for zero).
pub open spec fn decimal_text(n: nat) -> Seq<char>
    decreases n,
{
    if n < 10 {
        seq![digit_char(n)]
    } else {
        decimal_text(n / 10).push(digit_char(n % 10))
    }
}

/// `n` in upper-case hexadecimal, without leading zeros ("0" for zero).
pub open spec fn hex_text(n: nat) -> Seq<char>
    decreases n,
{
    if n < 16 {
        seq![digit_char(n)]
    } else {
        hex_text(n / 16).push(digit_char(n % 16))
    }
}

/// The low 16 bits of `n` as exactly four upper-case hex digits.
pub open spec fn hex4_text(n: nat) -> Seq<char> {
    seq![
        digit_char((n / 4096) % 16),
        digit_char((n / 256) % 16),
        digit_char((n / 16) % 16),
        digit_char(n % 16),
    ]
}

/// A signed value in decimal, with a leading '-' when negative.
pub open spec fn signed_decimal_text(v: int) -> Seq<char> {
    if v < 0 {
        seq!['-'] + decimal_text((-v) as nat)
    } else {
        decimal_text(v as nat)
    }
}

/// Appends one character, through std's `String::push`. Trusted: its
/// contract, that the string's characters become the old ones followed
/// by `c`, is what `String::push` documents and is not proved here.
#[verifier::external_body]
pub(crate) fn push_char(s: &mut String, c: char)
    ensures
        final(s)@ == old(s)@.push(c),
{
    s.push(c);
}

/// Appends a string slice.
pub fn push_str(s: &mut String, t: &str)
    ensures
        final(s)@ == old(s)@ + t@,
{
    s.append(t);
}

pub fn digit(d: u32) -> (c: char)
    requires
        d < 16,
    ensures
        c == digit_char(d as nat),
{
    if d < 10 {
        ((48 + d) as u8) as char
    } else {
        ((55 + d) as u8) as char
    }
}

/// Appends `n` in decimal.
pub fn push_decimal(s: &mut String, n: u32)
    ensures
        final(s)@ == old(s)@ + decimal_text(n as nat),
    decreases n,
{
    if n >= 10 {
        push_decimal(s, n / 10);
    }
    push_char(s, digit(n % 10));
    proof {
        if n >= 10 {
            assert(decimal_text(n as nat) == decimal_text((n / 10) as nat).push(digit_char((n % 10) as nat)));
        }
    }
}

/// Appends `n` in upper-case hexadecimal, without leading zeros.
pub fn push_hex(s: &mut String, n: u32)
    ensures
        final(s)@ == old(s)@ + hex_text(n as nat),
    decreases n,
{
    if n >= 16 {
        push_hex(s, n / 16);
    }
    push_char(s, digit(n % 16));
    proof {
        if n >= 16 {
            assert(hex_text(n as nat) == hex_text((n / 16) as nat).push(digit_char((n % 16) as nat)));
        }
    }
}

/// Appends the low 16 bits of `n` as four hex digits.
pub fn push_hex4(s: &mut String, n: u32)
    ensures
        final(s)@ == old(s)@ + hex4_text(n as nat),
{
    let ghost start = s@;
    push_char(s, digit((n / 4096) % 16));
    push_char(s, digit((n / 256) % 16));
    push_char(s, digit((n / 16) % 16));
    push_char(s, digit(n % 16));
    assert(s@ =~= start + hex4_text(n as nat));
}

/// Appends `n` in decimal.
pub fn push_decimal_u64(s: &mut String, n: u64)
    ensures
        final(s)@ == old(s)@ + decimal_text(n as nat),
    decreases n,
{
    if n >= 10 {
        push_decimal_u64(s, n / 10);
    }
    push_char(s, digit((n % 10) as u32));
    proof {
        if n >= 10 {
            assert(decimal_text(n as nat) == decimal_text((n / 10) as nat).push(digit_char((n % 10) as nat)));
        }
    }
}

/// Appends a signed 64-bit value in decimal.
pub fn push_signed_decimal_i64(s: &mut String, v: i64)
    ensures
        final(s)@ == old(s)@ + signed_decimal_text(v as int),
{
    let ghost start = s@;
    if v < 0 {
        push_char(s, '-');
        let magnitude: u64 = (0i128 - v as i128) as u64;
        push_decimal_u64(s, magnitude);
        assert(s@ =~= start + signed_decimal_text(v as int));
    } else {
        push_decimal_u64(s, v as u64);
    }
}

/// Appends a signed value in decimal.
pub fn push_signed_decimal(s: &mut String, v: i32)
    ensures
        final(s)@ == old(s)@ + signed_decimal_text(v as int),
{
    let ghost start = s@;
    if v < 0 {
        push_char(s, '-');
        let magnitude: u32 = (0i64 - v as i64) as u32;
        push_decimal(s, magnitude);
        assert(s@ =~= start + signed_decimal_text(v as int));
    } else {
        push_decimal(s, v as u32);
    }
}

} // verus!
