//! FLAGS computation for arithmetic and logic operations.
//!
//! Byte- and word-width operations share one implementation: the width
//! only selects the modulus and the sign bit.
use super::registers::Registers;
use crate::isa::{Flag, Width};
use vstd::prelude::*;

verus! {

/// 2^8 or 2^16.
pub open spec fn modulus(width: Width) -> int {
    match width {
        Width::Byte => 256,
        Width::Word => 65536,
    }
}

/// The value of the sign bit: 2^7 or 2^15.
pub open spec fn sign_bit(width: Width) -> int {
    match width {
        Width::Byte => 128,
        Width::Word => 32768,
    }
}

/// Whether a width-sized value has its sign bit set.
pub open spec fn negative(value: int, width: Width) -> bool {
    value >= sign_bit(width)
}

/// A width-sized value read as two's complement.
pub open spec fn signed_value(value: int, width: Width) -> int {
    if negative(value, width) {
        value - modulus(width)
    } else {
        value
    }
}

/// Number of set bits among the low `bits` bits of `x`.
pub open spec fn bit_count(x: nat, bits: nat) -> nat
    decreases bits,
{
    if bits == 0 {
        0
    } else {
        x % 2 + bit_count(x / 2, (bits - 1) as nat)
    }
}

/// PF: an even number of set bits in the low byte.
pub open spec fn parity_even(byte: u8) -> bool {
    bit_count(byte as nat, 8) % 2 == 0
}

/// ZF, SF and PF, set from a width-sized result.
pub open spec fn with_result_flags(regs: Registers, result: int, width: Width) -> Registers {
    regs.spec_with_flag(Flag::Zero, result == 0).spec_with_flag(
        Flag::Sign,
        negative(result, width),
    ).spec_with_flag(Flag::Parity, parity_even((result % 256) as u8))
}

/// `dst + src + carry_in`, truncated to the width.
pub open spec fn add_result(dst: u16, src: u16, carry_in: bool, width: Width) -> int {
    let m = modulus(width);
    ((dst as int) % m + (src as int) % m + (if carry_in { 1int } else { 0int })) % m
}

/// `dst - src - borrow_in`, truncated to the width.
pub open spec fn sub_result(dst: u16, src: u16, borrow_in: bool, width: Width) -> int {
    let m = modulus(width);
    ((dst as int) % m - (src as int) % m - (if borrow_in { 1int } else { 0int })) % m
}

/// Registers after an ADD/ADC: CF is the unsigned carry out, AF the carry
/// out of the low nibble, OF a same-sign pair giving the other sign.
pub open spec fn spec_add_flags(regs: Registers, dst: u16, src: u16, carry_in: bool, width: Width) -> Registers {
    let m = modulus(width);
    let a = (dst as int) % m;
    let b = (src as int) % m;
    let c = if carry_in { 1int } else { 0int };
    let result = add_result(dst, src, carry_in, width);
    let carry = a + b + c >= m;
    let aux = a % 16 + b % 16 + c > 15;
    let overflow = negative(a, width) == negative(b, width) && negative(result, width) != negative(a, width);
    with_result_flags(
        regs.spec_with_flag(Flag::Carry, carry).spec_with_flag(Flag::AuxCarry, aux).spec_with_flag(
            Flag::Overflow,
            overflow,
        ),
        result,
        width,
    )
}

/// Registers after a SUB/SBB/CMP: CF is the unsigned borrow, AF the
/// borrow into the low nibble, OF an opposite-sign pair whose result's
/// sign differs from the minuend's.
pub open spec fn spec_sub_flags(regs: Registers, dst: u16, src: u16, borrow_in: bool, width: Width) -> Registers {
    let m = modulus(width);
    let a = (dst as int) % m;
    let b = (src as int) % m;
    let c = if borrow_in { 1int } else { 0int };
    let result = sub_result(dst, src, borrow_in, width);
    let borrow = b + c > a;
    let aux = b % 16 + c > a % 16;
    let overflow = negative(a, width) != negative(b, width) && negative(result, width) != negative(a, width);
    with_result_flags(
        regs.spec_with_flag(Flag::Carry, borrow).spec_with_flag(Flag::AuxCarry, aux).spec_with_flag(
            Flag::Overflow,
            overflow,
        ),
        result,
        width,
    )
}

/// Registers after AND/OR/XOR/TEST: CF, OF and AF cleared; ZF/SF/PF from
/// the width-truncated result.
pub open spec fn spec_logic_flags(regs: Registers, result: u16, width: Width) -> Registers {
    with_result_flags(
        regs.spec_with_flag(Flag::Carry, false).spec_with_flag(Flag::Overflow, false).spec_with_flag(
            Flag::AuxCarry,
            false,
        ),
        (result as int) % modulus(width),
        width,
    )
}

fn mask_and_sign_bit(width: Width) -> (r: (u32, u32))
    ensures
        r.0 == modulus(width),
        r.1 == sign_bit(width),
{
    match width {
        Width::Byte => (0x100, 0x80),
        Width::Word => (0x10000, 0x8000),
    }
}

/// Whether the low byte has an even number of set bits.
pub fn parity_of(byte: u8) -> (r: bool)
    ensures
        r == parity_even(byte),
{
    let mut count: u8 = 0;
    let mut rest: u8 = byte;
    let mut i: u8 = 0;
    while i < 8
        invariant
            i <= 8,
            count <= i,
            count + bit_count(rest as nat, (8 - i) as nat) == bit_count(byte as nat, 8),
        decreases 8 - i,
    {
        count = count + rest % 2;
        rest = rest / 2;
        i = i + 1;
    }
    count % 2 == 0
}

fn set_common_result_flags(regs: &mut Registers, result: u32, sign: u32)
    requires
        result < 0x10000,
    ensures
        *final(regs) == old(regs).spec_with_flag(Flag::Zero, result == 0).spec_with_flag(
            Flag::Sign,
            result >= sign,
        ).spec_with_flag(Flag::Parity, parity_even((result % 256) as u8)),
{
    regs.set_flag(Flag::Zero, result == 0);
    regs.set_flag(Flag::Sign, result >= sign);
    regs.set_flag(Flag::Parity, parity_of((result % 256) as u8));
}

/// `dst + src + carry_in` with CF/AF/OF/ZF/SF/PF set per 8086 ADD/ADC.
/// Returns the width-truncated result.
pub fn add_with_flags(regs: &mut Registers, dst: u16, src: u16, carry_in: bool, width: Width) -> (r:
    u16)
    ensures
        r == add_result(dst, src, carry_in, width),
        *final(regs) == spec_add_flags(*old(regs), dst, src, carry_in, width),
{
    let (m, sign) = mask_and_sign_bit(width);
    let a = dst as u32 % m;
    let b = src as u32 % m;
    let c: u32 = if carry_in {
        1
    } else {
        0
    };
    let full = a + b + c;
    let result = full % m;
    let carry_out = full >= m;
    let aux_carry = a % 16 + b % 16 + c > 15;
    let a_sign = a >= sign;
    let b_sign = b >= sign;
    let overflow = a_sign == b_sign && (result >= sign) != a_sign;
    regs.set_flag(Flag::Carry, carry_out);
    regs.set_flag(Flag::AuxCarry, aux_carry);
    regs.set_flag(Flag::Overflow, overflow);
    set_common_result_flags(regs, result, sign);
    result as u16
}

/// `dst - src - borrow_in` with CF/AF/OF/ZF/SF/PF set per 8086
/// SUB/SBB/CMP. Returns the width-truncated result.
pub fn sub_with_flags(regs: &mut Registers, dst: u16, src: u16, borrow_in: bool, width: Width) -> (r:
    u16)
    ensures
        r == sub_result(dst, src, borrow_in, width),
        *final(regs) == spec_sub_flags(*old(regs), dst, src, borrow_in, width),
{
    let (m, sign) = mask_and_sign_bit(width);
    let a = dst as u32 % m;
    let b = src as u32 % m;
    let c: u32 = if borrow_in {
        1
    } else {
        0
    };
    let subtrahend = b + c;
    let result = (a + m - subtrahend) % m;
    proof {
        let ai = a as int;
        let si = subtrahend as int;
        let mi = m as int;
        assert((ai + mi - si) % mi == (ai - si) % mi) by {
            vstd::arithmetic::div_mod::lemma_mod_add_multiples_vanish(ai - si, mi);
        }
    }
    let borrow_out = subtrahend > a;
    let aux_borrow = b % 16 + c > a % 16;
    let a_sign = a >= sign;
    let b_sign = b >= sign;
    let overflow = a_sign != b_sign && (result >= sign) != a_sign;
    regs.set_flag(Flag::Carry, borrow_out);
    regs.set_flag(Flag::AuxCarry, aux_borrow);
    regs.set_flag(Flag::Overflow, overflow);
    set_common_result_flags(regs, result, sign);
    result as u16
}

/// AND/OR/XOR/TEST: clears CF, OF and AF, and sets ZF/SF/PF from the
/// width-truncated result.
pub fn set_flags_after_logic(regs: &mut Registers, result: u16, width: Width)
    ensures
        *final(regs) == spec_logic_flags(*old(regs), result, width),
{
    let (m, sign) = mask_and_sign_bit(width);
    let masked = result as u32 % m;
    regs.set_flag(Flag::Carry, false);
    regs.set_flag(Flag::Overflow, false);
    regs.set_flag(Flag::AuxCarry, false);
    set_common_result_flags(regs, masked, sign);
}

/// What ZF/SF/PF plus CF/AF/OF settings leave readable: the three
/// flags a caller tests after arithmetic read back as they were set.
proof fn lemma_flag_reads(x: Registers, carry: bool, aux: bool, overflow: bool, result: int, width: Width)
    ensures
        ({
            let after = with_result_flags(
                x.spec_with_flag(Flag::Carry, carry).spec_with_flag(Flag::AuxCarry, aux).spec_with_flag(
                    Flag::Overflow,
                    overflow,
                ),
                result,
                width,
            );
            &&& after.spec_get_flag(Flag::Carry) == carry
            &&& after.spec_get_flag(Flag::Overflow) == overflow
            &&& after.spec_get_flag(Flag::Zero) == (result == 0)
        }),
{
    let r1 = x.spec_with_flag(Flag::Carry, carry);
    let r2 = r1.spec_with_flag(Flag::AuxCarry, aux);
    let r3 = r2.spec_with_flag(Flag::Overflow, overflow);
    let r4 = r3.spec_with_flag(Flag::Zero, result == 0);
    let r5 = r4.spec_with_flag(Flag::Sign, negative(result, width));
    let p = parity_even((result % 256) as u8);
    super::registers::lemma_flag_set_get(x, Flag::Carry, carry, Flag::Carry);
    super::registers::lemma_flag_set_get(r1, Flag::AuxCarry, aux, Flag::Carry);
    super::registers::lemma_flag_set_get(r2, Flag::Overflow, overflow, Flag::Carry);
    super::registers::lemma_flag_set_get(r2, Flag::Overflow, overflow, Flag::Overflow);
    super::registers::lemma_flag_set_get(r3, Flag::Zero, result == 0, Flag::Carry);
    super::registers::lemma_flag_set_get(r3, Flag::Zero, result == 0, Flag::Overflow);
    super::registers::lemma_flag_set_get(r3, Flag::Zero, result == 0, Flag::Zero);
    super::registers::lemma_flag_set_get(r4, Flag::Sign, negative(result, width), Flag::Carry);
    super::registers::lemma_flag_set_get(r4, Flag::Sign, negative(result, width), Flag::Overflow);
    super::registers::lemma_flag_set_get(r4, Flag::Sign, negative(result, width), Flag::Zero);
    super::registers::lemma_flag_set_get(r5, Flag::Parity, p, Flag::Carry);
    super::registers::lemma_flag_set_get(r5, Flag::Parity, p, Flag::Overflow);
    super::registers::lemma_flag_set_get(r5, Flag::Parity, p, Flag::Zero);
}

/// The flags an ADD leaves mean what they say: CF is set exactly when the
/// unsigned sum does not fit the width, OF exactly when the signed sum
/// does not, and ZF exactly when the truncated result is zero.
pub proof fn lemma_add_flags_meaning(regs: Registers, dst: u16, src: u16, carry_in: bool, width: Width)
    ensures
        ({
            let m = modulus(width);
            let c = if carry_in { 1int } else { 0int };
            let after = spec_add_flags(regs, dst, src, carry_in, width);
            let signed_sum = signed_value((dst as int) % m, width) + signed_value((src as int) % m, width) + c;
            &&& after.spec_get_flag(Flag::Carry) == ((dst as int) % m + (src as int) % m + c >= m)
            &&& after.spec_get_flag(Flag::Overflow) == (signed_sum < -sign_bit(width)
                || signed_sum >= sign_bit(width))
            &&& after.spec_get_flag(Flag::Zero) == (add_result(dst, src, carry_in, width) == 0)
        }),
{
    let m = modulus(width);
    let a = (dst as int) % m;
    let b = (src as int) % m;
    let c = if carry_in { 1int } else { 0int };
    let result = add_result(dst, src, carry_in, width);
    let overflow = negative(a, width) == negative(b, width) && negative(result, width) != negative(a, width);
    lemma_flag_reads(regs, a + b + c >= m, a % 16 + b % 16 + c > 15, overflow, result, width);
    assert(result == (a + b + c) % m);
    if a + b + c >= m {
        assert(result == a + b + c - m) by {
            vstd::arithmetic::div_mod::lemma_mod_sub_multiples_vanish(a + b + c, m);
            vstd::arithmetic::div_mod::lemma_small_mod((a + b + c - m) as nat, m as nat);
        }
    } else {
        vstd::arithmetic::div_mod::lemma_small_mod((a + b + c) as nat, m as nat);
    }
}

/// The flags a SUB leaves mean what they say: CF is set exactly when the
/// subtrahend (plus borrow) exceeds the minuend, OF exactly when the signed
/// difference does not fit, and ZF exactly when the result is zero.
pub proof fn lemma_sub_flags_meaning(regs: Registers, dst: u16, src: u16, borrow_in: bool, width: Width)
    ensures
        ({
            let m = modulus(width);
            let c = if borrow_in { 1int } else { 0int };
            let after = spec_sub_flags(regs, dst, src, borrow_in, width);
            let signed_diff = signed_value((dst as int) % m, width) - signed_value((src as int) % m, width) - c;
            &&& after.spec_get_flag(Flag::Carry) == ((src as int) % m + c > (dst as int) % m)
            &&& after.spec_get_flag(Flag::Overflow) == (signed_diff < -sign_bit(width)
                || signed_diff >= sign_bit(width))
            &&& after.spec_get_flag(Flag::Zero) == (sub_result(dst, src, borrow_in, width) == 0)
        }),
{
    let m = modulus(width);
    let a = (dst as int) % m;
    let b = (src as int) % m;
    let c = if borrow_in { 1int } else { 0int };
    let result = sub_result(dst, src, borrow_in, width);
    let overflow = negative(a, width) != negative(b, width) && negative(result, width) != negative(a, width);
    lemma_flag_reads(regs, b + c > a, b % 16 + c > a % 16, overflow, result, width);
    assert(result == (a - b - c) % m);
    if b + c > a {
        assert(result == a - b - c + m) by {
            vstd::arithmetic::div_mod::lemma_mod_add_multiples_vanish(a - b - c, m);
            vstd::arithmetic::div_mod::lemma_small_mod((a - b - c + m) as nat, m as nat);
        }
    } else {
        vstd::arithmetic::div_mod::lemma_small_mod((a - b - c) as nat, m as nat);
    }
}

} // verus!
