//! The encoder and the decoder agree: whatever the encoder emits for an
//! instruction the decoder produces decodes back to that instruction.
use super::encoder::{
    arithmetic_index, condition_code, encoding_of, imm_bytes, le16, memory_bytes, rm_bytes,
    rm_field, shift_field, string_opcode_of, unary_field,
};
use crate::cpu::execute::is_string_mnemonic;
use crate::decoder::groups::{spec_arithmetic_group, spec_shift_rotate_group, spec_unary_group};
use crate::decoder::modrm::{spec_modrm_at, spec_reg_operand, spec_rm_registers};
use crate::decoder::{
    accumulator, is_arithmetic_group_opcode, spec_acc_imm, spec_arithmetic_form,
    spec_condition_from_index, spec_decode, spec_repeat_for, spec_decode_high, spec_decode_low, spec_decode_mid,
    spec_immediate_group, spec_lea, spec_mov_acc_mem, spec_mov_reg_imm, spec_mov_rm_imm,
    spec_group_ff, spec_inc_dec_rm, spec_mov_sreg, spec_pop_rm, spec_rel16, spec_rel8, spec_rm_imm,
    spec_rm_single, spec_shift, spec_unary, ShiftCountSource,
    spec_read_i16, spec_read_i8, spec_read_imm, spec_two_operand, DecodeError, Decoded, InstrView,
};
use crate::isa::{
    spec_is_segment, spec_reg16_from_index, spec_reg16_index, spec_reg8_from_index, spec_reg8_index,
    spec_segment_from_index, spec_segment_index, Mnemonic,
    Operand, Reg16, Reg8, Width,
};
use vstd::prelude::*;

verus! {

/// A byte read back as a signed byte.
proof fn lemma_u8_as_i8(x: u8)
    ensures
        x < 128 ==> x as i8 as int == x as int,
        x >= 128 ==> x as i8 as int == x as int - 256,
{
    assert(x < 128 ==> (x as i8) as i16 == x as i16) by (bit_vector);
    assert(x >= 128 ==> (x as i8) as i16 == (x as i16) - 256) by (bit_vector);
}

/// A word read back as a signed word.
proof fn lemma_u16_as_i16(x: u16)
    ensures
        x < 32768 ==> x as i16 as int == x as int,
        x >= 32768 ==> x as i16 as int == x as int - 65536,
{
    assert(x < 32768 ==> (x as i16) as i32 == x as i32) by (bit_vector);
    assert(x >= 32768 ==> (x as i16) as i32 == (x as i32) - 65536) by (bit_vector);
}

/// A signed word's two bytes read back as that word.
proof fn lemma_le16_reads_back(v: int, p: Seq<u8>, t: Seq<u8>)
    requires
        -32768 <= v <= 32767,
    ensures
        le16(v).len() == 2,
        spec_read_i16(p + le16(v) + t, p.len() as int) == Ok::<i16, crate::decoder::DecodeError>(
            v as i16,
        ),
        (v as i16) as int == v,
{
    let s = p + le16(v) + t;
    let u = v % 65536;
    assert(s[p.len() as int] == (u % 256) as u8);
    assert(s[p.len() as int + 1] == (u / 256) as u8);
    assert((u % 256) + 256 * (u / 256) == u);
    let x = (u % 256 + 256 * (u / 256)) as u16;
    assert(x == u);
    lemma_u16_as_i16(x);
}

/// A signed byte's encoding read back as that byte.
proof fn lemma_byte_reads_back(v: int, p: Seq<u8>, t: Seq<u8>)
    requires
        -128 <= v <= 127,
    ensures
        spec_read_i8(p + seq![(v % 256) as u8] + t, p.len() as int) == Ok::<i8, crate::decoder::DecodeError>(
            v as i8,
        ),
        (v as i8) as int == v,
{
    let s = p + seq![(v % 256) as u8] + t;
    assert(s[p.len() as int] == (v % 256) as u8);
    lemma_u8_as_i8((v % 256) as u8);
}

/// An immediate the decoder can produce re-encodes to bytes that read
/// back as it.
proof fn lemma_imm_reads_back(v: i32, w: Width, p: Seq<u8>, t: Seq<u8>)
    requires
        w == Width::Byte ==> -128 <= v <= 127,
        w == Width::Word ==> -32768 <= v <= 32767,
    ensures
        imm_bytes(v, w) matches Ok(b) && spec_read_imm(p + b + t, p.len() as int, w) == Ok::<
            (i32, nat),
            crate::decoder::DecodeError,
        >((v, b.len())),
{
    match w {
        Width::Byte => {
            lemma_byte_reads_back(v as int, p, t);
        },
        Width::Word => {
            lemma_le16_reads_back(v as int, p, t);
        },
    }
}

proof fn lemma_reg_index(i: u8)
    requires
        i < 8,
    ensures
        spec_reg8_index(spec_reg8_from_index(i)) == i,
        spec_reg16_index(spec_reg16_from_index(i)) == Some(i),
{
}

proof fn lemma_rm_field(rm: u8)
    requires
        rm < 8,
    ensures
        rm_field(spec_rm_registers(rm).0, spec_rm_registers(rm).1) == Some(rm),
        spec_rm_registers(rm).0 is Some,
        rm == 6 <==> (spec_rm_registers(rm).0 == Some(Reg16::Bp) && spec_rm_registers(rm).1 is None),
{
}

/// The ModRM byte `md`/`reg`/`rm` splits back into its fields.
proof fn lemma_modrm_byte(md: u8, reg: u8, rm: u8)
    requires
        md < 4,
        reg < 8,
        rm < 8,
    ensures
        ({
            let b = (md * 64 + reg * 8 + rm) as u8;
            &&& b as int == md * 64 + reg * 8 + rm
            &&& b / 64 == md
            &&& (b / 8) % 8 == reg
            &&& b % 8 == rm
        }),
{
}

/// The `r/m` operand the decoder reads from a ModRM byte re-encodes,
/// with any `reg` field, to bytes that decode back to it.
proof fn lemma_modrm_reads_back(s: Seq<u8>, at: int, w: Width, reg2: u8, p: Seq<u8>, t: Seq<u8>)
    requires
        spec_modrm_at(s, at, w) is Ok,
        reg2 < 8,
    ensures
        rm_bytes(reg2, spec_modrm_at(s, at, w)->Ok_0.1) matches Ok(b) && spec_modrm_at(
            p + b + t,
            p.len() as int,
            w,
        ) == Ok::<(u8, Operand, nat), crate::decoder::DecodeError>(
            (reg2, spec_modrm_at(s, at, w)->Ok_0.1, b.len()),
        ),
{
    let byte = s[at];
    let md = byte / 64;
    let rm = byte % 8;
    let operand = spec_modrm_at(s, at, w)->Ok_0.1;
    let q = p.len() as int;
    if md == 3 {
        lemma_reg_index(rm);
        lemma_modrm_byte(3, reg2, rm);
        let b = rm_bytes(reg2, operand)->Ok_0;
        assert(b == seq![(3 * 64 + reg2 * 8 + rm) as u8]);
        assert((p + b + t)[q] == b[0]);
    } else if md == 0 && rm == 6 {
        let d = spec_read_i16(s, at + 1)->Ok_0;
        lemma_u16_as_i16((s[at + 1] + 256 * s[at + 2]) as u16);
        lemma_modrm_byte(0, reg2, 6);
        let head = seq![(reg2 * 8 + 6) as u8];
        let b = head + le16(d as int);
        assert(rm_bytes(reg2, operand) == Ok::<Seq<u8>, Seq<char>>(b));
        lemma_le16_reads_back(d as int, p + head, t);
        assert(p + b + t =~= p + head + le16(d as int) + t);
        assert((p + b + t)[q] == head[0]);
    } else {
        lemma_rm_field(rm);
        let (base, index) = spec_rm_registers(rm);
        let d = operand->Memory_displacement;
        if md == 1 {
            lemma_u8_as_i8(s[at + 1]);
        } else if md == 2 {
            lemma_u16_as_i16((s[at + 1] + 256 * s[at + 2]) as u16);
        }
        assert(-32768 <= d <= 32767);
        if base == Some(Reg16::Bp) && index is None && d == 0 {
            lemma_modrm_byte(1, reg2, rm);
            let b = seq![(64 + reg2 * 8 + rm) as u8, 0u8];
            assert(rm_bytes(reg2, operand) == Ok::<Seq<u8>, Seq<char>>(b));
            assert((p + b + t)[q] == b[0]);
            assert((p + b + t)[q + 1] == 0u8);
            lemma_u8_as_i8(0u8);
        } else if d == 0 {
            lemma_modrm_byte(0, reg2, rm);
            let b = seq![(reg2 * 8 + rm) as u8];
            assert(rm_bytes(reg2, operand) == Ok::<Seq<u8>, Seq<char>>(b));
            assert((p + b + t)[q] == b[0]);
        } else {
            lemma_modrm_byte(2, reg2, rm);
            let head = seq![(128 + reg2 * 8 + rm) as u8];
            let b = head + le16(d as int);
            assert(rm_bytes(reg2, operand) == Ok::<Seq<u8>, Seq<char>>(b));
            lemma_le16_reads_back(d as int, p + head, t);
            assert(p + b + t =~= p + head + le16(d as int) + t);
            assert((p + b + t)[q] == head[0]);
        }
    }
}

/// What "decodes back" means: the encoding of `iv`, where there is one,
/// decodes to an instruction with the same mnemonic, operands, width and
/// repeat prefix, taking all of its bytes.
pub open spec fn round_trips(iv: InstrView) -> bool {
    encoding_of(iv.0, iv.1, iv.2, iv.3, iv.4) matches Ok(e) ==> (spec_decode(e) matches Ok(
        (jv, k),
    ) && k == e.len() && jv.0 == iv.0 && jv.1 == iv.1 && jv.2 == iv.2 && jv.4 == iv.4)
}

/// `XCHG reg16, AX`: the encoder writes it in the one-byte form, which
/// decodes as `XCHG AX, reg16` (the same exchange, operands swapped).
pub open spec fn exchanges_into_ax(iv: InstrView) -> bool {
    &&& iv.0 == Mnemonic::Xchg
    &&& iv.1.len() == 2
    &&& iv.1[0] is Reg16
    &&& iv.1[1] == Operand::Reg16(Reg16::Ax)
}

proof fn lemma_arithmetic_index(k: u8)
    requires
        k < 8,
    ensures
        arithmetic_index(spec_arithmetic_group(k)) == k,
{
}

/// A ModRM (and displacement) the decoder read, re-encoded after opcode
/// `op`, is read back at offset 1.
proof fn lemma_rm_after_opcode(s: Seq<u8>, at: int, w: Width, reg2: u8, op: u8, t: Seq<u8>)
    requires
        spec_modrm_at(s, at, w) is Ok,
        reg2 < 8,
    ensures
        rm_bytes(reg2, spec_modrm_at(s, at, w)->Ok_0.1) matches Ok(b) && spec_modrm_at(
            seq![op] + b + t,
            1,
            w,
        ) == Ok::<(u8, Operand, nat), DecodeError>((reg2, spec_modrm_at(s, at, w)->Ok_0.1, b.len()))
            && (seq![op] + b + t)[0] == op,
{
    lemma_modrm_reads_back(s, at, w, reg2, seq![op], t);
}

/// A register operand of the width, encoded in the `r/m` role with
/// `reg2` in the `reg` field after opcode `op`, is read back at offset 1.
proof fn lemma_reg_rm_after_opcode(regf: u8, w: Width, reg2: u8, op: u8, t: Seq<u8>)
    requires
        regf < 8,
        reg2 < 8,
    ensures
        rm_bytes(reg2, spec_reg_operand(regf, w)) matches Ok(b) && spec_modrm_at(
            seq![op] + b + t,
            1,
            w,
        ) == Ok::<(u8, Operand, nat), DecodeError>((reg2, spec_reg_operand(regf, w), b.len()))
            && (seq![op] + b + t)[0] == op,
{
    let s = seq![(192 + regf) as u8];
    lemma_modrm_byte(3, 0, regf);
    assert(spec_modrm_at(s, 0, w) == Ok::<(u8, Operand, nat), DecodeError>((0u8, spec_reg_operand(regf, w), 1nat)));
    lemma_rm_after_opcode(s, 0, w, reg2, op, t);
}

/// The width an opcode's low bit selects.
pub open spec fn width_of_bit(b: u8) -> Width {
    if b % 2 == 0 {
        Width::Byte
    } else {
        Width::Word
    }
}

/// The arithmetic mnemonics' encoding.
proof fn lemma_encoding_arithmetic(m: Mnemonic, ops: Seq<Operand>, w: Option<Width>, bl: u8)
    requires
        m is Add || m is Adc || m is Sub || m is Sbb || m is And || m is Or || m is Xor || m is Cmp,
    ensures
        encoding_of(m, ops, w, bl, None) == super::encoder::encode_arithmetic_spec(m, ops[0], ops[1], w),
{
}

/// Decoding dispatches opcodes of the ADD..CMP group to their form.
proof fn lemma_decode_arithmetic(e: Seq<u8>)
    requires
        e.len() > 0,
        is_arithmetic_group_opcode(e[0]),
    ensures
        spec_decode(e) == spec_arithmetic_form(e[0], e),
{
}

/// `op r/m, reg` of the ADD..CMP group round-trips.
#[verifier::rlimit(80)]
#[verifier::spinoff_prover]
proof fn lemma_arithmetic_rm_reg(s: Seq<u8>)
    requires
        s.len() > 0,
        is_arithmetic_group_opcode(s[0]),
        s[0] % 8 <= 1,
        spec_arithmetic_form(s[0], s) is Ok,
    ensures
        round_trips(spec_arithmetic_form(s[0], s)->Ok_0.0),
{
    let op = s[0];
    let k = op / 8;
    let m = spec_arithmetic_group(k);
    lemma_arithmetic_index(k);
    let w = width_of_bit(op % 8);
    let (regf, rm, n) = spec_modrm_at(s, 1, w)->Ok_0;
    let r = spec_reg_operand(regf, w);
    lemma_reg_index(regf);
    lemma_rm_after_opcode(s, 1, w, regf, op, seq![]);
    let b = rm_bytes(regf, rm)->Ok_0;
    let e = seq![op] + b;
    assert(e =~= seq![op] + b + seq![]);
    let iv = spec_arithmetic_form(op, s)->Ok_0.0;
    assert(iv.1 == seq![rm, r]);
    lemma_encoding_arithmetic(m, iv.1, iv.2, iv.3);
    assert(encoding_of(iv.0, iv.1, iv.2, iv.3, iv.4) == Ok::<Seq<u8>, Seq<char>>(e));
    lemma_decode_arithmetic(e);
    assert(spec_modrm_at(e, 1, w) == Ok::<(u8, Operand, nat), DecodeError>((regf, rm, b.len())));
}

/// `op reg, r/m` of the ADD..CMP group round-trips (a register source is
/// written in the `r/m, reg` form, which decodes to the same operands).
#[verifier::rlimit(80)]
#[verifier::spinoff_prover]
proof fn lemma_arithmetic_reg_rm(s: Seq<u8>)
    requires
        s.len() > 0,
        is_arithmetic_group_opcode(s[0]),
        2 <= s[0] % 8 <= 3,
        spec_arithmetic_form(s[0], s) is Ok,
    ensures
        round_trips(spec_arithmetic_form(s[0], s)->Ok_0.0),
{
    let op = s[0];
    let k = op / 8;
    let m = spec_arithmetic_group(k);
    lemma_arithmetic_index(k);
    let w = width_of_bit(op % 8);
    let (regf, rm, n) = spec_modrm_at(s, 1, w)->Ok_0;
    let r = spec_reg_operand(regf, w);
    lemma_reg_index(regf);
    let iv = spec_arithmetic_form(op, s)->Ok_0.0;
    assert(iv.1 == seq![r, rm]);
    lemma_encoding_arithmetic(m, iv.1, iv.2, iv.3);
    if rm is Memory {
        lemma_rm_after_opcode(s, 1, w, regf, op, seq![]);
        let b = rm_bytes(regf, rm)->Ok_0;
        let e = seq![op] + b;
        assert(e =~= seq![op] + b + seq![]);
        assert(encoding_of(iv.0, iv.1, iv.2, iv.3, iv.4) == Ok::<Seq<u8>, Seq<char>>(e));
        lemma_decode_arithmetic(e);
        assert(spec_modrm_at(e, 1, w) == Ok::<(u8, Operand, nat), DecodeError>((regf, rm, b.len())));
    } else {
        let rf = if w == Width::Byte {
            spec_reg8_index(rm->Reg8_0)
        } else {
            spec_reg16_index(rm->Reg16_0)->Some_0
        };
        lemma_reg_index(rf);
        let op2 = (op - 2) as u8;
        lemma_reg_rm_after_opcode(regf, w, rf, op2, seq![]);
        let b = rm_bytes(rf, r)->Ok_0;
        let e = seq![op2] + b;
        assert(e =~= seq![op2] + b + seq![]);
        assert(encoding_of(iv.0, iv.1, iv.2, iv.3, iv.4) == Ok::<Seq<u8>, Seq<char>>(e));
        lemma_decode_arithmetic(e);
        assert(spec_modrm_at(e, 1, w) == Ok::<(u8, Operand, nat), DecodeError>((rf, r, b.len())));
        assert(spec_reg_operand(rf, w) == rm);
    }
}

/// `op AL, imm8` / `op AX, imm16` of the ADD..CMP group round-trips.
#[verifier::rlimit(80)]
#[verifier::spinoff_prover]
proof fn lemma_arithmetic_acc_imm(s: Seq<u8>)
    requires
        s.len() > 0,
        is_arithmetic_group_opcode(s[0]),
        4 <= s[0] % 8 <= 5,
        spec_arithmetic_form(s[0], s) is Ok,
    ensures
        round_trips(spec_arithmetic_form(s[0], s)->Ok_0.0),
{
    let op = s[0];
    let k = op / 8;
    let m = spec_arithmetic_group(k);
    lemma_arithmetic_index(k);
    let w = width_of_bit(op % 8);
    let (v, n) = spec_read_imm(s, 1, w)->Ok_0;
    if w == Width::Byte {
        lemma_u8_as_i8(s[1]);
    } else {
        lemma_u16_as_i16((s[1] + 256 * s[2]) as u16);
    }
    lemma_imm_reads_back(v, w, seq![op], seq![]);
    let b = imm_bytes(v, w)->Ok_0;
    let e = seq![op] + b;
    assert(e =~= seq![op] + b + seq![]);
    let iv = spec_arithmetic_form(op, s)->Ok_0.0;
    assert(iv.1 == seq![accumulator(w), Operand::Immediate(v)]);
    lemma_encoding_arithmetic(m, iv.1, iv.2, iv.3);
    assert(encoding_of(iv.0, iv.1, iv.2, iv.3, iv.4) == Ok::<Seq<u8>, Seq<char>>(e));
    lemma_decode_arithmetic(e);
    assert(spec_read_imm(e, 1, w) == Ok::<(i32, nat), DecodeError>((v, b.len())));
}

/// Opcodes 00-3D of the ADD..CMP group round-trip.
proof fn lemma_arithmetic_form_round_trips(s: Seq<u8>)
    requires
        s.len() > 0,
        is_arithmetic_group_opcode(s[0]),
        spec_decode(s) is Ok,
    ensures
        round_trips(spec_decode(s)->Ok_0.0),
{
    lemma_decode_arithmetic(s);
    if s[0] % 8 <= 1 {
        lemma_arithmetic_rm_reg(s);
    } else if s[0] % 8 <= 3 {
        lemma_arithmetic_reg_rm(s);
    } else {
        lemma_arithmetic_acc_imm(s);
    }
}

proof fn lemma_decode_low(e: Seq<u8>)
    requires
        e.len() > 0,
        e[0] < 0x80,
        !is_arithmetic_group_opcode(e[0]),
    ensures
        spec_decode(e) == spec_decode_low(e[0], e),
{
}

proof fn lemma_condition_code(op: u8)
    requires
        0x70 <= op < 0x80,
    ensures
        0x70 + condition_code(spec_condition_from_index(op)) == op,
{
}

/// A signed byte displacement re-encodes after `op` and reads back.
proof fn lemma_rel8_reads_back(v: i8, op: u8)
    ensures
        super::encoder::rel8(v as i32) == Ok::<Seq<u8>, Seq<char>>(seq![((v as i32) % 256) as u8]),
        spec_read_i8(seq![op] + seq![((v as i32) % 256) as u8], 1) == Ok::<i8, DecodeError>(v),
        (seq![op] + seq![((v as i32) % 256) as u8])[0] == op,
        (seq![op] + seq![((v as i32) % 256) as u8]).len() == 2,
{
    lemma_byte_reads_back(v as int, seq![op], seq![]);
    assert(seq![op] + seq![((v as i32) % 256) as u8] =~= seq![op] + seq![((v as i32) % 256) as u8] + seq![]);
}

/// Opcodes 40-7F and the segment PUSH/POP opcodes round-trip.
#[verifier::rlimit(80)]
#[verifier::spinoff_prover]
proof fn lemma_low_round_trips(s: Seq<u8>)
    requires
        s.len() > 0,
        s[0] < 0x80,
        !is_arithmetic_group_opcode(s[0]),
        spec_decode(s) is Ok,
    ensures
        round_trips(spec_decode(s)->Ok_0.0),
{
    let op = s[0];
    lemma_decode_low(s);
    if 0x40 <= op < 0x60 {
        lemma_reg_index(op % 8);
        let e = seq![op];
        lemma_decode_low(e);
        let iv = spec_decode(s)->Ok_0.0;
        assert(encoding_of(iv.0, iv.1, iv.2, iv.3, iv.4) == Ok::<Seq<u8>, Seq<char>>(e));
    } else if 0x70 <= op {
        let v = spec_read_i8(s, 1)->Ok_0;
        lemma_condition_code(op);
        lemma_rel8_reads_back(v, op);
        let e = seq![op] + seq![((v as i32) % 256) as u8];
        lemma_decode_low(e);
        let iv = spec_decode(s)->Ok_0.0;
        assert(encoding_of(iv.0, iv.1, iv.2, iv.3, iv.4) == Ok::<Seq<u8>, Seq<char>>(e));
        assert(spec_decode(e) == spec_rel8(iv.0, e));
    } else {
        let e = seq![op];
        lemma_decode_low(e);
        let iv = spec_decode(s)->Ok_0.0;
        assert(encoding_of(iv.0, iv.1, iv.2, iv.3, iv.4) == Ok::<Seq<u8>, Seq<char>>(e));
    }
}

proof fn lemma_decode_mid(e: Seq<u8>)
    requires
        e.len() > 0,
        0x80 <= e[0] < 0xC0,
    ensures
        spec_decode(e) == spec_decode_mid(e[0], e),
{
}

/// One-byte instructions among opcodes 80-BF (NOP, flags, string ops,
/// `XCHG AX, reg16`) round-trip.
#[verifier::rlimit(80)]
#[verifier::spinoff_prover]
proof fn lemma_mid_single_byte(s: Seq<u8>)
    requires
        s.len() > 0,
        (0x90 <= s[0] < 0x98) || (0x9C <= s[0] < 0xA0) || (0xA4 <= s[0] < 0xA8) || (0xAA <= s[0]
            < 0xB0),
        spec_decode(s) is Ok,
    ensures
        round_trips(spec_decode(s)->Ok_0.0),
{
    let op = s[0];
    lemma_decode_mid(s);
    lemma_reg_index(op % 8);
    let e = seq![op];
    lemma_decode_mid(e);
    let iv = spec_decode(s)->Ok_0.0;
    assert(encoding_of(iv.0, iv.1, iv.2, iv.3, iv.4) == Ok::<Seq<u8>, Seq<char>>(e));
}

/// `MOV reg, imm` (B0-BF) round-trips.
#[verifier::rlimit(80)]
#[verifier::spinoff_prover]
proof fn lemma_mov_reg_imm(s: Seq<u8>)
    requires
        s.len() > 0,
        0xB0 <= s[0] < 0xC0,
        spec_decode(s) is Ok,
    ensures
        round_trips(spec_decode(s)->Ok_0.0),
{
    let op = s[0];
    lemma_decode_mid(s);
    lemma_reg_index(op % 8);
    let w = if op < 0xB8 {
        Width::Byte
    } else {
        Width::Word
    };
    assert(spec_decode(s) == spec_mov_reg_imm(s, w));
    let (v, n) = spec_read_imm(s, 1, w)->Ok_0;
    if w == Width::Byte {
        lemma_u8_as_i8(s[1]);
    } else {
        lemma_u16_as_i16((s[1] + 256 * s[2]) as u16);
    }
    lemma_imm_reads_back(v, w, seq![op], seq![]);
    let b = imm_bytes(v, w)->Ok_0;
    let e = seq![op] + b;
    assert(e =~= seq![op] + b + seq![]);
    lemma_decode_mid(e);
    let iv = spec_decode(s)->Ok_0.0;
    assert(encoding_of(iv.0, iv.1, iv.2, iv.3, iv.4) == Ok::<Seq<u8>, Seq<char>>(e));
    assert(spec_decode(e) == spec_mov_reg_imm(e, w));
}

/// The immediate group (80-83) round-trips: the accumulator forms are
/// written with the short accumulator opcodes, the rest with 80/81.
#[verifier::rlimit(100)]
#[verifier::spinoff_prover]
proof fn lemma_immediate_group(s: Seq<u8>)
    requires
        s.len() > 0,
        0x80 <= s[0] < 0x84,
        spec_decode(s) is Ok,
    ensures
        round_trips(spec_decode(s)->Ok_0.0),
{
    let op = s[0];
    lemma_decode_mid(s);
    let w = if op == 0x81 || op == 0x83 {
        Width::Word
    } else {
        Width::Byte
    };
    let iw = if op == 0x81 {
        Width::Word
    } else {
        Width::Byte
    };
    assert(spec_decode(s) == spec_immediate_group(s, w, iw));
    let (k, rm, n) = spec_modrm_at(s, 1, w)->Ok_0;
    let (v, ni) = spec_read_imm(s, (1 + n) as int, iw)->Ok_0;
    if iw == Width::Byte {
        lemma_u8_as_i8(s[1 + n as int]);
    } else {
        lemma_u16_as_i16((s[1 + n as int] + 256 * s[2 + n as int]) as u16);
    }
    assert(k < 8);
    let m = spec_arithmetic_group(k);
    lemma_arithmetic_index(k);
    let iv = spec_decode(s)->Ok_0.0;
    assert(iv.1 == seq![rm, Operand::Immediate(v)]);
    lemma_encoding_arithmetic(m, iv.1, iv.2, iv.3);
    if (rm == Operand::Reg8(Reg8::Al) && w == Width::Byte) || (rm == Operand::Reg16(Reg16::Ax)
        && w == Width::Word) {
        let op2 = (k * 8 + 4 + (if w == Width::Byte { 0u8 } else { 1u8 })) as u8;
        lemma_imm_reads_back(v, w, seq![op2], seq![]);
        let b = imm_bytes(v, w)->Ok_0;
        let e = seq![op2] + b;
        assert(e =~= seq![op2] + b + seq![]);
        assert(encoding_of(iv.0, iv.1, iv.2, iv.3, iv.4) == Ok::<Seq<u8>, Seq<char>>(e));
        lemma_decode_arithmetic(e);
        assert(spec_read_imm(e, 1, w) == Ok::<(i32, nat), DecodeError>((v, b.len())));
    } else {
        let op2: u8 = if w == Width::Byte {
            0x80
        } else {
            0x81
        };
        lemma_rm_after_opcode(s, 1, w, k, op2, seq![]);
        let b = rm_bytes(k, rm)->Ok_0;
        lemma_imm_reads_back(v, w, seq![op2] + b, seq![]);
        let c = imm_bytes(v, w)->Ok_0;
        let e = seq![op2] + b + c;
        assert(e =~= seq![op2] + b + c + seq![]);
        lemma_rm_after_opcode(s, 1, w, k, op2, c);
        assert(encoding_of(iv.0, iv.1, iv.2, iv.3, iv.4) == Ok::<Seq<u8>, Seq<char>>(e));
        lemma_decode_mid(e);
        assert(spec_decode(e) == spec_immediate_group(e, w, w));
        assert(spec_modrm_at(e, 1, w) == Ok::<(u8, Operand, nat), DecodeError>((k, rm, b.len())));
        assert(spec_read_imm(e, (1 + b.len()) as int, w) == Ok::<(i32, nat), DecodeError>((v, c.len())));
    }
}

/// The register field of the register a decoded `r/m` register operand
/// names.
proof fn lemma_rm_register_index(rm: Operand, w: Width, rf: u8)
    requires
        rf < 8,
        rm == spec_reg_operand(rf, w),
    ensures
        super::encoder::reg_field_of_spec(rm) == Some(rf),
        rm is Reg8 || rm is Reg16,
        !(rm is Memory),
{
    lemma_reg_index(rf);
}

/// `TEST r/m, reg` (84/85) round-trips.
#[verifier::rlimit(80)]
#[verifier::spinoff_prover]
proof fn lemma_test_rm_reg(s: Seq<u8>)
    requires
        s.len() > 0,
        0x84 <= s[0] < 0x86,
        spec_decode(s) is Ok,
    ensures
        round_trips(spec_decode(s)->Ok_0.0),
{
    let op = s[0];
    lemma_decode_mid(s);
    let w = width_of_bit(op);
    assert(spec_decode(s) == spec_two_operand(Mnemonic::Test, s, w, false));
    let (regf, rm, n) = spec_modrm_at(s, 1, w)->Ok_0;
    lemma_rm_register_index(spec_reg_operand(regf, w), w, regf);
    lemma_rm_after_opcode(s, 1, w, regf, op, seq![]);
    let b = rm_bytes(regf, rm)->Ok_0;
    let e = seq![op] + b;
    assert(e =~= seq![op] + b + seq![]);
    let iv = spec_decode(s)->Ok_0.0;
    assert(encoding_of(iv.0, iv.1, iv.2, iv.3, iv.4) == Ok::<Seq<u8>, Seq<char>>(e));
    lemma_decode_mid(e);
    assert(spec_decode(e) == spec_two_operand(Mnemonic::Test, e, w, false));
}

/// `MOV r/m, reg` (88/89) round-trips.
#[verifier::rlimit(80)]
#[verifier::spinoff_prover]
proof fn lemma_mov_rm_reg(s: Seq<u8>)
    requires
        s.len() > 0,
        0x88 <= s[0] < 0x8A,
        spec_decode(s) is Ok,
    ensures
        round_trips(spec_decode(s)->Ok_0.0),
{
    let op = s[0];
    lemma_decode_mid(s);
    let w = width_of_bit(op);
    assert(spec_decode(s) == spec_two_operand(Mnemonic::Mov, s, w, false));
    let (regf, rm, n) = spec_modrm_at(s, 1, w)->Ok_0;
    lemma_rm_register_index(spec_reg_operand(regf, w), w, regf);
    lemma_rm_after_opcode(s, 1, w, regf, op, seq![]);
    let b = rm_bytes(regf, rm)->Ok_0;
    let e = seq![op] + b;
    assert(e =~= seq![op] + b + seq![]);
    let iv = spec_decode(s)->Ok_0.0;
    assert(encoding_of(iv.0, iv.1, iv.2, iv.3, iv.4) == Ok::<Seq<u8>, Seq<char>>(e));
    lemma_decode_mid(e);
    assert(spec_decode(e) == spec_two_operand(Mnemonic::Mov, e, w, false));
}

/// `MOV reg, r/m` (8A/8B) round-trips (a register source is written in
/// the 88/89 form, which decodes to the same operands).
proof fn lemma_mov_reg_rm(s: Seq<u8>)
    requires
        s.len() > 0,
        0x8A <= s[0] < 0x8C,
        spec_decode(s) is Ok,
    ensures
        round_trips(spec_decode(s)->Ok_0.0),
{
    lemma_decode_mid(s);
    let w = width_of_bit(s[0]);
    assert(spec_decode(s) == spec_two_operand(Mnemonic::Mov, s, w, true));
    if spec_modrm_at(s, 1, w)->Ok_0.1 is Memory {
        lemma_mov_reg_rm_memory(s);
    } else {
        lemma_mov_reg_rm_register(s);
    }
}

#[verifier::rlimit(100)]
#[verifier::spinoff_prover]
proof fn lemma_mov_reg_rm_memory(s: Seq<u8>)
    requires
        s.len() > 0,
        0x8A <= s[0] < 0x8C,
        spec_decode(s) is Ok,
        spec_modrm_at(s, 1, width_of_bit(s[0]))->Ok_0.1 is Memory,
    ensures
        round_trips(spec_decode(s)->Ok_0.0),
{
    let op = s[0];
    lemma_decode_mid(s);
    let w = width_of_bit(op);
    assert(spec_decode(s) == spec_two_operand(Mnemonic::Mov, s, w, true));
    let (regf, rm, n) = spec_modrm_at(s, 1, w)->Ok_0;
    let r = spec_reg_operand(regf, w);
    lemma_rm_register_index(r, w, regf);
    let iv = spec_decode(s)->Ok_0.0;
    lemma_rm_after_opcode(s, 1, w, regf, op, seq![]);
    let b = rm_bytes(regf, rm)->Ok_0;
    let e = seq![op] + b;
    assert(e =~= seq![op] + b + seq![]);
    assert(encoding_of(iv.0, iv.1, iv.2, iv.3, iv.4) == Ok::<Seq<u8>, Seq<char>>(e));
    lemma_decode_mid(e);
    assert(spec_decode(e) == spec_two_operand(Mnemonic::Mov, e, w, true));
}

#[verifier::rlimit(100)]
#[verifier::spinoff_prover]
proof fn lemma_mov_reg_rm_register(s: Seq<u8>)
    requires
        s.len() > 0,
        0x8A <= s[0] < 0x8C,
        spec_decode(s) is Ok,
        !(spec_modrm_at(s, 1, width_of_bit(s[0]))->Ok_0.1 is Memory),
    ensures
        round_trips(spec_decode(s)->Ok_0.0),
{
    let op = s[0];
    lemma_decode_mid(s);
    let w = width_of_bit(op);
    assert(spec_decode(s) == spec_two_operand(Mnemonic::Mov, s, w, true));
    let (regf, rm, n) = spec_modrm_at(s, 1, w)->Ok_0;
    let r = spec_reg_operand(regf, w);
    lemma_rm_register_index(r, w, regf);
    let iv = spec_decode(s)->Ok_0.0;
    let rf = if w == Width::Byte {
        spec_reg8_index(rm->Reg8_0)
    } else {
        spec_reg16_index(rm->Reg16_0)->Some_0
    };
    lemma_reg_index(rf);
    lemma_rm_register_index(rm, w, rf);
    let op2 = (op - 2) as u8;
    lemma_reg_rm_after_opcode(regf, w, rf, op2, seq![]);
    let b = rm_bytes(rf, r)->Ok_0;
    let e = seq![op2] + b;
    assert(e =~= seq![op2] + b + seq![]);
    assert(encoding_of(iv.0, iv.1, iv.2, iv.3, iv.4) == Ok::<Seq<u8>, Seq<char>>(e));
    lemma_decode_mid(e);
    assert(spec_decode(e) == spec_two_operand(Mnemonic::Mov, e, w, false));
}

/// `XCHG r/m, reg` (86/87) round-trips, except `XCHG reg16, AX`.
#[verifier::rlimit(100)]
#[verifier::spinoff_prover]
proof fn lemma_xchg_rm_reg(s: Seq<u8>)
    requires
        s.len() > 0,
        0x86 <= s[0] < 0x88,
        spec_decode(s) is Ok,
        !exchanges_into_ax(spec_decode(s)->Ok_0.0),
    ensures
        round_trips(spec_decode(s)->Ok_0.0),
{
    let op = s[0];
    lemma_decode_mid(s);
    let w = width_of_bit(op);
    assert(spec_decode(s) == spec_two_operand(Mnemonic::Xchg, s, w, false));
    let (regf, rm, n) = spec_modrm_at(s, 1, w)->Ok_0;
    let r = spec_reg_operand(regf, w);
    lemma_rm_register_index(r, w, regf);
    let iv = spec_decode(s)->Ok_0.0;
    if w == Width::Word && rm == Operand::Reg16(Reg16::Ax) {
        assert(r != Operand::Reg16(Reg16::Ax));
        let e = seq![(0x90 + regf) as u8];
        assert(encoding_of(iv.0, iv.1, iv.2, iv.3, iv.4) == Ok::<Seq<u8>, Seq<char>>(e));
        lemma_decode_mid(e);
        lemma_reg_index(regf);
    } else {
        lemma_rm_after_opcode(s, 1, w, regf, op, seq![]);
        let b = rm_bytes(regf, rm)->Ok_0;
        let e = seq![op] + b;
        assert(e =~= seq![op] + b + seq![]);
        assert(encoding_of(iv.0, iv.1, iv.2, iv.3, iv.4) == Ok::<Seq<u8>, Seq<char>>(e));
        lemma_decode_mid(e);
        assert(spec_decode(e) == spec_two_operand(Mnemonic::Xchg, e, w, false));
    }
}

proof fn lemma_segment_index(k: u8)
    requires
        spec_segment_from_index(k) is Some,
    ensures
        k < 4,
        spec_segment_index(spec_segment_from_index(k)->Some_0) == Some(k),
        spec_is_segment(spec_segment_from_index(k)->Some_0),
{
}

/// A general register operand of the width is no segment register.
proof fn lemma_general_not_segment(rf: u8, w: Width)
    requires
        rf < 8,
    ensures
        spec_reg_operand(rf, w) is Reg16 ==> !spec_is_segment(spec_reg_operand(rf, w)->Reg16_0),
{
}

/// `MOV r/m16, sreg` (8C) and `MOV sreg, r/m16` (8E) round-trip.
#[verifier::rlimit(80)]
#[verifier::spinoff_prover]
proof fn lemma_mov_sreg(s: Seq<u8>)
    requires
        s.len() > 0,
        s[0] == 0x8C || s[0] == 0x8E,
        spec_decode(s) is Ok,
    ensures
        round_trips(spec_decode(s)->Ok_0.0),
{
    let op = s[0];
    let to_reg = op == 0x8E;
    lemma_decode_mid(s);
    assert(spec_decode(s) == spec_mov_sreg(s, to_reg));
    let (k, rm, n) = spec_modrm_at(s, 1, Width::Word)->Ok_0;
    lemma_segment_index(k);
    if rm is Reg16 {
        let rf = spec_reg16_index(rm->Reg16_0)->Some_0;
        lemma_general_not_segment(rf, Width::Word);
        lemma_reg_index(rf);
    }
    lemma_rm_after_opcode(s, 1, Width::Word, k, op, seq![]);
    let b = rm_bytes(k, rm)->Ok_0;
    let e = seq![op] + b;
    assert(e =~= seq![op] + b + seq![]);
    let iv = spec_decode(s)->Ok_0.0;
    assert(encoding_of(iv.0, iv.1, iv.2, iv.3, iv.4) == Ok::<Seq<u8>, Seq<char>>(e));
    lemma_decode_mid(e);
    assert(spec_decode(e) == spec_mov_sreg(e, to_reg));
}

/// `LEA reg16, mem` (8D) round-trips.
#[verifier::rlimit(80)]
#[verifier::spinoff_prover]
proof fn lemma_lea(s: Seq<u8>)
    requires
        s.len() > 0,
        s[0] == 0x8D,
        spec_decode(s) is Ok,
    ensures
        round_trips(spec_decode(s)->Ok_0.0),
{
    let op = s[0];
    lemma_decode_mid(s);
    assert(spec_decode(s) == spec_lea(s));
    let (regf, rm, n) = spec_modrm_at(s, 1, Width::Word)->Ok_0;
    lemma_reg_index(regf);
    let iv = spec_decode(s)->Ok_0.0;
    if rm is Memory {
        lemma_rm_after_opcode(s, 1, Width::Word, regf, op, seq![]);
        let b = rm_bytes(regf, rm)->Ok_0;
        let e = seq![op] + b;
        assert(e =~= seq![op] + b + seq![]);
        assert(encoding_of(iv.0, iv.1, iv.2, iv.3, iv.4) == Ok::<Seq<u8>, Seq<char>>(e));
        lemma_decode_mid(e);
        assert(spec_decode(e) == spec_lea(e));
    }
}

/// `POP r/m16` (8F /0) round-trips (a register is written in the
/// one-byte form).
#[verifier::rlimit(80)]
#[verifier::spinoff_prover]
proof fn lemma_pop_rm(s: Seq<u8>)
    requires
        s.len() > 0,
        s[0] == 0x8F,
        spec_decode(s) is Ok,
    ensures
        round_trips(spec_decode(s)->Ok_0.0),
{
    let op = s[0];
    lemma_decode_mid(s);
    assert(spec_decode(s) == spec_pop_rm(s));
    let (k, rm, n) = spec_modrm_at(s, 1, Width::Word)->Ok_0;
    let iv = spec_decode(s)->Ok_0.0;
    if rm is Memory {
        lemma_rm_after_opcode(s, 1, Width::Word, 0, op, seq![]);
        let b = rm_bytes(0, rm)->Ok_0;
        let e = seq![op] + b;
        assert(e =~= seq![op] + b + seq![]);
        assert(encoding_of(iv.0, iv.1, iv.2, iv.3, iv.4) == Ok::<Seq<u8>, Seq<char>>(e));
        lemma_decode_mid(e);
        assert(spec_decode(e) == spec_pop_rm(e));
    } else {
        let rf = spec_reg16_index(rm->Reg16_0)->Some_0;
        lemma_reg_index(rf);
        lemma_general_not_segment(rf, Width::Word);
        let e = seq![(0x58 + rf) as u8];
        assert(encoding_of(iv.0, iv.1, iv.2, iv.3, iv.4) == Ok::<Seq<u8>, Seq<char>>(e));
        lemma_decode_low(e);
    }
}

/// `MOV AL/AX, [addr]` and `MOV [addr], AL/AX` (A0-A3) round-trip: they
/// are written in the general ModRM form.
#[verifier::rlimit(100)]
#[verifier::spinoff_prover]
proof fn lemma_mov_moffs(s: Seq<u8>)
    requires
        s.len() > 0,
        0xA0 <= s[0] < 0xA4,
        spec_decode(s) is Ok,
    ensures
        round_trips(spec_decode(s)->Ok_0.0),
{
    let op = s[0];
    let w = width_of_bit(op);
    let to_reg = op < 0xA2;
    lemma_decode_mid(s);
    assert(spec_decode(s) == spec_mov_acc_mem(s, w, to_reg));
    let a = spec_read_i16(s, 1)->Ok_0;
    lemma_u16_as_i16((s[1] + 256 * s[2]) as u16);
    let mem = Operand::Memory { segment_override: None, base: None, index: None, displacement: a as i32 };
    let g = seq![6u8] + le16(a as int);
    lemma_le16_reads_back(a as int, seq![6u8], seq![]);
    assert(g =~= seq![6u8] + le16(a as int) + seq![]);
    lemma_modrm_byte(0, 0, 6);
    assert(spec_modrm_at(g, 0, w) == Ok::<(u8, Operand, nat), DecodeError>((0u8, mem, 3nat)));
    let op2 = (if to_reg { 0x8Au8 } else { 0x88u8 } + (op % 2)) as u8;
    lemma_rm_after_opcode(g, 0, w, 0, op2, seq![]);
    let b = rm_bytes(0, mem)->Ok_0;
    let e = seq![op2] + b;
    assert(e =~= seq![op2] + b + seq![]);
    lemma_reg_index(0);
    let iv = spec_decode(s)->Ok_0.0;
    assert(encoding_of(iv.0, iv.1, iv.2, iv.3, iv.4) == Ok::<Seq<u8>, Seq<char>>(e));
    lemma_decode_mid(e);
    assert(spec_decode(e) == spec_two_operand(Mnemonic::Mov, e, w, to_reg));
}

/// `TEST AL/AX, imm` (A8/A9) round-trips.
#[verifier::rlimit(80)]
#[verifier::spinoff_prover]
proof fn lemma_test_acc_imm(s: Seq<u8>)
    requires
        s.len() > 0,
        0xA8 <= s[0] < 0xAA,
        spec_decode(s) is Ok,
    ensures
        round_trips(spec_decode(s)->Ok_0.0),
{
    let op = s[0];
    let w = width_of_bit(op);
    lemma_decode_mid(s);
    assert(spec_decode(s) == spec_acc_imm(Mnemonic::Test, s, w));
    let (v, n) = spec_read_imm(s, 1, w)->Ok_0;
    if w == Width::Byte {
        lemma_u8_as_i8(s[1]);
    } else {
        lemma_u16_as_i16((s[1] + 256 * s[2]) as u16);
    }
    lemma_imm_reads_back(v, w, seq![op], seq![]);
    let b = imm_bytes(v, w)->Ok_0;
    let e = seq![op] + b;
    assert(e =~= seq![op] + b + seq![]);
    let iv = spec_decode(s)->Ok_0.0;
    assert(encoding_of(iv.0, iv.1, iv.2, iv.3, iv.4) == Ok::<Seq<u8>, Seq<char>>(e));
    lemma_decode_mid(e);
    assert(spec_decode(e) == spec_acc_imm(Mnemonic::Test, e, w));
}

/// Opcodes 80-BF round-trip (but `XCHG reg16, AX`).
proof fn lemma_mid_round_trips(s: Seq<u8>)
    requires
        s.len() > 0,
        0x80 <= s[0] < 0xC0,
        spec_decode(s) is Ok,
        !exchanges_into_ax(spec_decode(s)->Ok_0.0),
    ensures
        round_trips(spec_decode(s)->Ok_0.0),
{
    let op = s[0];
    lemma_decode_mid(s);
    if op < 0x84 {
        lemma_immediate_group(s);
    } else if op < 0x86 {
        lemma_test_rm_reg(s);
    } else if op < 0x88 {
        lemma_xchg_rm_reg(s);
    } else if op < 0x8A {
        lemma_mov_rm_reg(s);
    } else if op < 0x8C {
        lemma_mov_reg_rm(s);
    } else if op == 0x8C || op == 0x8E {
        lemma_mov_sreg(s);
    } else if op == 0x8D {
        lemma_lea(s);
    } else if op == 0x8F {
        lemma_pop_rm(s);
    } else if 0xA0 <= op < 0xA4 {
        lemma_mov_moffs(s);
    } else if op == 0xA8 || op == 0xA9 {
        lemma_test_acc_imm(s);
    } else if op >= 0xB0 {
        lemma_mov_reg_imm(s);
    } else {
        lemma_mid_single_byte(s);
    }
}

proof fn lemma_decode_high(e: Seq<u8>)
    requires
        e.len() > 0,
        0xC0 <= e[0],
        e[0] != 0xF2,
        e[0] != 0xF3,
    ensures
        spec_decode(e) == spec_decode_high(e[0], e),
{
}

proof fn lemma_shift_field(k: u8)
    requires
        k < 8,
    ensures
        shift_field(spec_shift_rotate_group(k)) < 8,
        spec_shift_rotate_group(shift_field(spec_shift_rotate_group(k))) == spec_shift_rotate_group(k),
{
}

proof fn lemma_encoding_shift(m: Mnemonic, ops: Seq<Operand>, w: Option<Width>, bl: u8)
    requires
        m is Shl || m is Shr || m is Sar || m is Rol || m is Ror || m is Rcl || m is Rcr,
    ensures
        encoding_of(m, ops, w, bl, None) == super::encoder::encode_shift_spec(m, ops, w),
{
}

/// A shift or rotate decoded with a count of 1 or CL re-encodes in the
/// D0-D3 form and reads back.
#[verifier::rlimit(100)]
#[verifier::spinoff_prover]
proof fn lemma_shift_short_count(s: Seq<u8>, w: Width, source: ShiftCountSource)
    requires
        s.len() > 0,
        spec_shift(s, w, source) is Ok,
        spec_shift(s, w, source)->Ok_0.0.1[1] == Operand::Immediate(1) || spec_shift(
            s,
            w,
            source,
        )->Ok_0.0.1[1] == Operand::Reg8(Reg8::Cl),
    ensures
        round_trips(spec_shift(s, w, source)->Ok_0.0),
{
    let wb: u8 = if w == Width::Byte { 0 } else { 1 };
    let (k, rm, n) = spec_modrm_at(s, 1, w)->Ok_0;
    let m = spec_shift_rotate_group(k);
    lemma_shift_field(k);
    let f = shift_field(m);
    let iv = spec_shift(s, w, source)->Ok_0.0;
    let count = iv.1[1];
    lemma_encoding_shift(m, iv.1, iv.2, iv.3);
    let one = count == Operand::Immediate(1);
    let op2 = (if one { 0xD0u8 } else { 0xD2u8 } + wb) as u8;
    lemma_rm_after_opcode(s, 1, w, f, op2, seq![]);
    let b = rm_bytes(f, rm)->Ok_0;
    let e = seq![op2] + b;
    assert(e =~= seq![op2] + b + seq![]);
    assert(encoding_of(iv.0, iv.1, iv.2, iv.3, iv.4) == Ok::<Seq<u8>, Seq<char>>(e));
    lemma_decode_high(e);
    let source2 = if one {
        ShiftCountSource::One
    } else {
        ShiftCountSource::Cl
    };
    assert(spec_decode(e) == spec_shift(e, w, source2));
}

/// A shift or rotate decoded with another immediate count re-encodes in
/// the C0/C1 form and reads back.
#[verifier::rlimit(100)]
#[verifier::spinoff_prover]
proof fn lemma_shift_imm_count(s: Seq<u8>, w: Width)
    requires
        s.len() > 0,
        spec_shift(s, w, ShiftCountSource::Imm8) is Ok,
        spec_shift(s, w, ShiftCountSource::Imm8)->Ok_0.0.1[1] != Operand::Immediate(1),
    ensures
        round_trips(spec_shift(s, w, ShiftCountSource::Imm8)->Ok_0.0),
{
    let wb: u8 = if w == Width::Byte { 0 } else { 1 };
    let (k, rm, n) = spec_modrm_at(s, 1, w)->Ok_0;
    let m = spec_shift_rotate_group(k);
    lemma_shift_field(k);
    let f = shift_field(m);
    let iv = spec_shift(s, w, ShiftCountSource::Imm8)->Ok_0.0;
    lemma_encoding_shift(m, iv.1, iv.2, iv.3);
    let v = spec_read_i8(s, (1 + n) as int)->Ok_0;
    lemma_u8_as_i8(s[1 + n as int]);
    let op2 = (0xC0 + wb) as u8;
    lemma_rm_after_opcode(s, 1, w, f, op2, seq![]);
    let b = rm_bytes(f, rm)->Ok_0;
    lemma_imm_reads_back(v as i32, Width::Byte, seq![op2] + b, seq![]);
    let c = imm_bytes(v as i32, Width::Byte)->Ok_0;
    lemma_rm_after_opcode(s, 1, w, f, op2, c);
    let e = seq![op2] + b + c;
    assert(e =~= seq![op2] + b + c + seq![]);
    assert(iv.1[1] == Operand::Immediate(v as i32));
    assert(encoding_of(iv.0, iv.1, iv.2, iv.3, iv.4) == Ok::<Seq<u8>, Seq<char>>(e));
    lemma_decode_high(e);
    assert(spec_decode(e) == spec_shift(e, w, ShiftCountSource::Imm8));
    assert(spec_read_i8(e, (1 + b.len()) as int) == Ok::<i8, DecodeError>(v));
}

/// The shifts and rotates (C0, C1, D0-D3) round-trip: a count of 1 is
/// written in the D0/D1 form.
proof fn lemma_shift_round_trips(s: Seq<u8>)
    requires
        s.len() > 0,
        s[0] == 0xC0 || s[0] == 0xC1 || (0xD0 <= s[0] < 0xD4),
        spec_decode(s) is Ok,
    ensures
        round_trips(spec_decode(s)->Ok_0.0),
{
    let op = s[0];
    let w = width_of_bit(op);
    let source = if op < 0xD0 {
        ShiftCountSource::Imm8
    } else if op < 0xD2 {
        ShiftCountSource::One
    } else {
        ShiftCountSource::Cl
    };
    lemma_decode_high(s);
    assert(spec_decode(s) == spec_shift(s, w, source));
    let iv = spec_decode(s)->Ok_0.0;
    if iv.1[1] == Operand::Immediate(1) || iv.1[1] == Operand::Reg8(Reg8::Cl) {
        lemma_shift_short_count(s, w, source);
    } else {
        assert(source == ShiftCountSource::Imm8);
        lemma_shift_imm_count(s, w);
    }
}

proof fn lemma_encoding_mov(ops: Seq<Operand>, w: Option<Width>, bl: u8)
    ensures
        encoding_of(Mnemonic::Mov, ops, w, bl, None) == super::encoder::encode_mov_spec(ops, w),
{
}

/// `MOV mem, imm` (C6/C7 with a memory operand) round-trips.
#[verifier::rlimit(100)]
#[verifier::spinoff_prover]
proof fn lemma_mov_mem_imm(s: Seq<u8>, w: Width)
    requires
        s.len() > 0,
        s[0] == (if w == Width::Byte { 0xC6u8 } else { 0xC7u8 }),
        spec_mov_rm_imm(s, w) is Ok,
        spec_mov_rm_imm(s, w)->Ok_0.0.1[0] is Memory,
    ensures
        round_trips(spec_mov_rm_imm(s, w)->Ok_0.0),
{
    let op = s[0];
    let (k, rm, n) = spec_modrm_at(s, 1, w)->Ok_0;
    let (v, ni) = spec_read_imm(s, (1 + n) as int, w)->Ok_0;
    if w == Width::Byte {
        lemma_u8_as_i8(s[1 + n as int]);
    } else {
        lemma_u16_as_i16((s[1 + n as int] + 256 * s[2 + n as int]) as u16);
    }
    let iv = spec_mov_rm_imm(s, w)->Ok_0.0;
    lemma_encoding_mov(iv.1, iv.2, iv.3);
    lemma_rm_after_opcode(s, 1, w, 0, op, seq![]);
    let b = rm_bytes(0, rm)->Ok_0;
    lemma_imm_reads_back(v, w, seq![op] + b, seq![]);
    let c = imm_bytes(v, w)->Ok_0;
    lemma_rm_after_opcode(s, 1, w, 0, op, c);
    let e = seq![op] + b + c;
    assert(e =~= seq![op] + b + c + seq![]);
    assert(encoding_of(iv.0, iv.1, iv.2, iv.3, iv.4) == Ok::<Seq<u8>, Seq<char>>(e));
    lemma_decode_high(e);
    assert(spec_decode(e) == spec_mov_rm_imm(e, w));
    assert(spec_read_imm(e, (1 + b.len()) as int, w) == Ok::<(i32, nat), DecodeError>((v, c.len())));
}

/// `MOV reg, imm` decoded from C6/C7 is written in the B0-BF form, which
/// decodes to the same operands.
#[verifier::rlimit(100)]
#[verifier::spinoff_prover]
proof fn lemma_mov_reg_imm_long(s: Seq<u8>, w: Width)
    requires
        s.len() > 0,
        spec_mov_rm_imm(s, w) is Ok,
        !(spec_mov_rm_imm(s, w)->Ok_0.0.1[0] is Memory),
    ensures
        round_trips(spec_mov_rm_imm(s, w)->Ok_0.0),
{
    let (k, rm, n) = spec_modrm_at(s, 1, w)->Ok_0;
    let (v, ni) = spec_read_imm(s, (1 + n) as int, w)->Ok_0;
    if w == Width::Byte {
        lemma_u8_as_i8(s[1 + n as int]);
    } else {
        lemma_u16_as_i16((s[1 + n as int] + 256 * s[2 + n as int]) as u16);
    }
    let iv = spec_mov_rm_imm(s, w)->Ok_0.0;
    lemma_encoding_mov(iv.1, iv.2, iv.3);
    let rf = if w == Width::Byte {
        spec_reg8_index(rm->Reg8_0)
    } else {
        spec_reg16_index(rm->Reg16_0)->Some_0
    };
    lemma_reg_index(rf);
    lemma_general_not_segment(rf, w);
    let op2 = (if w == Width::Byte { 0xB0u8 } else { 0xB8u8 } + rf) as u8;
    lemma_imm_reads_back(v, w, seq![op2], seq![]);
    let c = imm_bytes(v, w)->Ok_0;
    let e = seq![op2] + c;
    assert(e =~= seq![op2] + c + seq![]);
    assert(encoding_of(iv.0, iv.1, iv.2, iv.3, iv.4) == Ok::<Seq<u8>, Seq<char>>(e));
    lemma_decode_mid(e);
    assert(spec_decode(e) == spec_mov_reg_imm(e, w));
}

/// `MOV r/m, imm` (C6/C7) round-trips.
proof fn lemma_mov_rm_imm(s: Seq<u8>)
    requires
        s.len() > 0,
        s[0] == 0xC6 || s[0] == 0xC7,
        spec_decode(s) is Ok,
    ensures
        round_trips(spec_decode(s)->Ok_0.0),
{
    let w = width_of_bit(s[0]);
    lemma_decode_high(s);
    assert(spec_decode(s) == spec_mov_rm_imm(s, w));
    if spec_mov_rm_imm(s, w)->Ok_0.0.1[0] is Memory {
        lemma_mov_mem_imm(s, w);
    } else {
        lemma_mov_reg_imm_long(s, w);
    }
}

/// One-byte instructions among opcodes C0-FF round-trip.
#[verifier::rlimit(80)]
#[verifier::spinoff_prover]
proof fn lemma_high_single_byte(s: Seq<u8>)
    requires
        s.len() > 0,
        s[0] == 0xC3 || s[0] == 0xCC || s[0] == 0xCF || s[0] == 0xD7 || s[0] == 0xF4 || s[0]
            == 0xF5 || (0xF8 <= s[0] < 0xFE),
        spec_decode(s) is Ok,
    ensures
        round_trips(spec_decode(s)->Ok_0.0),
{
    let op = s[0];
    lemma_decode_high(s);
    let e = seq![op];
    lemma_decode_high(e);
    let iv = spec_decode(s)->Ok_0.0;
    assert(encoding_of(iv.0, iv.1, iv.2, iv.3, iv.4) == Ok::<Seq<u8>, Seq<char>>(e));
}

/// Relative branches (E0-E3, E8, E9, EB) and `RET imm16` (C2) and
/// `INT imm8` (CD) round-trip where the encoder accepts them.
#[verifier::rlimit(100)]
#[verifier::spinoff_prover]
proof fn lemma_branch_round_trips(s: Seq<u8>)
    requires
        s.len() > 0,
        (0xE0 <= s[0] < 0xE4) || s[0] == 0xE8 || s[0] == 0xE9 || s[0] == 0xEB || s[0] == 0xC2
            || s[0] == 0xCD,
        spec_decode(s) is Ok,
    ensures
        round_trips(spec_decode(s)->Ok_0.0),
{
    let op = s[0];
    lemma_decode_high(s);
    let iv = spec_decode(s)->Ok_0.0;
    if op == 0xE8 || op == 0xE9 || op == 0xC2 {
        let v = spec_read_i16(s, 1)->Ok_0;
        lemma_u16_as_i16((s[1] + 256 * s[2]) as u16);
        lemma_le16_reads_back(v as int, seq![op], seq![]);
        let e = seq![op] + le16(v as int);
        assert(e =~= seq![op] + le16(v as int) + seq![]);
        if op != 0xC2 || v >= 0 {
            assert(encoding_of(iv.0, iv.1, iv.2, iv.3, iv.4) == Ok::<Seq<u8>, Seq<char>>(e));
            lemma_decode_high(e);
        }
    } else {
        let v = spec_read_i8(s, 1)->Ok_0;
        lemma_u8_as_i8(s[1]);
        lemma_rel8_reads_back(v, op);
        let e = seq![op] + seq![((v as i32) % 256) as u8];
        if op != 0xCD || v >= 0 {
            if op == 0xCD {
                let vi = v as i32;
                assert(0 <= vi <= 127);
                assert(vi % 256 == vi);
                assert(e =~= seq![0xCDu8, vi as u8]);
            }
            assert(encoding_of(iv.0, iv.1, iv.2, iv.3, iv.4) == Ok::<Seq<u8>, Seq<char>>(e));
            lemma_decode_high(e);
        }
    }
}

proof fn lemma_unary_field(k: u8)
    requires
        2 <= k < 8,
    ensures
        unary_field(spec_unary_group(k)) == k,
{
}

/// `NOT`/`NEG`/`MUL`/`IMUL`/`DIV`/`IDIV r/m` and `TEST r/m, imm` (F6/F7)
/// round-trip where the encoder accepts them (TEST only against AL/AX).
#[verifier::rlimit(100)]
#[verifier::spinoff_prover]
proof fn lemma_unary_round_trips(s: Seq<u8>)
    requires
        s.len() > 0,
        s[0] == 0xF6 || s[0] == 0xF7,
        spec_decode(s) is Ok,
    ensures
        round_trips(spec_decode(s)->Ok_0.0),
{
    let op = s[0];
    let w = width_of_bit(op);
    lemma_decode_high(s);
    assert(spec_decode(s) == spec_unary(s, w));
    let (k, rm, n) = spec_modrm_at(s, 1, w)->Ok_0;
    let m = spec_unary_group(k);
    let iv = spec_decode(s)->Ok_0.0;
    if m == Mnemonic::Test {
        let (v, ni) = spec_read_imm(s, (1 + n) as int, w)->Ok_0;
        if (rm == Operand::Reg8(Reg8::Al) && w == Width::Byte) || (rm == Operand::Reg16(Reg16::Ax)
            && w == Width::Word) {
            if w == Width::Byte {
                lemma_u8_as_i8(s[1 + n as int]);
            } else {
                lemma_u16_as_i16((s[1 + n as int] + 256 * s[2 + n as int]) as u16);
            }
            let op2: u8 = if w == Width::Byte {
                0xA8
            } else {
                0xA9
            };
            lemma_imm_reads_back(v, w, seq![op2], seq![]);
            let b = imm_bytes(v, w)->Ok_0;
            let e = seq![op2] + b;
            assert(e =~= seq![op2] + b + seq![]);
            assert(encoding_of(iv.0, iv.1, iv.2, iv.3, iv.4) == Ok::<Seq<u8>, Seq<char>>(e));
            lemma_decode_mid(e);
            assert(spec_decode(e) == spec_acc_imm(Mnemonic::Test, e, w));
        }
    } else {
        lemma_unary_field(k);
        lemma_rm_after_opcode(s, 1, w, k, op, seq![]);
        let b = rm_bytes(k, rm)->Ok_0;
        let e = seq![op] + b;
        assert(e =~= seq![op] + b + seq![]);
        assert(encoding_of(iv.0, iv.1, iv.2, iv.3, iv.4) == Ok::<Seq<u8>, Seq<char>>(e));
        lemma_decode_high(e);
        assert(spec_decode(e) == spec_unary(e, w));
    }
}

/// `INC`/`DEC r/m8` (FE) and `INC`/`DEC`/`PUSH r/m16` (FF) round-trip (a
/// 16-bit register is written in the one-byte form).
#[verifier::rlimit(100)]
#[verifier::spinoff_prover]
proof fn lemma_rm_single_round_trips(s: Seq<u8>)
    requires
        s.len() > 0,
        s[0] == 0xFE || s[0] == 0xFF,
        spec_decode(s) is Ok,
    ensures
        round_trips(spec_decode(s)->Ok_0.0),
{
    let op = s[0];
    let w = width_of_bit(op);
    lemma_decode_high(s);
    let (k, rm, n) = spec_modrm_at(s, 1, w)->Ok_0;
    let iv = spec_decode(s)->Ok_0.0;
    if rm is Reg16 {
        let rf = spec_reg16_index(rm->Reg16_0)->Some_0;
        lemma_reg_index(rf);
        lemma_general_not_segment(rf, w);
        let base: u8 = if k == 0 {
            0x40
        } else if k == 1 {
            0x48
        } else {
            0x50
        };
        let e = seq![(base + rf) as u8];
        assert(encoding_of(iv.0, iv.1, iv.2, iv.3, iv.4) == Ok::<Seq<u8>, Seq<char>>(e));
        lemma_decode_low(e);
    } else {
        lemma_rm_after_opcode(s, 1, w, k, op, seq![]);
        let b = rm_bytes(k, rm)->Ok_0;
        let e = seq![op] + b;
        assert(e =~= seq![op] + b + seq![]);
        assert(encoding_of(iv.0, iv.1, iv.2, iv.3, iv.4) == Ok::<Seq<u8>, Seq<char>>(e));
        lemma_decode_high(e);
    }
}

/// Opcodes C0-FF (but the F2/F3 prefixes) round-trip where the encoder
/// accepts them.
proof fn lemma_high_round_trips(s: Seq<u8>)
    requires
        s.len() > 0,
        0xC0 <= s[0],
        s[0] != 0xF2,
        s[0] != 0xF3,
        spec_decode(s) is Ok,
    ensures
        round_trips(spec_decode(s)->Ok_0.0),
{
    let op = s[0];
    lemma_decode_high(s);
    if op == 0xC0 || op == 0xC1 || (0xD0 <= op < 0xD4) {
        lemma_shift_round_trips(s);
    } else if (0xE0 <= op < 0xE4) || op == 0xE8 || op == 0xE9 || op == 0xEB || op == 0xC2 || op
        == 0xCD {
        lemma_branch_round_trips(s);
    } else if op == 0xC6 || op == 0xC7 {
        lemma_mov_rm_imm(s);
    } else if op == 0xF6 || op == 0xF7 {
        lemma_unary_round_trips(s);
    } else if op == 0xFE || op == 0xFF {
        lemma_rm_single_round_trips(s);
    } else {
        lemma_high_single_byte(s);
    }
}

/// The ADD..CMP forms decode to no string instruction.
#[verifier::rlimit(80)]
#[verifier::spinoff_prover]
proof fn lemma_arithmetic_not_string(t: Seq<u8>)
    requires
        t.len() > 0,
        is_arithmetic_group_opcode(t[0]),
        spec_arithmetic_form(t[0], t) is Ok,
    ensures
        !is_string_mnemonic(spec_arithmetic_form(t[0], t)->Ok_0.0.0),
{
    let k = t[0] / 8;
    assert(k < 8);
}

/// Opcodes 40-7F decode to no string instruction.
#[verifier::rlimit(80)]
#[verifier::spinoff_prover]
proof fn lemma_low_not_string(t: Seq<u8>)
    requires
        t.len() > 0,
        spec_decode_low(t[0], t) is Ok,
    ensures
        !is_string_mnemonic(spec_decode_low(t[0], t)->Ok_0.0.0),
{
}

/// Opcodes C0-FF decode to no string instruction.
#[verifier::rlimit(100)]
#[verifier::spinoff_prover]
proof fn lemma_high_not_string(t: Seq<u8>)
    requires
        t.len() > 0,
        spec_decode_high(t[0], t) is Ok,
    ensures
        !is_string_mnemonic(spec_decode_high(t[0], t)->Ok_0.0.0),
{
    let op = t[0];
    if op == 0xC0 || op == 0xC1 || (0xD0 <= op < 0xD4) {
        let w = width_of_bit(op);
        let k = spec_modrm_at(t, 1, w)->Ok_0.0;
        assert(k < 8);
    } else if op == 0xF6 || op == 0xF7 {
        let w = width_of_bit(op);
        let k = spec_modrm_at(t, 1, w)->Ok_0.0;
        assert(k < 8);
    }
}

/// Opcodes 80-BF decode to a string instruction only in the one-byte
/// form, with no operands and no width.
#[verifier::rlimit(100)]
#[verifier::spinoff_prover]
proof fn lemma_mid_string_shape(t: Seq<u8>)
    requires
        t.len() > 0,
        spec_decode_mid(t[0], t) is Ok,
        is_string_mnemonic(spec_decode_mid(t[0], t)->Ok_0.0.0),
    ensures
        spec_decode_mid(t[0], t)->Ok_0.0.1 == Seq::<Operand>::empty(),
        spec_decode_mid(t[0], t)->Ok_0.0.2 is None,
{
    let op = t[0];
    if 0x80 <= op < 0x84 {
        let w = if op == 0x81 || op == 0x83 { Width::Word } else { Width::Byte };
        let k = spec_modrm_at(t, 1, w)->Ok_0.0;
        assert(k < 8);
    }
}

/// Every decoded string instruction has no operands and no width.
proof fn lemma_string_shape(t: Seq<u8>)
    requires
        spec_decode(t) is Ok,
        is_string_mnemonic(spec_decode(t)->Ok_0.0.0),
    ensures
        spec_decode(t)->Ok_0.0.1 == Seq::<Operand>::empty(),
        spec_decode(t)->Ok_0.0.2 is None,
    decreases t.len(),
{
    let op = t[0];
    if op == 0xF2 || op == 0xF3 {
        lemma_string_shape(t.subrange(1, t.len() as int));
    } else if is_arithmetic_group_opcode(op) {
        lemma_decode_arithmetic(t);
        lemma_arithmetic_not_string(t);
    } else if op < 0x80 {
        lemma_decode_low(t);
        lemma_low_not_string(t);
    } else if op < 0xC0 {
        lemma_decode_mid(t);
        lemma_mid_string_shape(t);
    } else {
        lemma_decode_high(t);
        lemma_high_not_string(t);
    }
}

/// The one-byte opcode of a string mnemonic decodes to it.
proof fn lemma_string_opcode(m: Mnemonic)
    requires
        is_string_mnemonic(m),
    ensures
        spec_decode(seq![string_opcode_of(m)]) == Ok::<(InstrView, nat), DecodeError>(
            ((m, Seq::<Operand>::empty(), None, 1u8, None), 1nat),
        ),
{
    lemma_decode_mid(seq![string_opcode_of(m)]);
}

/// A REP/REPE/REPNE-prefixed string instruction round-trips.
#[verifier::rlimit(80)]
#[verifier::spinoff_prover]
proof fn lemma_prefixed_round_trips(s: Seq<u8>)
    requires
        s.len() > 0,
        s[0] == 0xF2 || s[0] == 0xF3,
        spec_decode(s) is Ok,
    ensures
        round_trips(spec_decode(s)->Ok_0.0),
{
    let op = s[0];
    let inner = spec_decode(s.subrange(1, s.len() as int));
    let m = inner->Ok_0.0.0;
    lemma_string_shape(s.subrange(1, s.len() as int));
    let iv = spec_decode(s)->Ok_0.0;
    let rep = spec_repeat_for(op, m);
    let prefix: u8 = if rep == crate::isa::Repeat::Repne {
        0xF2
    } else {
        0xF3
    };
    let e = seq![prefix, string_opcode_of(m)];
    assert(encoding_of(iv.0, iv.1, iv.2, iv.3, iv.4) == Ok::<Seq<u8>, Seq<char>>(e));
    lemma_string_opcode(m);
    assert(e.subrange(1, e.len() as int) =~= seq![string_opcode_of(m)]);
    assert(spec_repeat_for(prefix, m) == rep);
}

/// Decoding what the encoder writes for an instruction the decoder
/// produces gives that instruction back (mnemonic, operands, width and
/// repeat prefix), taking all the bytes written. The one exception is
/// `XCHG reg16, AX`, which is written in the one-byte form that decodes
/// as `XCHG AX, reg16`; where the encoder refuses an instruction there is
/// nothing to decode.
pub proof fn lemma_encoding_decodes_back(s: Seq<u8>)
    requires
        spec_decode(s) is Ok,
        !exchanges_into_ax(spec_decode(s)->Ok_0.0),
    ensures
        round_trips(spec_decode(s)->Ok_0.0),
{
    let op = s[0];
    if op == 0xF2 || op == 0xF3 {
        lemma_prefixed_round_trips(s);
    } else if is_arithmetic_group_opcode(op) {
        lemma_arithmetic_form_round_trips(s);
    } else if op < 0x80 {
        lemma_low_round_trips(s);
    } else if op < 0xC0 {
        lemma_mid_round_trips(s);
    } else {
        lemma_high_round_trips(s);
    }
}

} // verus!
