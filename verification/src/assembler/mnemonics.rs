//! Mnemonic text to `Mnemonic`, with every standard alias of the
//! conditional jumps (`JZ`/`JE` and so on), plus the repeat-prefix and
//! no-op directive keywords.
use crate::decoder::spec_condition_from_index;
use crate::decoder::text::{condition_chars, mnemonic_chars};
use crate::isa::{Condition, Mnemonic, Repeat};
use crate::words::{eq_ignore_case, is_word, upper, upper_chars};
use vstd::prelude::*;

verus! {

/// The mnemonic that an upper-cased word names, if any.
pub open spec fn mnemonic_named(u: Seq<char>) -> Option<Mnemonic> {
    if u == "MOV"@ {
        Some(Mnemonic::Mov)
    } else if u == "PUSH"@ {
        Some(Mnemonic::Push)
    } else if u == "POP"@ {
        Some(Mnemonic::Pop)
    } else if u == "XCHG"@ {
        Some(Mnemonic::Xchg)
    } else if u == "LEA"@ {
        Some(Mnemonic::Lea)
    } else if u == "ADD"@ {
        Some(Mnemonic::Add)
    } else if u == "ADC"@ {
        Some(Mnemonic::Adc)
    } else if u == "SUB"@ {
        Some(Mnemonic::Sub)
    } else if u == "SBB"@ {
        Some(Mnemonic::Sbb)
    } else if u == "CMP"@ {
        Some(Mnemonic::Cmp)
    } else if u == "INC"@ {
        Some(Mnemonic::Inc)
    } else if u == "DEC"@ {
        Some(Mnemonic::Dec)
    } else if u == "AND"@ {
        Some(Mnemonic::And)
    } else if u == "OR"@ {
        Some(Mnemonic::Or)
    } else if u == "XOR"@ {
        Some(Mnemonic::Xor)
    } else if u == "TEST"@ {
        Some(Mnemonic::Test)
    } else if u == "JMP"@ {
        Some(Mnemonic::Jmp)
    } else if u == "JO"@ {
        Some(Mnemonic::Jcc(Condition::Overflow))
    } else if u == "JNO"@ {
        Some(Mnemonic::Jcc(Condition::NotOverflow))
    } else if u == "JB"@ {
        Some(Mnemonic::Jcc(Condition::Below))
    } else if u == "JNAE"@ {
        Some(Mnemonic::Jcc(Condition::Below))
    } else if u == "JC"@ {
        Some(Mnemonic::Jcc(Condition::Below))
    } else if u == "JNB"@ {
        Some(Mnemonic::Jcc(Condition::AboveOrEqual))
    } else if u == "JAE"@ {
        Some(Mnemonic::Jcc(Condition::AboveOrEqual))
    } else if u == "JNC"@ {
        Some(Mnemonic::Jcc(Condition::AboveOrEqual))
    } else if u == "JE"@ {
        Some(Mnemonic::Jcc(Condition::Equal))
    } else if u == "JZ"@ {
        Some(Mnemonic::Jcc(Condition::Equal))
    } else if u == "JNE"@ {
        Some(Mnemonic::Jcc(Condition::NotEqual))
    } else if u == "JNZ"@ {
        Some(Mnemonic::Jcc(Condition::NotEqual))
    } else if u == "JBE"@ {
        Some(Mnemonic::Jcc(Condition::BelowOrEqual))
    } else if u == "JNA"@ {
        Some(Mnemonic::Jcc(Condition::BelowOrEqual))
    } else if u == "JA"@ {
        Some(Mnemonic::Jcc(Condition::Above))
    } else if u == "JNBE"@ {
        Some(Mnemonic::Jcc(Condition::Above))
    } else if u == "JS"@ {
        Some(Mnemonic::Jcc(Condition::Sign))
    } else if u == "JNS"@ {
        Some(Mnemonic::Jcc(Condition::NotSign))
    } else if u == "JP"@ {
        Some(Mnemonic::Jcc(Condition::Parity))
    } else if u == "JPE"@ {
        Some(Mnemonic::Jcc(Condition::Parity))
    } else if u == "JNP"@ {
        Some(Mnemonic::Jcc(Condition::NotParity))
    } else if u == "JPO"@ {
        Some(Mnemonic::Jcc(Condition::NotParity))
    } else if u == "JL"@ {
        Some(Mnemonic::Jcc(Condition::Less))
    } else if u == "JNGE"@ {
        Some(Mnemonic::Jcc(Condition::Less))
    } else if u == "JGE"@ {
        Some(Mnemonic::Jcc(Condition::GreaterOrEqual))
    } else if u == "JNL"@ {
        Some(Mnemonic::Jcc(Condition::GreaterOrEqual))
    } else if u == "JLE"@ {
        Some(Mnemonic::Jcc(Condition::LessOrEqual))
    } else if u == "JNG"@ {
        Some(Mnemonic::Jcc(Condition::LessOrEqual))
    } else if u == "JG"@ {
        Some(Mnemonic::Jcc(Condition::Greater))
    } else if u == "JNLE"@ {
        Some(Mnemonic::Jcc(Condition::Greater))
    } else if u == "LOOP"@ {
        Some(Mnemonic::Loop)
    } else if u == "LOOPE"@ {
        Some(Mnemonic::Loope)
    } else if u == "LOOPZ"@ {
        Some(Mnemonic::Loope)
    } else if u == "LOOPNE"@ {
        Some(Mnemonic::Loopne)
    } else if u == "LOOPNZ"@ {
        Some(Mnemonic::Loopne)
    } else if u == "JCXZ"@ {
        Some(Mnemonic::Jcxz)
    } else if u == "CALL"@ {
        Some(Mnemonic::Call)
    } else if u == "RET"@ {
        Some(Mnemonic::Ret)
    } else if u == "RETN"@ {
        Some(Mnemonic::Ret)
    } else if u == "INT"@ {
        Some(Mnemonic::Int)
    } else if u == "INT3"@ {
        Some(Mnemonic::Int3)
    } else if u == "IRET"@ {
        Some(Mnemonic::Iret)
    } else if u == "IRETW"@ {
        Some(Mnemonic::Iret)
    } else if u == "HLT"@ {
        Some(Mnemonic::Hlt)
    } else if u == "NOP"@ {
        Some(Mnemonic::Nop)
    } else if u == "CLC"@ {
        Some(Mnemonic::Clc)
    } else if u == "STC"@ {
        Some(Mnemonic::Stc)
    } else if u == "CMC"@ {
        Some(Mnemonic::Cmc)
    } else if u == "CLD"@ {
        Some(Mnemonic::Cld)
    } else if u == "STD"@ {
        Some(Mnemonic::Std)
    } else if u == "CLI"@ {
        Some(Mnemonic::Cli)
    } else if u == "STI"@ {
        Some(Mnemonic::Sti)
    } else if u == "PUSHF"@ {
        Some(Mnemonic::Pushf)
    } else if u == "POPF"@ {
        Some(Mnemonic::Popf)
    } else if u == "LAHF"@ {
        Some(Mnemonic::Lahf)
    } else if u == "SAHF"@ {
        Some(Mnemonic::Sahf)
    } else if u == "XLAT"@ {
        Some(Mnemonic::Xlat)
    } else if u == "XLATB"@ {
        Some(Mnemonic::Xlat)
    } else if u == "SHL"@ {
        Some(Mnemonic::Shl)
    } else if u == "SAL"@ {
        Some(Mnemonic::Shl)
    } else if u == "SHR"@ {
        Some(Mnemonic::Shr)
    } else if u == "SAR"@ {
        Some(Mnemonic::Sar)
    } else if u == "ROL"@ {
        Some(Mnemonic::Rol)
    } else if u == "ROR"@ {
        Some(Mnemonic::Ror)
    } else if u == "RCL"@ {
        Some(Mnemonic::Rcl)
    } else if u == "RCR"@ {
        Some(Mnemonic::Rcr)
    } else if u == "MUL"@ {
        Some(Mnemonic::Mul)
    } else if u == "IMUL"@ {
        Some(Mnemonic::Imul)
    } else if u == "DIV"@ {
        Some(Mnemonic::Div)
    } else if u == "IDIV"@ {
        Some(Mnemonic::Idiv)
    } else if u == "NEG"@ {
        Some(Mnemonic::Neg)
    } else if u == "NOT"@ {
        Some(Mnemonic::Not)
    } else if u == "MOVSB"@ {
        Some(Mnemonic::Movsb)
    } else if u == "MOVSW"@ {
        Some(Mnemonic::Movsw)
    } else if u == "CMPSB"@ {
        Some(Mnemonic::Cmpsb)
    } else if u == "CMPSW"@ {
        Some(Mnemonic::Cmpsw)
    } else if u == "STOSB"@ {
        Some(Mnemonic::Stosb)
    } else if u == "STOSW"@ {
        Some(Mnemonic::Stosw)
    } else if u == "LODSB"@ {
        Some(Mnemonic::Lodsb)
    } else if u == "LODSW"@ {
        Some(Mnemonic::Lodsw)
    } else if u == "SCASB"@ {
        Some(Mnemonic::Scasb)
    } else if u == "SCASW"@ {
        Some(Mnemonic::Scasw)
    } else {
        None
    }
}

/// The names of the conditional jump with opcode 70h + `k`: every
/// standard alias of its condition (Intel's names for the sixteen
/// opcodes).
pub open spec fn jcc_aliases(k: u8) -> Seq<Seq<char>> {
    match k {
        0 => seq!["JO"@],
        1 => seq!["JNO"@],
        2 => seq!["JB"@, "JNAE"@, "JC"@],
        3 => seq!["JAE"@, "JNB"@, "JNC"@],
        4 => seq!["JE"@, "JZ"@],
        5 => seq!["JNE"@, "JNZ"@],
        6 => seq!["JBE"@, "JNA"@],
        7 => seq!["JA"@, "JNBE"@],
        8 => seq!["JS"@],
        9 => seq!["JNS"@],
        10 => seq!["JP"@, "JPE"@],
        11 => seq!["JNP"@, "JPO"@],
        12 => seq!["JL"@, "JNGE"@],
        13 => seq!["JGE"@, "JNL"@],
        14 => seq!["JLE"@, "JNG"@],
        _ => seq!["JG"@, "JNLE"@],
    }
}

/// Every alias of a conditional jump names the condition the decoder
/// gives its opcode: each name for opcode 70h + `k` looks up to the jump
/// on `spec_condition_from_index(k)`, and so does the name the
/// disassembler prints for that condition.
#[verifier::rlimit(100)]
#[verifier::spinoff_prover]
pub proof fn lemma_jcc_aliases(k: u8, j: int)
    requires
        k < 16,
        0 <= j < jcc_aliases(k).len(),
    ensures
        mnemonic_named(jcc_aliases(k)[j]) == Some(Mnemonic::Jcc(spec_condition_from_index(k))),
        mnemonic_named(condition_chars(spec_condition_from_index(k))) == Some(
            Mnemonic::Jcc(spec_condition_from_index(k)),
        ),
{
    reveal_strlit("MOV");
    assert("MOV"@.len() == 3);
    assert("MOV"@[0] == 'M');
    assert("MOV"@[1] == 'O');
    assert("MOV"@[2] == 'V');
    reveal_strlit("PUSH");
    assert("PUSH"@.len() == 4);
    assert("PUSH"@[0] == 'P');
    assert("PUSH"@[1] == 'U');
    assert("PUSH"@[2] == 'S');
    assert("PUSH"@[3] == 'H');
    reveal_strlit("POP");
    assert("POP"@.len() == 3);
    assert("POP"@[0] == 'P');
    assert("POP"@[1] == 'O');
    assert("POP"@[2] == 'P');
    reveal_strlit("XCHG");
    assert("XCHG"@.len() == 4);
    assert("XCHG"@[0] == 'X');
    assert("XCHG"@[1] == 'C');
    assert("XCHG"@[2] == 'H');
    assert("XCHG"@[3] == 'G');
    reveal_strlit("LEA");
    assert("LEA"@.len() == 3);
    assert("LEA"@[0] == 'L');
    assert("LEA"@[1] == 'E');
    assert("LEA"@[2] == 'A');
    reveal_strlit("ADD");
    assert("ADD"@.len() == 3);
    assert("ADD"@[0] == 'A');
    assert("ADD"@[1] == 'D');
    assert("ADD"@[2] == 'D');
    reveal_strlit("ADC");
    assert("ADC"@.len() == 3);
    assert("ADC"@[0] == 'A');
    assert("ADC"@[1] == 'D');
    assert("ADC"@[2] == 'C');
    reveal_strlit("SUB");
    assert("SUB"@.len() == 3);
    assert("SUB"@[0] == 'S');
    assert("SUB"@[1] == 'U');
    assert("SUB"@[2] == 'B');
    reveal_strlit("SBB");
    assert("SBB"@.len() == 3);
    assert("SBB"@[0] == 'S');
    assert("SBB"@[1] == 'B');
    assert("SBB"@[2] == 'B');
    reveal_strlit("CMP");
    assert("CMP"@.len() == 3);
    assert("CMP"@[0] == 'C');
    assert("CMP"@[1] == 'M');
    assert("CMP"@[2] == 'P');
    reveal_strlit("INC");
    assert("INC"@.len() == 3);
    assert("INC"@[0] == 'I');
    assert("INC"@[1] == 'N');
    assert("INC"@[2] == 'C');
    reveal_strlit("DEC");
    assert("DEC"@.len() == 3);
    assert("DEC"@[0] == 'D');
    assert("DEC"@[1] == 'E');
    assert("DEC"@[2] == 'C');
    reveal_strlit("AND");
    assert("AND"@.len() == 3);
    assert("AND"@[0] == 'A');
    assert("AND"@[1] == 'N');
    assert("AND"@[2] == 'D');
    reveal_strlit("OR");
    assert("OR"@.len() == 2);
    assert("OR"@[0] == 'O');
    assert("OR"@[1] == 'R');
    reveal_strlit("XOR");
    assert("XOR"@.len() == 3);
    assert("XOR"@[0] == 'X');
    assert("XOR"@[1] == 'O');
    assert("XOR"@[2] == 'R');
    reveal_strlit("TEST");
    assert("TEST"@.len() == 4);
    assert("TEST"@[0] == 'T');
    assert("TEST"@[1] == 'E');
    assert("TEST"@[2] == 'S');
    assert("TEST"@[3] == 'T');
    reveal_strlit("JMP");
    assert("JMP"@.len() == 3);
    assert("JMP"@[0] == 'J');
    assert("JMP"@[1] == 'M');
    assert("JMP"@[2] == 'P');
    reveal_strlit("JO");
    assert("JO"@.len() == 2);
    assert("JO"@[0] == 'J');
    assert("JO"@[1] == 'O');
    reveal_strlit("JNO");
    assert("JNO"@.len() == 3);
    assert("JNO"@[0] == 'J');
    assert("JNO"@[1] == 'N');
    assert("JNO"@[2] == 'O');
    reveal_strlit("JB");
    assert("JB"@.len() == 2);
    assert("JB"@[0] == 'J');
    assert("JB"@[1] == 'B');
    reveal_strlit("JNAE");
    assert("JNAE"@.len() == 4);
    assert("JNAE"@[0] == 'J');
    assert("JNAE"@[1] == 'N');
    assert("JNAE"@[2] == 'A');
    assert("JNAE"@[3] == 'E');
    reveal_strlit("JC");
    assert("JC"@.len() == 2);
    assert("JC"@[0] == 'J');
    assert("JC"@[1] == 'C');
    reveal_strlit("JNB");
    assert("JNB"@.len() == 3);
    assert("JNB"@[0] == 'J');
    assert("JNB"@[1] == 'N');
    assert("JNB"@[2] == 'B');
    reveal_strlit("JAE");
    assert("JAE"@.len() == 3);
    assert("JAE"@[0] == 'J');
    assert("JAE"@[1] == 'A');
    assert("JAE"@[2] == 'E');
    reveal_strlit("JNC");
    assert("JNC"@.len() == 3);
    assert("JNC"@[0] == 'J');
    assert("JNC"@[1] == 'N');
    assert("JNC"@[2] == 'C');
    reveal_strlit("JE");
    assert("JE"@.len() == 2);
    assert("JE"@[0] == 'J');
    assert("JE"@[1] == 'E');
    reveal_strlit("JZ");
    assert("JZ"@.len() == 2);
    assert("JZ"@[0] == 'J');
    assert("JZ"@[1] == 'Z');
    reveal_strlit("JNE");
    assert("JNE"@.len() == 3);
    assert("JNE"@[0] == 'J');
    assert("JNE"@[1] == 'N');
    assert("JNE"@[2] == 'E');
    reveal_strlit("JNZ");
    assert("JNZ"@.len() == 3);
    assert("JNZ"@[0] == 'J');
    assert("JNZ"@[1] == 'N');
    assert("JNZ"@[2] == 'Z');
    reveal_strlit("JBE");
    assert("JBE"@.len() == 3);
    assert("JBE"@[0] == 'J');
    assert("JBE"@[1] == 'B');
    assert("JBE"@[2] == 'E');
    reveal_strlit("JNA");
    assert("JNA"@.len() == 3);
    assert("JNA"@[0] == 'J');
    assert("JNA"@[1] == 'N');
    assert("JNA"@[2] == 'A');
    reveal_strlit("JA");
    assert("JA"@.len() == 2);
    assert("JA"@[0] == 'J');
    assert("JA"@[1] == 'A');
    reveal_strlit("JNBE");
    assert("JNBE"@.len() == 4);
    assert("JNBE"@[0] == 'J');
    assert("JNBE"@[1] == 'N');
    assert("JNBE"@[2] == 'B');
    assert("JNBE"@[3] == 'E');
    reveal_strlit("JS");
    assert("JS"@.len() == 2);
    assert("JS"@[0] == 'J');
    assert("JS"@[1] == 'S');
    reveal_strlit("JNS");
    assert("JNS"@.len() == 3);
    assert("JNS"@[0] == 'J');
    assert("JNS"@[1] == 'N');
    assert("JNS"@[2] == 'S');
    reveal_strlit("JP");
    assert("JP"@.len() == 2);
    assert("JP"@[0] == 'J');
    assert("JP"@[1] == 'P');
    reveal_strlit("JPE");
    assert("JPE"@.len() == 3);
    assert("JPE"@[0] == 'J');
    assert("JPE"@[1] == 'P');
    assert("JPE"@[2] == 'E');
    reveal_strlit("JNP");
    assert("JNP"@.len() == 3);
    assert("JNP"@[0] == 'J');
    assert("JNP"@[1] == 'N');
    assert("JNP"@[2] == 'P');
    reveal_strlit("JPO");
    assert("JPO"@.len() == 3);
    assert("JPO"@[0] == 'J');
    assert("JPO"@[1] == 'P');
    assert("JPO"@[2] == 'O');
    reveal_strlit("JL");
    assert("JL"@.len() == 2);
    assert("JL"@[0] == 'J');
    assert("JL"@[1] == 'L');
    reveal_strlit("JNGE");
    assert("JNGE"@.len() == 4);
    assert("JNGE"@[0] == 'J');
    assert("JNGE"@[1] == 'N');
    assert("JNGE"@[2] == 'G');
    assert("JNGE"@[3] == 'E');
    reveal_strlit("JGE");
    assert("JGE"@.len() == 3);
    assert("JGE"@[0] == 'J');
    assert("JGE"@[1] == 'G');
    assert("JGE"@[2] == 'E');
    reveal_strlit("JNL");
    assert("JNL"@.len() == 3);
    assert("JNL"@[0] == 'J');
    assert("JNL"@[1] == 'N');
    assert("JNL"@[2] == 'L');
    reveal_strlit("JLE");
    assert("JLE"@.len() == 3);
    assert("JLE"@[0] == 'J');
    assert("JLE"@[1] == 'L');
    assert("JLE"@[2] == 'E');
    reveal_strlit("JNG");
    assert("JNG"@.len() == 3);
    assert("JNG"@[0] == 'J');
    assert("JNG"@[1] == 'N');
    assert("JNG"@[2] == 'G');
    reveal_strlit("JG");
    assert("JG"@.len() == 2);
    assert("JG"@[0] == 'J');
    assert("JG"@[1] == 'G');
    reveal_strlit("JNLE");
    assert("JNLE"@.len() == 4);
    assert("JNLE"@[0] == 'J');
    assert("JNLE"@[1] == 'N');
    assert("JNLE"@[2] == 'L');
    assert("JNLE"@[3] == 'E');
    if k == 0 {
        assert(mnemonic_named("JO"@) == Some(Mnemonic::Jcc(Condition::Overflow)));
        assert(jcc_aliases(k) == seq!["JO"@]);
    } else if k == 1 {
        assert(mnemonic_named("JNO"@) == Some(Mnemonic::Jcc(Condition::NotOverflow)));
        assert(jcc_aliases(k) == seq!["JNO"@]);
    } else if k == 2 {
        assert(mnemonic_named("JB"@) == Some(Mnemonic::Jcc(Condition::Below)));
        assert(mnemonic_named("JNAE"@) == Some(Mnemonic::Jcc(Condition::Below)));
        assert(mnemonic_named("JC"@) == Some(Mnemonic::Jcc(Condition::Below)));
        assert(jcc_aliases(k) == seq!["JB"@, "JNAE"@, "JC"@]);
    } else if k == 3 {
        assert(mnemonic_named("JAE"@) == Some(Mnemonic::Jcc(Condition::AboveOrEqual)));
        assert(mnemonic_named("JNB"@) == Some(Mnemonic::Jcc(Condition::AboveOrEqual)));
        assert(mnemonic_named("JNC"@) == Some(Mnemonic::Jcc(Condition::AboveOrEqual)));
        assert(jcc_aliases(k) == seq!["JAE"@, "JNB"@, "JNC"@]);
    } else if k == 4 {
        assert(mnemonic_named("JE"@) == Some(Mnemonic::Jcc(Condition::Equal)));
        assert(mnemonic_named("JZ"@) == Some(Mnemonic::Jcc(Condition::Equal)));
        assert(jcc_aliases(k) == seq!["JE"@, "JZ"@]);
    } else if k == 5 {
        assert(mnemonic_named("JNE"@) == Some(Mnemonic::Jcc(Condition::NotEqual)));
        assert(mnemonic_named("JNZ"@) == Some(Mnemonic::Jcc(Condition::NotEqual)));
        assert(jcc_aliases(k) == seq!["JNE"@, "JNZ"@]);
    } else if k == 6 {
        assert(mnemonic_named("JBE"@) == Some(Mnemonic::Jcc(Condition::BelowOrEqual)));
        assert(mnemonic_named("JNA"@) == Some(Mnemonic::Jcc(Condition::BelowOrEqual)));
        assert(jcc_aliases(k) == seq!["JBE"@, "JNA"@]);
    } else if k == 7 {
        assert(mnemonic_named("JA"@) == Some(Mnemonic::Jcc(Condition::Above)));
        assert(mnemonic_named("JNBE"@) == Some(Mnemonic::Jcc(Condition::Above)));
        assert(jcc_aliases(k) == seq!["JA"@, "JNBE"@]);
    } else if k == 8 {
        assert(mnemonic_named("JS"@) == Some(Mnemonic::Jcc(Condition::Sign)));
        assert(jcc_aliases(k) == seq!["JS"@]);
    } else if k == 9 {
        assert(mnemonic_named("JNS"@) == Some(Mnemonic::Jcc(Condition::NotSign)));
        assert(jcc_aliases(k) == seq!["JNS"@]);
    } else if k == 10 {
        assert(mnemonic_named("JP"@) == Some(Mnemonic::Jcc(Condition::Parity)));
        assert(mnemonic_named("JPE"@) == Some(Mnemonic::Jcc(Condition::Parity)));
        assert(jcc_aliases(k) == seq!["JP"@, "JPE"@]);
    } else if k == 11 {
        assert(mnemonic_named("JNP"@) == Some(Mnemonic::Jcc(Condition::NotParity)));
        assert(mnemonic_named("JPO"@) == Some(Mnemonic::Jcc(Condition::NotParity)));
        assert(jcc_aliases(k) == seq!["JNP"@, "JPO"@]);
    } else if k == 12 {
        assert(mnemonic_named("JL"@) == Some(Mnemonic::Jcc(Condition::Less)));
        assert(mnemonic_named("JNGE"@) == Some(Mnemonic::Jcc(Condition::Less)));
        assert(jcc_aliases(k) == seq!["JL"@, "JNGE"@]);
    } else if k == 13 {
        assert(mnemonic_named("JGE"@) == Some(Mnemonic::Jcc(Condition::GreaterOrEqual)));
        assert(mnemonic_named("JNL"@) == Some(Mnemonic::Jcc(Condition::GreaterOrEqual)));
        assert(jcc_aliases(k) == seq!["JGE"@, "JNL"@]);
    } else if k == 14 {
        assert(mnemonic_named("JLE"@) == Some(Mnemonic::Jcc(Condition::LessOrEqual)));
        assert(mnemonic_named("JNG"@) == Some(Mnemonic::Jcc(Condition::LessOrEqual)));
        assert(jcc_aliases(k) == seq!["JLE"@, "JNG"@]);
    } else if k == 15 {
        assert(mnemonic_named("JG"@) == Some(Mnemonic::Jcc(Condition::Greater)));
        assert(mnemonic_named("JNLE"@) == Some(Mnemonic::Jcc(Condition::Greater)));
        assert(jcc_aliases(k) == seq!["JG"@, "JNLE"@]);
    }
}

/// What the disassembler prints as a mnemonic, the assembler reads back
/// as that mnemonic; and each of the assembler's extra spellings (SAL,
/// LOOPZ, LOOPNZ, RETN, IRETW, XLATB) names the same mnemonic as the
/// spelling it stands for.
#[verifier::rlimit(100)]
#[verifier::spinoff_prover]
pub proof fn lemma_mnemonic_text_reads_back(m: Mnemonic)
    ensures
        !(m is Unknown) ==> mnemonic_named(mnemonic_chars(m)) == Some(m),
        mnemonic_named("SAL"@) == mnemonic_named("SHL"@),
        mnemonic_named("LOOPZ"@) == mnemonic_named("LOOPE"@),
        mnemonic_named("LOOPNZ"@) == mnemonic_named("LOOPNE"@),
        mnemonic_named("RETN"@) == mnemonic_named("RET"@),
        mnemonic_named("IRETW"@) == mnemonic_named("IRET"@),
        mnemonic_named("XLATB"@) == mnemonic_named("XLAT"@),
{
    reveal_strlit("INT3");
    assert("INT3"@.len() == 4);
    assert("INT3"@[0] == 'I');
    assert("INT3"@[1] == 'N');
    assert("INT3"@[2] == 'T');
    assert("INT3"@[3] == '3');
    reveal_strlit("MOV");
    assert("MOV"@.len() == 3);
    assert("MOV"@[0] == 'M');
    assert("MOV"@[1] == 'O');
    assert("MOV"@[2] == 'V');
    reveal_strlit("PUSH");
    assert("PUSH"@.len() == 4);
    assert("PUSH"@[0] == 'P');
    assert("PUSH"@[1] == 'U');
    assert("PUSH"@[2] == 'S');
    assert("PUSH"@[3] == 'H');
    reveal_strlit("POP");
    assert("POP"@.len() == 3);
    assert("POP"@[0] == 'P');
    assert("POP"@[1] == 'O');
    assert("POP"@[2] == 'P');
    reveal_strlit("XCHG");
    assert("XCHG"@.len() == 4);
    assert("XCHG"@[0] == 'X');
    assert("XCHG"@[1] == 'C');
    assert("XCHG"@[2] == 'H');
    assert("XCHG"@[3] == 'G');
    reveal_strlit("LEA");
    assert("LEA"@.len() == 3);
    assert("LEA"@[0] == 'L');
    assert("LEA"@[1] == 'E');
    assert("LEA"@[2] == 'A');
    reveal_strlit("ADD");
    assert("ADD"@.len() == 3);
    assert("ADD"@[0] == 'A');
    assert("ADD"@[1] == 'D');
    assert("ADD"@[2] == 'D');
    reveal_strlit("ADC");
    assert("ADC"@.len() == 3);
    assert("ADC"@[0] == 'A');
    assert("ADC"@[1] == 'D');
    assert("ADC"@[2] == 'C');
    reveal_strlit("SUB");
    assert("SUB"@.len() == 3);
    assert("SUB"@[0] == 'S');
    assert("SUB"@[1] == 'U');
    assert("SUB"@[2] == 'B');
    reveal_strlit("SBB");
    assert("SBB"@.len() == 3);
    assert("SBB"@[0] == 'S');
    assert("SBB"@[1] == 'B');
    assert("SBB"@[2] == 'B');
    reveal_strlit("CMP");
    assert("CMP"@.len() == 3);
    assert("CMP"@[0] == 'C');
    assert("CMP"@[1] == 'M');
    assert("CMP"@[2] == 'P');
    reveal_strlit("INC");
    assert("INC"@.len() == 3);
    assert("INC"@[0] == 'I');
    assert("INC"@[1] == 'N');
    assert("INC"@[2] == 'C');
    reveal_strlit("DEC");
    assert("DEC"@.len() == 3);
    assert("DEC"@[0] == 'D');
    assert("DEC"@[1] == 'E');
    assert("DEC"@[2] == 'C');
    reveal_strlit("AND");
    assert("AND"@.len() == 3);
    assert("AND"@[0] == 'A');
    assert("AND"@[1] == 'N');
    assert("AND"@[2] == 'D');
    reveal_strlit("OR");
    assert("OR"@.len() == 2);
    assert("OR"@[0] == 'O');
    assert("OR"@[1] == 'R');
    reveal_strlit("XOR");
    assert("XOR"@.len() == 3);
    assert("XOR"@[0] == 'X');
    assert("XOR"@[1] == 'O');
    assert("XOR"@[2] == 'R');
    reveal_strlit("TEST");
    assert("TEST"@.len() == 4);
    assert("TEST"@[0] == 'T');
    assert("TEST"@[1] == 'E');
    assert("TEST"@[2] == 'S');
    assert("TEST"@[3] == 'T');
    reveal_strlit("JMP");
    assert("JMP"@.len() == 3);
    assert("JMP"@[0] == 'J');
    assert("JMP"@[1] == 'M');
    assert("JMP"@[2] == 'P');
    reveal_strlit("JO");
    assert("JO"@.len() == 2);
    assert("JO"@[0] == 'J');
    assert("JO"@[1] == 'O');
    reveal_strlit("JNO");
    assert("JNO"@.len() == 3);
    assert("JNO"@[0] == 'J');
    assert("JNO"@[1] == 'N');
    assert("JNO"@[2] == 'O');
    reveal_strlit("JB");
    assert("JB"@.len() == 2);
    assert("JB"@[0] == 'J');
    assert("JB"@[1] == 'B');
    reveal_strlit("JNAE");
    assert("JNAE"@.len() == 4);
    assert("JNAE"@[0] == 'J');
    assert("JNAE"@[1] == 'N');
    assert("JNAE"@[2] == 'A');
    assert("JNAE"@[3] == 'E');
    reveal_strlit("JC");
    assert("JC"@.len() == 2);
    assert("JC"@[0] == 'J');
    assert("JC"@[1] == 'C');
    reveal_strlit("JNB");
    assert("JNB"@.len() == 3);
    assert("JNB"@[0] == 'J');
    assert("JNB"@[1] == 'N');
    assert("JNB"@[2] == 'B');
    reveal_strlit("JAE");
    assert("JAE"@.len() == 3);
    assert("JAE"@[0] == 'J');
    assert("JAE"@[1] == 'A');
    assert("JAE"@[2] == 'E');
    reveal_strlit("JNC");
    assert("JNC"@.len() == 3);
    assert("JNC"@[0] == 'J');
    assert("JNC"@[1] == 'N');
    assert("JNC"@[2] == 'C');
    reveal_strlit("JE");
    assert("JE"@.len() == 2);
    assert("JE"@[0] == 'J');
    assert("JE"@[1] == 'E');
    reveal_strlit("JZ");
    assert("JZ"@.len() == 2);
    assert("JZ"@[0] == 'J');
    assert("JZ"@[1] == 'Z');
    reveal_strlit("JNE");
    assert("JNE"@.len() == 3);
    assert("JNE"@[0] == 'J');
    assert("JNE"@[1] == 'N');
    assert("JNE"@[2] == 'E');
    reveal_strlit("JNZ");
    assert("JNZ"@.len() == 3);
    assert("JNZ"@[0] == 'J');
    assert("JNZ"@[1] == 'N');
    assert("JNZ"@[2] == 'Z');
    reveal_strlit("JBE");
    assert("JBE"@.len() == 3);
    assert("JBE"@[0] == 'J');
    assert("JBE"@[1] == 'B');
    assert("JBE"@[2] == 'E');
    reveal_strlit("JNA");
    assert("JNA"@.len() == 3);
    assert("JNA"@[0] == 'J');
    assert("JNA"@[1] == 'N');
    assert("JNA"@[2] == 'A');
    reveal_strlit("JA");
    assert("JA"@.len() == 2);
    assert("JA"@[0] == 'J');
    assert("JA"@[1] == 'A');
    reveal_strlit("JNBE");
    assert("JNBE"@.len() == 4);
    assert("JNBE"@[0] == 'J');
    assert("JNBE"@[1] == 'N');
    assert("JNBE"@[2] == 'B');
    assert("JNBE"@[3] == 'E');
    reveal_strlit("JS");
    assert("JS"@.len() == 2);
    assert("JS"@[0] == 'J');
    assert("JS"@[1] == 'S');
    reveal_strlit("JNS");
    assert("JNS"@.len() == 3);
    assert("JNS"@[0] == 'J');
    assert("JNS"@[1] == 'N');
    assert("JNS"@[2] == 'S');
    reveal_strlit("JP");
    assert("JP"@.len() == 2);
    assert("JP"@[0] == 'J');
    assert("JP"@[1] == 'P');
    reveal_strlit("JPE");
    assert("JPE"@.len() == 3);
    assert("JPE"@[0] == 'J');
    assert("JPE"@[1] == 'P');
    assert("JPE"@[2] == 'E');
    reveal_strlit("JNP");
    assert("JNP"@.len() == 3);
    assert("JNP"@[0] == 'J');
    assert("JNP"@[1] == 'N');
    assert("JNP"@[2] == 'P');
    reveal_strlit("JPO");
    assert("JPO"@.len() == 3);
    assert("JPO"@[0] == 'J');
    assert("JPO"@[1] == 'P');
    assert("JPO"@[2] == 'O');
    reveal_strlit("JL");
    assert("JL"@.len() == 2);
    assert("JL"@[0] == 'J');
    assert("JL"@[1] == 'L');
    reveal_strlit("JNGE");
    assert("JNGE"@.len() == 4);
    assert("JNGE"@[0] == 'J');
    assert("JNGE"@[1] == 'N');
    assert("JNGE"@[2] == 'G');
    assert("JNGE"@[3] == 'E');
    reveal_strlit("JGE");
    assert("JGE"@.len() == 3);
    assert("JGE"@[0] == 'J');
    assert("JGE"@[1] == 'G');
    assert("JGE"@[2] == 'E');
    reveal_strlit("JNL");
    assert("JNL"@.len() == 3);
    assert("JNL"@[0] == 'J');
    assert("JNL"@[1] == 'N');
    assert("JNL"@[2] == 'L');
    reveal_strlit("JLE");
    assert("JLE"@.len() == 3);
    assert("JLE"@[0] == 'J');
    assert("JLE"@[1] == 'L');
    assert("JLE"@[2] == 'E');
    reveal_strlit("JNG");
    assert("JNG"@.len() == 3);
    assert("JNG"@[0] == 'J');
    assert("JNG"@[1] == 'N');
    assert("JNG"@[2] == 'G');
    reveal_strlit("JG");
    assert("JG"@.len() == 2);
    assert("JG"@[0] == 'J');
    assert("JG"@[1] == 'G');
    reveal_strlit("JNLE");
    assert("JNLE"@.len() == 4);
    assert("JNLE"@[0] == 'J');
    assert("JNLE"@[1] == 'N');
    assert("JNLE"@[2] == 'L');
    assert("JNLE"@[3] == 'E');
    reveal_strlit("LOOP");
    assert("LOOP"@.len() == 4);
    assert("LOOP"@[0] == 'L');
    assert("LOOP"@[1] == 'O');
    assert("LOOP"@[2] == 'O');
    assert("LOOP"@[3] == 'P');
    reveal_strlit("LOOPE");
    assert("LOOPE"@.len() == 5);
    assert("LOOPE"@[0] == 'L');
    assert("LOOPE"@[1] == 'O');
    assert("LOOPE"@[2] == 'O');
    assert("LOOPE"@[3] == 'P');
    assert("LOOPE"@[4] == 'E');
    reveal_strlit("LOOPZ");
    assert("LOOPZ"@.len() == 5);
    assert("LOOPZ"@[0] == 'L');
    assert("LOOPZ"@[1] == 'O');
    assert("LOOPZ"@[2] == 'O');
    assert("LOOPZ"@[3] == 'P');
    assert("LOOPZ"@[4] == 'Z');
    reveal_strlit("LOOPNE");
    assert("LOOPNE"@.len() == 6);
    assert("LOOPNE"@[0] == 'L');
    assert("LOOPNE"@[1] == 'O');
    assert("LOOPNE"@[2] == 'O');
    assert("LOOPNE"@[3] == 'P');
    assert("LOOPNE"@[4] == 'N');
    assert("LOOPNE"@[5] == 'E');
    reveal_strlit("LOOPNZ");
    assert("LOOPNZ"@.len() == 6);
    assert("LOOPNZ"@[0] == 'L');
    assert("LOOPNZ"@[1] == 'O');
    assert("LOOPNZ"@[2] == 'O');
    assert("LOOPNZ"@[3] == 'P');
    assert("LOOPNZ"@[4] == 'N');
    assert("LOOPNZ"@[5] == 'Z');
    reveal_strlit("JCXZ");
    assert("JCXZ"@.len() == 4);
    assert("JCXZ"@[0] == 'J');
    assert("JCXZ"@[1] == 'C');
    assert("JCXZ"@[2] == 'X');
    assert("JCXZ"@[3] == 'Z');
    reveal_strlit("CALL");
    assert("CALL"@.len() == 4);
    assert("CALL"@[0] == 'C');
    assert("CALL"@[1] == 'A');
    assert("CALL"@[2] == 'L');
    assert("CALL"@[3] == 'L');
    reveal_strlit("RET");
    assert("RET"@.len() == 3);
    assert("RET"@[0] == 'R');
    assert("RET"@[1] == 'E');
    assert("RET"@[2] == 'T');
    reveal_strlit("RETN");
    assert("RETN"@.len() == 4);
    assert("RETN"@[0] == 'R');
    assert("RETN"@[1] == 'E');
    assert("RETN"@[2] == 'T');
    assert("RETN"@[3] == 'N');
    reveal_strlit("INT");
    assert("INT"@.len() == 3);
    assert("INT"@[0] == 'I');
    assert("INT"@[1] == 'N');
    assert("INT"@[2] == 'T');
    reveal_strlit("IRET");
    assert("IRET"@.len() == 4);
    assert("IRET"@[0] == 'I');
    assert("IRET"@[1] == 'R');
    assert("IRET"@[2] == 'E');
    assert("IRET"@[3] == 'T');
    reveal_strlit("IRETW");
    assert("IRETW"@.len() == 5);
    assert("IRETW"@[0] == 'I');
    assert("IRETW"@[1] == 'R');
    assert("IRETW"@[2] == 'E');
    assert("IRETW"@[3] == 'T');
    assert("IRETW"@[4] == 'W');
    reveal_strlit("HLT");
    assert("HLT"@.len() == 3);
    assert("HLT"@[0] == 'H');
    assert("HLT"@[1] == 'L');
    assert("HLT"@[2] == 'T');
    reveal_strlit("NOP");
    assert("NOP"@.len() == 3);
    assert("NOP"@[0] == 'N');
    assert("NOP"@[1] == 'O');
    assert("NOP"@[2] == 'P');
    reveal_strlit("CLC");
    assert("CLC"@.len() == 3);
    assert("CLC"@[0] == 'C');
    assert("CLC"@[1] == 'L');
    assert("CLC"@[2] == 'C');
    reveal_strlit("STC");
    assert("STC"@.len() == 3);
    assert("STC"@[0] == 'S');
    assert("STC"@[1] == 'T');
    assert("STC"@[2] == 'C');
    reveal_strlit("CMC");
    assert("CMC"@.len() == 3);
    assert("CMC"@[0] == 'C');
    assert("CMC"@[1] == 'M');
    assert("CMC"@[2] == 'C');
    reveal_strlit("CLD");
    assert("CLD"@.len() == 3);
    assert("CLD"@[0] == 'C');
    assert("CLD"@[1] == 'L');
    assert("CLD"@[2] == 'D');
    reveal_strlit("STD");
    assert("STD"@.len() == 3);
    assert("STD"@[0] == 'S');
    assert("STD"@[1] == 'T');
    assert("STD"@[2] == 'D');
    reveal_strlit("CLI");
    assert("CLI"@.len() == 3);
    assert("CLI"@[0] == 'C');
    assert("CLI"@[1] == 'L');
    assert("CLI"@[2] == 'I');
    reveal_strlit("STI");
    assert("STI"@.len() == 3);
    assert("STI"@[0] == 'S');
    assert("STI"@[1] == 'T');
    assert("STI"@[2] == 'I');
    reveal_strlit("PUSHF");
    assert("PUSHF"@.len() == 5);
    assert("PUSHF"@[0] == 'P');
    assert("PUSHF"@[1] == 'U');
    assert("PUSHF"@[2] == 'S');
    assert("PUSHF"@[3] == 'H');
    assert("PUSHF"@[4] == 'F');
    reveal_strlit("POPF");
    assert("POPF"@.len() == 4);
    assert("POPF"@[0] == 'P');
    assert("POPF"@[1] == 'O');
    assert("POPF"@[2] == 'P');
    assert("POPF"@[3] == 'F');
    reveal_strlit("LAHF");
    assert("LAHF"@.len() == 4);
    assert("LAHF"@[0] == 'L');
    assert("LAHF"@[1] == 'A');
    assert("LAHF"@[2] == 'H');
    assert("LAHF"@[3] == 'F');
    reveal_strlit("SAHF");
    assert("SAHF"@.len() == 4);
    assert("SAHF"@[0] == 'S');
    assert("SAHF"@[1] == 'A');
    assert("SAHF"@[2] == 'H');
    assert("SAHF"@[3] == 'F');
    reveal_strlit("XLAT");
    assert("XLAT"@.len() == 4);
    assert("XLAT"@[0] == 'X');
    assert("XLAT"@[1] == 'L');
    assert("XLAT"@[2] == 'A');
    assert("XLAT"@[3] == 'T');
    reveal_strlit("XLATB");
    assert("XLATB"@.len() == 5);
    assert("XLATB"@[0] == 'X');
    assert("XLATB"@[1] == 'L');
    assert("XLATB"@[2] == 'A');
    assert("XLATB"@[3] == 'T');
    assert("XLATB"@[4] == 'B');
    reveal_strlit("SHL");
    assert("SHL"@.len() == 3);
    assert("SHL"@[0] == 'S');
    assert("SHL"@[1] == 'H');
    assert("SHL"@[2] == 'L');
    reveal_strlit("SAL");
    assert("SAL"@.len() == 3);
    assert("SAL"@[0] == 'S');
    assert("SAL"@[1] == 'A');
    assert("SAL"@[2] == 'L');
    reveal_strlit("SHR");
    assert("SHR"@.len() == 3);
    assert("SHR"@[0] == 'S');
    assert("SHR"@[1] == 'H');
    assert("SHR"@[2] == 'R');
    reveal_strlit("SAR");
    assert("SAR"@.len() == 3);
    assert("SAR"@[0] == 'S');
    assert("SAR"@[1] == 'A');
    assert("SAR"@[2] == 'R');
    reveal_strlit("ROL");
    assert("ROL"@.len() == 3);
    assert("ROL"@[0] == 'R');
    assert("ROL"@[1] == 'O');
    assert("ROL"@[2] == 'L');
    reveal_strlit("ROR");
    assert("ROR"@.len() == 3);
    assert("ROR"@[0] == 'R');
    assert("ROR"@[1] == 'O');
    assert("ROR"@[2] == 'R');
    reveal_strlit("RCL");
    assert("RCL"@.len() == 3);
    assert("RCL"@[0] == 'R');
    assert("RCL"@[1] == 'C');
    assert("RCL"@[2] == 'L');
    reveal_strlit("RCR");
    assert("RCR"@.len() == 3);
    assert("RCR"@[0] == 'R');
    assert("RCR"@[1] == 'C');
    assert("RCR"@[2] == 'R');
    reveal_strlit("MUL");
    assert("MUL"@.len() == 3);
    assert("MUL"@[0] == 'M');
    assert("MUL"@[1] == 'U');
    assert("MUL"@[2] == 'L');
    reveal_strlit("IMUL");
    assert("IMUL"@.len() == 4);
    assert("IMUL"@[0] == 'I');
    assert("IMUL"@[1] == 'M');
    assert("IMUL"@[2] == 'U');
    assert("IMUL"@[3] == 'L');
    reveal_strlit("DIV");
    assert("DIV"@.len() == 3);
    assert("DIV"@[0] == 'D');
    assert("DIV"@[1] == 'I');
    assert("DIV"@[2] == 'V');
    reveal_strlit("IDIV");
    assert("IDIV"@.len() == 4);
    assert("IDIV"@[0] == 'I');
    assert("IDIV"@[1] == 'D');
    assert("IDIV"@[2] == 'I');
    assert("IDIV"@[3] == 'V');
    reveal_strlit("NEG");
    assert("NEG"@.len() == 3);
    assert("NEG"@[0] == 'N');
    assert("NEG"@[1] == 'E');
    assert("NEG"@[2] == 'G');
    reveal_strlit("NOT");
    assert("NOT"@.len() == 3);
    assert("NOT"@[0] == 'N');
    assert("NOT"@[1] == 'O');
    assert("NOT"@[2] == 'T');
    reveal_strlit("MOVSB");
    assert("MOVSB"@.len() == 5);
    assert("MOVSB"@[0] == 'M');
    assert("MOVSB"@[1] == 'O');
    assert("MOVSB"@[2] == 'V');
    assert("MOVSB"@[3] == 'S');
    assert("MOVSB"@[4] == 'B');
    reveal_strlit("MOVSW");
    assert("MOVSW"@.len() == 5);
    assert("MOVSW"@[0] == 'M');
    assert("MOVSW"@[1] == 'O');
    assert("MOVSW"@[2] == 'V');
    assert("MOVSW"@[3] == 'S');
    assert("MOVSW"@[4] == 'W');
    reveal_strlit("CMPSB");
    assert("CMPSB"@.len() == 5);
    assert("CMPSB"@[0] == 'C');
    assert("CMPSB"@[1] == 'M');
    assert("CMPSB"@[2] == 'P');
    assert("CMPSB"@[3] == 'S');
    assert("CMPSB"@[4] == 'B');
    reveal_strlit("CMPSW");
    assert("CMPSW"@.len() == 5);
    assert("CMPSW"@[0] == 'C');
    assert("CMPSW"@[1] == 'M');
    assert("CMPSW"@[2] == 'P');
    assert("CMPSW"@[3] == 'S');
    assert("CMPSW"@[4] == 'W');
    reveal_strlit("STOSB");
    assert("STOSB"@.len() == 5);
    assert("STOSB"@[0] == 'S');
    assert("STOSB"@[1] == 'T');
    assert("STOSB"@[2] == 'O');
    assert("STOSB"@[3] == 'S');
    assert("STOSB"@[4] == 'B');
    reveal_strlit("STOSW");
    assert("STOSW"@.len() == 5);
    assert("STOSW"@[0] == 'S');
    assert("STOSW"@[1] == 'T');
    assert("STOSW"@[2] == 'O');
    assert("STOSW"@[3] == 'S');
    assert("STOSW"@[4] == 'W');
    reveal_strlit("LODSB");
    assert("LODSB"@.len() == 5);
    assert("LODSB"@[0] == 'L');
    assert("LODSB"@[1] == 'O');
    assert("LODSB"@[2] == 'D');
    assert("LODSB"@[3] == 'S');
    assert("LODSB"@[4] == 'B');
    reveal_strlit("LODSW");
    assert("LODSW"@.len() == 5);
    assert("LODSW"@[0] == 'L');
    assert("LODSW"@[1] == 'O');
    assert("LODSW"@[2] == 'D');
    assert("LODSW"@[3] == 'S');
    assert("LODSW"@[4] == 'W');
    reveal_strlit("SCASB");
    assert("SCASB"@.len() == 5);
    assert("SCASB"@[0] == 'S');
    assert("SCASB"@[1] == 'C');
    assert("SCASB"@[2] == 'A');
    assert("SCASB"@[3] == 'S');
    assert("SCASB"@[4] == 'B');
    reveal_strlit("SCASW");
    assert("SCASW"@.len() == 5);
    assert("SCASW"@[0] == 'S');
    assert("SCASW"@[1] == 'C');
    assert("SCASW"@[2] == 'A');
    assert("SCASW"@[3] == 'S');
    assert("SCASW"@[4] == 'W');
    assert(mnemonic_named("SAL"@) == mnemonic_named("SHL"@));
    assert(mnemonic_named("LOOPZ"@) == mnemonic_named("LOOPE"@));
    assert(mnemonic_named("LOOPNZ"@) == mnemonic_named("LOOPNE"@));
    assert(mnemonic_named("RETN"@) == mnemonic_named("RET"@));
    assert(mnemonic_named("IRETW"@) == mnemonic_named("IRET"@));
    assert(mnemonic_named("XLATB"@) == mnemonic_named("XLAT"@));
    match m {
        Mnemonic::Mov => {
            assert(mnemonic_named("MOV"@) == Some(Mnemonic::Mov));
        },
        Mnemonic::Push => {
            assert(mnemonic_named("PUSH"@) == Some(Mnemonic::Push));
        },
        Mnemonic::Pop => {
            assert(mnemonic_named("POP"@) == Some(Mnemonic::Pop));
        },
        Mnemonic::Xchg => {
            assert(mnemonic_named("XCHG"@) == Some(Mnemonic::Xchg));
        },
        Mnemonic::Lea => {
            assert(mnemonic_named("LEA"@) == Some(Mnemonic::Lea));
        },
        Mnemonic::Add => {
            assert(mnemonic_named("ADD"@) == Some(Mnemonic::Add));
        },
        Mnemonic::Adc => {
            assert(mnemonic_named("ADC"@) == Some(Mnemonic::Adc));
        },
        Mnemonic::Sub => {
            assert(mnemonic_named("SUB"@) == Some(Mnemonic::Sub));
        },
        Mnemonic::Sbb => {
            assert(mnemonic_named("SBB"@) == Some(Mnemonic::Sbb));
        },
        Mnemonic::Cmp => {
            assert(mnemonic_named("CMP"@) == Some(Mnemonic::Cmp));
        },
        Mnemonic::Inc => {
            assert(mnemonic_named("INC"@) == Some(Mnemonic::Inc));
        },
        Mnemonic::Dec => {
            assert(mnemonic_named("DEC"@) == Some(Mnemonic::Dec));
        },
        Mnemonic::And => {
            assert(mnemonic_named("AND"@) == Some(Mnemonic::And));
        },
        Mnemonic::Or => {
            assert(mnemonic_named("OR"@) == Some(Mnemonic::Or));
        },
        Mnemonic::Xor => {
            assert(mnemonic_named("XOR"@) == Some(Mnemonic::Xor));
        },
        Mnemonic::Test => {
            assert(mnemonic_named("TEST"@) == Some(Mnemonic::Test));
        },
        Mnemonic::Jmp => {
            assert(mnemonic_named("JMP"@) == Some(Mnemonic::Jmp));
        },
        Mnemonic::Loop => {
            assert(mnemonic_named("LOOP"@) == Some(Mnemonic::Loop));
        },
        Mnemonic::Loope => {
            assert(mnemonic_named("LOOPE"@) == Some(Mnemonic::Loope));
        },
        Mnemonic::Loopne => {
            assert(mnemonic_named("LOOPNE"@) == Some(Mnemonic::Loopne));
        },
        Mnemonic::Jcxz => {
            assert(mnemonic_named("JCXZ"@) == Some(Mnemonic::Jcxz));
        },
        Mnemonic::Call => {
            assert(mnemonic_named("CALL"@) == Some(Mnemonic::Call));
        },
        Mnemonic::Ret => {
            assert(mnemonic_named("RET"@) == Some(Mnemonic::Ret));
        },
        Mnemonic::Int => {
            assert(mnemonic_named("INT"@) == Some(Mnemonic::Int));
        },
        Mnemonic::Iret => {
            assert(mnemonic_named("IRET"@) == Some(Mnemonic::Iret));
        },
        Mnemonic::Hlt => {
            assert(mnemonic_named("HLT"@) == Some(Mnemonic::Hlt));
        },
        Mnemonic::Nop => {
            assert(mnemonic_named("NOP"@) == Some(Mnemonic::Nop));
        },
        Mnemonic::Clc => {
            assert(mnemonic_named("CLC"@) == Some(Mnemonic::Clc));
        },
        Mnemonic::Stc => {
            assert(mnemonic_named("STC"@) == Some(Mnemonic::Stc));
        },
        Mnemonic::Cmc => {
            assert(mnemonic_named("CMC"@) == Some(Mnemonic::Cmc));
        },
        Mnemonic::Cld => {
            assert(mnemonic_named("CLD"@) == Some(Mnemonic::Cld));
        },
        Mnemonic::Std => {
            assert(mnemonic_named("STD"@) == Some(Mnemonic::Std));
        },
        Mnemonic::Cli => {
            assert(mnemonic_named("CLI"@) == Some(Mnemonic::Cli));
        },
        Mnemonic::Sti => {
            assert(mnemonic_named("STI"@) == Some(Mnemonic::Sti));
        },
        Mnemonic::Pushf => {
            assert(mnemonic_named("PUSHF"@) == Some(Mnemonic::Pushf));
        },
        Mnemonic::Popf => {
            assert(mnemonic_named("POPF"@) == Some(Mnemonic::Popf));
        },
        Mnemonic::Lahf => {
            assert(mnemonic_named("LAHF"@) == Some(Mnemonic::Lahf));
        },
        Mnemonic::Sahf => {
            assert(mnemonic_named("SAHF"@) == Some(Mnemonic::Sahf));
        },
        Mnemonic::Xlat => {
            assert(mnemonic_named("XLAT"@) == Some(Mnemonic::Xlat));
        },
        Mnemonic::Shl => {
            assert(mnemonic_named("SHL"@) == Some(Mnemonic::Shl));
        },
        Mnemonic::Shr => {
            assert(mnemonic_named("SHR"@) == Some(Mnemonic::Shr));
        },
        Mnemonic::Sar => {
            assert(mnemonic_named("SAR"@) == Some(Mnemonic::Sar));
        },
        Mnemonic::Rol => {
            assert(mnemonic_named("ROL"@) == Some(Mnemonic::Rol));
        },
        Mnemonic::Ror => {
            assert(mnemonic_named("ROR"@) == Some(Mnemonic::Ror));
        },
        Mnemonic::Rcl => {
            assert(mnemonic_named("RCL"@) == Some(Mnemonic::Rcl));
        },
        Mnemonic::Rcr => {
            assert(mnemonic_named("RCR"@) == Some(Mnemonic::Rcr));
        },
        Mnemonic::Mul => {
            assert(mnemonic_named("MUL"@) == Some(Mnemonic::Mul));
        },
        Mnemonic::Imul => {
            assert(mnemonic_named("IMUL"@) == Some(Mnemonic::Imul));
        },
        Mnemonic::Div => {
            assert(mnemonic_named("DIV"@) == Some(Mnemonic::Div));
        },
        Mnemonic::Idiv => {
            assert(mnemonic_named("IDIV"@) == Some(Mnemonic::Idiv));
        },
        Mnemonic::Neg => {
            assert(mnemonic_named("NEG"@) == Some(Mnemonic::Neg));
        },
        Mnemonic::Not => {
            assert(mnemonic_named("NOT"@) == Some(Mnemonic::Not));
        },
        Mnemonic::Movsb => {
            assert(mnemonic_named("MOVSB"@) == Some(Mnemonic::Movsb));
        },
        Mnemonic::Movsw => {
            assert(mnemonic_named("MOVSW"@) == Some(Mnemonic::Movsw));
        },
        Mnemonic::Cmpsb => {
            assert(mnemonic_named("CMPSB"@) == Some(Mnemonic::Cmpsb));
        },
        Mnemonic::Cmpsw => {
            assert(mnemonic_named("CMPSW"@) == Some(Mnemonic::Cmpsw));
        },
        Mnemonic::Stosb => {
            assert(mnemonic_named("STOSB"@) == Some(Mnemonic::Stosb));
        },
        Mnemonic::Stosw => {
            assert(mnemonic_named("STOSW"@) == Some(Mnemonic::Stosw));
        },
        Mnemonic::Lodsb => {
            assert(mnemonic_named("LODSB"@) == Some(Mnemonic::Lodsb));
        },
        Mnemonic::Lodsw => {
            assert(mnemonic_named("LODSW"@) == Some(Mnemonic::Lodsw));
        },
        Mnemonic::Scasb => {
            assert(mnemonic_named("SCASB"@) == Some(Mnemonic::Scasb));
        },
        Mnemonic::Scasw => {
            assert(mnemonic_named("SCASW"@) == Some(Mnemonic::Scasw));
        },
        Mnemonic::Jcc(c) => match c {
            Condition::Overflow => lemma_jcc_aliases(0, 0),
            Condition::NotOverflow => lemma_jcc_aliases(1, 0),
            Condition::Below => lemma_jcc_aliases(2, 0),
            Condition::AboveOrEqual => lemma_jcc_aliases(3, 0),
            Condition::Equal => lemma_jcc_aliases(4, 0),
            Condition::NotEqual => lemma_jcc_aliases(5, 0),
            Condition::BelowOrEqual => lemma_jcc_aliases(6, 0),
            Condition::Above => lemma_jcc_aliases(7, 0),
            Condition::Sign => lemma_jcc_aliases(8, 0),
            Condition::NotSign => lemma_jcc_aliases(9, 0),
            Condition::Parity => lemma_jcc_aliases(10, 0),
            Condition::NotParity => lemma_jcc_aliases(11, 0),
            Condition::Less => lemma_jcc_aliases(12, 0),
            Condition::GreaterOrEqual => lemma_jcc_aliases(13, 0),
            Condition::LessOrEqual => lemma_jcc_aliases(14, 0),
            Condition::Greater => lemma_jcc_aliases(15, 0),
        },
        Mnemonic::Int3 => {
            assert(mnemonic_named("INT3"@) == Some(Mnemonic::Int3));
        },
        Mnemonic::Unknown => {},
    }
}

/// The repeat prefix that an upper-cased word names, if any.
pub open spec fn repeat_named(u: Seq<char>) -> Option<Repeat> {
    if u == "REP"@ {
        Some(Repeat::Rep)
    } else if u == "REPE"@ || u == "REPZ"@ {
        Some(Repeat::Repe)
    } else if u == "REPNE"@ || u == "REPNZ"@ {
        Some(Repeat::Repne)
    } else {
        None
    }
}

/// The structural directives accepted only for source compatibility.
pub open spec fn is_noop_directive(u: Seq<char>) -> bool {
    u == ".MODEL"@ || u == "SEGMENT"@ || u == "ENDS"@ || u == "ASSUME"@ || u == "ENDP"@
}

/// Mnemonic lookup ignores ASCII case: two spellings that differ only in
/// case name the same mnemonic (or none).
pub proof fn lemma_lookup_ignores_case(a: Seq<char>, b: Seq<char>)
    requires
        eq_ignore_case(a, b),
    ensures
        mnemonic_named(upper(a)) == mnemonic_named(upper(b)),
{
}

/// The mnemonic that `text` names, in any ASCII case.
#[verifier::rlimit(50)]
pub fn lookup_mnemonic(text: &str) -> (r: Option<Mnemonic>)
    ensures
        r == mnemonic_named(upper(text@)),
{
    let u = upper_chars(text);
    if is_word(&u, "MOV") {
        Some(Mnemonic::Mov)
    } else if is_word(&u, "PUSH") {
        Some(Mnemonic::Push)
    } else if is_word(&u, "POP") {
        Some(Mnemonic::Pop)
    } else if is_word(&u, "XCHG") {
        Some(Mnemonic::Xchg)
    } else if is_word(&u, "LEA") {
        Some(Mnemonic::Lea)
    } else if is_word(&u, "ADD") {
        Some(Mnemonic::Add)
    } else if is_word(&u, "ADC") {
        Some(Mnemonic::Adc)
    } else if is_word(&u, "SUB") {
        Some(Mnemonic::Sub)
    } else if is_word(&u, "SBB") {
        Some(Mnemonic::Sbb)
    } else if is_word(&u, "CMP") {
        Some(Mnemonic::Cmp)
    } else if is_word(&u, "INC") {
        Some(Mnemonic::Inc)
    } else if is_word(&u, "DEC") {
        Some(Mnemonic::Dec)
    } else if is_word(&u, "AND") {
        Some(Mnemonic::And)
    } else if is_word(&u, "OR") {
        Some(Mnemonic::Or)
    } else if is_word(&u, "XOR") {
        Some(Mnemonic::Xor)
    } else if is_word(&u, "TEST") {
        Some(Mnemonic::Test)
    } else if is_word(&u, "JMP") {
        Some(Mnemonic::Jmp)
    } else if is_word(&u, "JO") {
        Some(Mnemonic::Jcc(Condition::Overflow))
    } else if is_word(&u, "JNO") {
        Some(Mnemonic::Jcc(Condition::NotOverflow))
    } else if is_word(&u, "JB") {
        Some(Mnemonic::Jcc(Condition::Below))
    } else if is_word(&u, "JNAE") {
        Some(Mnemonic::Jcc(Condition::Below))
    } else if is_word(&u, "JC") {
        Some(Mnemonic::Jcc(Condition::Below))
    } else if is_word(&u, "JNB") {
        Some(Mnemonic::Jcc(Condition::AboveOrEqual))
    } else if is_word(&u, "JAE") {
        Some(Mnemonic::Jcc(Condition::AboveOrEqual))
    } else if is_word(&u, "JNC") {
        Some(Mnemonic::Jcc(Condition::AboveOrEqual))
    } else if is_word(&u, "JE") {
        Some(Mnemonic::Jcc(Condition::Equal))
    } else if is_word(&u, "JZ") {
        Some(Mnemonic::Jcc(Condition::Equal))
    } else if is_word(&u, "JNE") {
        Some(Mnemonic::Jcc(Condition::NotEqual))
    } else if is_word(&u, "JNZ") {
        Some(Mnemonic::Jcc(Condition::NotEqual))
    } else if is_word(&u, "JBE") {
        Some(Mnemonic::Jcc(Condition::BelowOrEqual))
    } else if is_word(&u, "JNA") {
        Some(Mnemonic::Jcc(Condition::BelowOrEqual))
    } else if is_word(&u, "JA") {
        Some(Mnemonic::Jcc(Condition::Above))
    } else if is_word(&u, "JNBE") {
        Some(Mnemonic::Jcc(Condition::Above))
    } else if is_word(&u, "JS") {
        Some(Mnemonic::Jcc(Condition::Sign))
    } else if is_word(&u, "JNS") {
        Some(Mnemonic::Jcc(Condition::NotSign))
    } else if is_word(&u, "JP") {
        Some(Mnemonic::Jcc(Condition::Parity))
    } else if is_word(&u, "JPE") {
        Some(Mnemonic::Jcc(Condition::Parity))
    } else if is_word(&u, "JNP") {
        Some(Mnemonic::Jcc(Condition::NotParity))
    } else if is_word(&u, "JPO") {
        Some(Mnemonic::Jcc(Condition::NotParity))
    } else if is_word(&u, "JL") {
        Some(Mnemonic::Jcc(Condition::Less))
    } else if is_word(&u, "JNGE") {
        Some(Mnemonic::Jcc(Condition::Less))
    } else if is_word(&u, "JGE") {
        Some(Mnemonic::Jcc(Condition::GreaterOrEqual))
    } else if is_word(&u, "JNL") {
        Some(Mnemonic::Jcc(Condition::GreaterOrEqual))
    } else if is_word(&u, "JLE") {
        Some(Mnemonic::Jcc(Condition::LessOrEqual))
    } else if is_word(&u, "JNG") {
        Some(Mnemonic::Jcc(Condition::LessOrEqual))
    } else if is_word(&u, "JG") {
        Some(Mnemonic::Jcc(Condition::Greater))
    } else if is_word(&u, "JNLE") {
        Some(Mnemonic::Jcc(Condition::Greater))
    } else if is_word(&u, "LOOP") {
        Some(Mnemonic::Loop)
    } else if is_word(&u, "LOOPE") {
        Some(Mnemonic::Loope)
    } else if is_word(&u, "LOOPZ") {
        Some(Mnemonic::Loope)
    } else if is_word(&u, "LOOPNE") {
        Some(Mnemonic::Loopne)
    } else if is_word(&u, "LOOPNZ") {
        Some(Mnemonic::Loopne)
    } else if is_word(&u, "JCXZ") {
        Some(Mnemonic::Jcxz)
    } else if is_word(&u, "CALL") {
        Some(Mnemonic::Call)
    } else if is_word(&u, "RET") {
        Some(Mnemonic::Ret)
    } else if is_word(&u, "RETN") {
        Some(Mnemonic::Ret)
    } else if is_word(&u, "INT") {
        Some(Mnemonic::Int)
    } else if is_word(&u, "INT3") {
        Some(Mnemonic::Int3)
    } else if is_word(&u, "IRET") {
        Some(Mnemonic::Iret)
    } else if is_word(&u, "IRETW") {
        Some(Mnemonic::Iret)
    } else if is_word(&u, "HLT") {
        Some(Mnemonic::Hlt)
    } else if is_word(&u, "NOP") {
        Some(Mnemonic::Nop)
    } else if is_word(&u, "CLC") {
        Some(Mnemonic::Clc)
    } else if is_word(&u, "STC") {
        Some(Mnemonic::Stc)
    } else if is_word(&u, "CMC") {
        Some(Mnemonic::Cmc)
    } else if is_word(&u, "CLD") {
        Some(Mnemonic::Cld)
    } else if is_word(&u, "STD") {
        Some(Mnemonic::Std)
    } else if is_word(&u, "CLI") {
        Some(Mnemonic::Cli)
    } else if is_word(&u, "STI") {
        Some(Mnemonic::Sti)
    } else if is_word(&u, "PUSHF") {
        Some(Mnemonic::Pushf)
    } else if is_word(&u, "POPF") {
        Some(Mnemonic::Popf)
    } else if is_word(&u, "LAHF") {
        Some(Mnemonic::Lahf)
    } else if is_word(&u, "SAHF") {
        Some(Mnemonic::Sahf)
    } else if is_word(&u, "XLAT") {
        Some(Mnemonic::Xlat)
    } else if is_word(&u, "XLATB") {
        Some(Mnemonic::Xlat)
    } else if is_word(&u, "SHL") {
        Some(Mnemonic::Shl)
    } else if is_word(&u, "SAL") {
        Some(Mnemonic::Shl)
    } else if is_word(&u, "SHR") {
        Some(Mnemonic::Shr)
    } else if is_word(&u, "SAR") {
        Some(Mnemonic::Sar)
    } else if is_word(&u, "ROL") {
        Some(Mnemonic::Rol)
    } else if is_word(&u, "ROR") {
        Some(Mnemonic::Ror)
    } else if is_word(&u, "RCL") {
        Some(Mnemonic::Rcl)
    } else if is_word(&u, "RCR") {
        Some(Mnemonic::Rcr)
    } else if is_word(&u, "MUL") {
        Some(Mnemonic::Mul)
    } else if is_word(&u, "IMUL") {
        Some(Mnemonic::Imul)
    } else if is_word(&u, "DIV") {
        Some(Mnemonic::Div)
    } else if is_word(&u, "IDIV") {
        Some(Mnemonic::Idiv)
    } else if is_word(&u, "NEG") {
        Some(Mnemonic::Neg)
    } else if is_word(&u, "NOT") {
        Some(Mnemonic::Not)
    } else if is_word(&u, "MOVSB") {
        Some(Mnemonic::Movsb)
    } else if is_word(&u, "MOVSW") {
        Some(Mnemonic::Movsw)
    } else if is_word(&u, "CMPSB") {
        Some(Mnemonic::Cmpsb)
    } else if is_word(&u, "CMPSW") {
        Some(Mnemonic::Cmpsw)
    } else if is_word(&u, "STOSB") {
        Some(Mnemonic::Stosb)
    } else if is_word(&u, "STOSW") {
        Some(Mnemonic::Stosw)
    } else if is_word(&u, "LODSB") {
        Some(Mnemonic::Lodsb)
    } else if is_word(&u, "LODSW") {
        Some(Mnemonic::Lodsw)
    } else if is_word(&u, "SCASB") {
        Some(Mnemonic::Scasb)
    } else if is_word(&u, "SCASW") {
        Some(Mnemonic::Scasw)
    } else {
        None
    }
}

/// The string-instruction repeat prefix that `text` names: `REP`,
/// `REPE`/`REPZ` or `REPNE`/`REPNZ`, in any ASCII case.
pub fn lookup_repeat_prefix(text: &str) -> (r: Option<Repeat>)
    ensures
        r == repeat_named(upper(text@)),
{
    let u = upper_chars(text);
    if is_word(&u, "REP") {
        Some(Repeat::Rep)
    } else if is_word(&u, "REPE") || is_word(&u, "REPZ") {
        Some(Repeat::Repe)
    } else if is_word(&u, "REPNE") || is_word(&u, "REPNZ") {
        Some(Repeat::Repne)
    } else {
        None
    }
}

/// Whether `text` is one of `.MODEL`, `SEGMENT`, `ENDS`, `ASSUME`,
/// `ENDP` (any ASCII case).
pub fn is_noop_directive_keyword(text: &str) -> (r: bool)
    ensures
        r == is_noop_directive(upper(text@)),
{
    let u = upper_chars(text);
    is_word(&u, ".MODEL") || is_word(&u, "SEGMENT") || is_word(&u, "ENDS") || is_word(&u, "ASSUME")
        || is_word(&u, "ENDP")
}

} // verus!
