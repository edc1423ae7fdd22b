//! Numeric literals: MASM/emu8086-style suffixed integers (`0FFh`,
//! `1010b`, `17o`/`17q`, `42d`) and NASM/C-style prefixed ones (`0xFF`,
//! `0b1011`, `0o17`).
use crate::words::{chars_of, upper_char};
use vstd::prelude::*;

verus! {

/// The ASCII lower-case form of one character.
pub open spec fn lower_char(c: char) -> char {
    if 'A' <= c && c <= 'Z' {
        ((c as u32 + 32) as u8) as char
    } else {
        c
    }
}

pub open spec fn lower(s: Seq<char>) -> Seq<char> {
    s.map_values(|c: char| lower_char(c))
}

/// The value of one digit character in the given radix (either case for
/// letters), if it is one.
pub open spec fn digit_value(c: char, radix: nat) -> Option<nat> {
    let v: int = if '0' <= c && c <= '9' {
        c as int - 48
    } else if 'a' <= c && c <= 'z' {
        c as int - 87
    } else if 'A' <= c && c <= 'Z' {
        c as int - 55
    } else {
        99
    };
    if 0 <= v < radix {
        Some(v as nat)
    } else {
        None
    }
}

/// Whether every character is a digit of the radix.
pub open spec fn all_digits(s: Seq<char>, radix: nat) -> bool {
    forall|i: int| 0 <= i < s.len() ==> digit_value(#[trigger] s[i], radix) is Some
}

/// The value of a digit string (most significant first).
pub open spec fn digits_value(s: Seq<char>, radix: nat) -> int
    decreases s.len(),
{
    if s.len() == 0 {
        0
    } else {
        digits_value(s.drop_last(), radix) * radix + digit_value(s.last(), radix).unwrap_or(0)
    }
}

/// `i64::from_str_radix`: an optional `+` or `-`, then one or more digits
/// of the radix, the value fitting in an `i64`.
pub open spec fn from_str_radix(s: Seq<char>, radix: nat) -> Option<i64> {
    let neg = s.len() > 0 && s[0] == '-';
    let signed = s.len() > 0 && (s[0] == '-' || s[0] == '+');
    let digits = if signed {
        s.drop_first()
    } else {
        s
    };
    if digits.len() == 0 || !all_digits(digits, radix) {
        None
    } else {
        let v = if neg {
            -digits_value(digits, radix)
        } else {
            digits_value(digits, radix)
        };
        if i64::MIN <= v <= i64::MAX {
            Some(v as i64)
        } else {
            None
        }
    }
}

/// The `0x`/`0b`/`0o` prefixed reading, when the text has that shape.
pub open spec fn prefixed_value(l: Seq<char>) -> Option<i64> {
    if l.len() > 2 && l[0] == '0' && (l[1] == 'x' || l[1] == 'b' || l[1] == 'o') {
        let radix: nat = if l[1] == 'x' {
            16
        } else if l[1] == 'b' {
            2
        } else {
            8
        };
        from_str_radix(l.subrange(2, l.len() as int), radix)
    } else {
        None
    }
}

/// The value of a numeric literal, or `None` when it is malformed. The
/// prefixed reading is tried first; where it fails, the suffix rules
/// decide (`h` hex, `o`/`q` octal, `b` binary of 0/1 digits only, `d` or
/// none decimal).
pub open spec fn number_value(text: Seq<char>) -> Option<i64> {
    let l = lower(text);
    if prefixed_value(l) is Some {
        prefixed_value(l)
    } else if l.len() > 0 && l.last() == 'h' {
        from_str_radix(l.drop_last(), 16)
    } else if l.len() > 0 && (l.last() == 'o' || l.last() == 'q') {
        from_str_radix(l.drop_last(), 8)
    } else if l.len() > 0 && l.last() == 'b' {
        let d = l.drop_last();
        if d.len() > 0 && (forall|i: int| 0 <= i < d.len() ==> (d[i] == '0' || d[i] == '1')) {
            from_str_radix(d, 2)
        } else {
            None
        }
    } else if l.len() > 0 && l.last() == 'd' {
        from_str_radix(l.drop_last(), 10)
    } else {
        from_str_radix(l, 10)
    }
}

pub fn to_lower_char(c: char) -> (r: char)
    ensures
        r == lower_char(c),
{
    if 'A' <= c && c <= 'Z' {
        ((c as u32 + 32) as u8) as char
    } else {
        c
    }
}

fn digit_of(c: char, radix: u32) -> (r: Option<u32>)
    requires
        2 <= radix <= 36,
    ensures
        r matches Some(v) ==> digit_value(c, radix as nat) == Some(v as nat),
        r is None ==> digit_value(c, radix as nat) is None,
{
    let v: u32 = if '0' <= c && c <= '9' {
        c as u32 - 48
    } else if 'a' <= c && c <= 'z' {
        c as u32 - 87
    } else if 'A' <= c && c <= 'Z' {
        c as u32 - 55
    } else {
        99
    };
    if v < radix {
        Some(v)
    } else {
        None
    }
}

pub proof fn lemma_digits_value_nonneg(s: Seq<char>, radix: nat)
    ensures
        digits_value(s, radix) >= 0,
    decreases s.len(),
{
    if s.len() > 0 {
        lemma_digits_value_nonneg(s.drop_last(), radix);
        assert(digits_value(s.drop_last(), radix) * radix >= 0) by (nonlinear_arith)
            requires
                digits_value(s.drop_last(), radix) >= 0,
        ;
    }
}

pub proof fn lemma_digits_value_monotone(s: Seq<char>, radix: nat, k: int)
    requires
        0 <= k <= s.len(),
        radix >= 2,
    ensures
        digits_value(s.take(k), radix) <= digits_value(s, radix),
    decreases s.len(),
{
    if k < s.len() {
        assert(s.drop_last().take(k) =~= s.take(k));
        lemma_digits_value_monotone(s.drop_last(), radix, k);
        lemma_digits_value_nonneg(s.drop_last(), radix);
        let p = digits_value(s.drop_last(), radix);
        assert(p <= p * radix) by (nonlinear_arith)
            requires
                p >= 0,
                radix >= 2,
        ;
    } else {
        assert(s.take(k) =~= s);
    }
}

/// `i64::from_str_radix` on a character sequence.
pub fn parse_radix(s: &Vec<char>, from: usize, radix: u32) -> (r: Option<i64>)
    requires
        from <= s.len(),
        2 <= radix <= 36,
    ensures
        r == from_str_radix(s@.subrange(from as int, s.len() as int), radix as nat),
{
    let ghost t = s@.subrange(from as int, s.len() as int);
    let mut i = from;
    let mut neg = false;
    if i < s.len() && (s[i] == '-' || s[i] == '+') {
        neg = s[i] == '-';
        i = i + 1;
    }
    let ghost digits = s@.subrange(i as int, s.len() as int);
    assert(digits =~= if t.len() > 0 && (t[0] == '-' || t[0] == '+') {
        t.drop_first()
    } else {
        t
    });
    if i >= s.len() {
        return None;
    }
    let mut acc: u64 = 0;
    let start = i;
    while i < s.len()
        invariant
            start <= i <= s.len(),
            t == s@.subrange(from as int, s.len() as int),
            digits == s@.subrange(start as int, s.len() as int),
            digits == if t.len() > 0 && (t[0] == '-' || t[0] == '+') {
                t.drop_first()
            } else {
                t
            },
            neg == (t.len() > 0 && t[0] == '-'),
            digits.len() > 0,
            2 <= radix <= 36,
            acc == digits_value(digits.take(i - start), radix as nat),
            all_digits(digits.take(i - start), radix as nat),
        decreases s.len() - i,
    {
        let ghost k = i - start;
        assert(digits.take(k + 1).drop_last() =~= digits.take(k));
        assert(digits.take(k + 1).last() == s@[i as int]);
        match digit_of(s[i], radix) {
            None => {
                assert(!all_digits(digits, radix as nat)) by {
                    assert(digits[k] == s@[i as int]);
                }
                return None;
            },
            Some(d) => {
                let next = acc.checked_mul(radix as u64);
                match next {
                    None => {
                        proof {
                            lemma_digits_value_monotone(digits, radix as nat, k + 1);
                            lemma_digits_value_nonneg(digits.take(k), radix as nat);
                        }
                        return None;
                    },
                    Some(m) => {
                        match m.checked_add(d as u64) {
                            None => {
                                proof {
                                    lemma_digits_value_monotone(digits, radix as nat, k + 1);
                                }
                                return None;
                            },
                            Some(v) => {
                                acc = v;
                            },
                        }
                    },
                }
            },
        }
        assert(all_digits(digits.take(k + 1), radix as nat)) by {
            assert forall|j: int| 0 <= j < k + 1 implies digit_value(
                #[trigger] digits.take(k + 1)[j],
                radix as nat,
            ) is Some by {
                if j < k {
                    assert(digits.take(k + 1)[j] == digits.take(k)[j]);
                }
            }
        }
        i = i + 1;
    }
    assert(digits.take(i - start) =~= digits);
    if neg {
        if acc <= 9223372036854775808u64 {
            let v: i128 = 0i128 - acc as i128;
            Some(v as i64)
        } else {
            None
        }
    } else {
        if acc <= 9223372036854775807u64 {
            Some(acc as i64)
        } else {
            None
        }
    }
}

/// Parses an integer literal in either dialect's notation; `None` for
/// malformed text.
pub fn parse_number(text: &str) -> (r: Option<i64>)
    ensures
        r == number_value(text@),
{
    let raw = chars_of(text);
    let mut l: Vec<char> = Vec::new();
    let mut i: usize = 0;
    while i < raw.len()
        invariant
            i <= raw.len(),
            l@ == lower(raw@.take(i as int)),
        decreases raw.len() - i,
    {
        l.push(to_lower_char(raw[i]));
        i = i + 1;
        assert(l@ =~= lower(raw@.take(i as int)));
    }
    assert(raw@.take(i as int) =~= raw@);
    assert(l@ == lower(text@));
    let n = l.len();
    if let Some(v) = parse_prefixed(&l) {
        return Some(v);
    }
    if n == 0 {
        return match parse_radix(&l, 0, 10) {
            r => r,
        };
    }
    let last = l[n - 1];
    let mut body: Vec<char> = l.clone();
    body.pop();
    assert(body@ =~= l@.drop_last());
    assert(body@.subrange(0, body.len() as int) =~= body@);
    if last == 'h' {
        parse_radix(&body, 0, 16)
    } else if last == 'o' || last == 'q' {
        parse_radix(&body, 0, 8)
    } else if last == 'b' {
        if body.len() == 0 {
            return None;
        }
        let mut j: usize = 0;
        while j < body.len()
            invariant
                j <= body.len(),
                body@ == l@.drop_last(),
                l@ == lower(text@),
                l@.len() > 0,
                l@.last() == 'b',
                prefixed_value(l@) is None,
                forall|k: int| 0 <= k < j ==> (body@[k] == '0' || body@[k] == '1'),
            decreases body.len() - j,
        {
            if body[j] != '0' && body[j] != '1' {
                assert(l@.drop_last()[j as int] == body@[j as int]);
                return None;
            }
            j = j + 1;
        }
        parse_radix(&body, 0, 2)
    } else if last == 'd' {
        parse_radix(&body, 0, 10)
    } else {
        assert(l@.subrange(0, n as int) =~= l@);
        parse_radix(&l, 0, 10)
    }
}

/// The `0x`/`0b`/`0o` prefixed reading.
fn parse_prefixed(l: &Vec<char>) -> (r: Option<i64>)
    ensures
        r == prefixed_value(l@),
{
    if l.len() > 2 && l[0] == '0' && (l[1] == 'x' || l[1] == 'b' || l[1] == 'o') {
        let radix: u32 = if l[1] == 'x' {
            16
        } else if l[1] == 'b' {
            2
        } else {
            8
        };
        parse_radix(l, 2, radix)
    } else {
        None
    }
}

} // verus!
