//! The emu8086-syntax lexer: source text to a flat token stream.
//!
//! The lexer works on the source's bytes. It never fails: a character it
//! does not recognise becomes a one-character `Punctuation` token, since a
//! syntax highlighter has to cope with every keystroke.
use crate::textfmt::push_char;
use crate::words::{eq_ignore_case, text_is_ignore_case};
use vstd::prelude::*;
use vstd::string::StringSliceAdditionalSpecFns;

verus! {

#[derive(Debug, Clone, Copy, PartialEq, Eq, Default, Structural)]
pub struct Span {
    pub line: u32,
    pub col: u32,
    pub byte_offset: u32,
    pub len: u32,
}

#[derive(Debug, Clone, Copy, PartialEq, Eq, Structural)]
pub enum TokenKind {
    Identifier,
    Register,
    Number,
    StringLiteral,
    Comment,
    Punctuation,
    Newline,
}

#[derive(Debug, Clone, PartialEq, Eq)]
pub struct Token {
    pub kind: TokenKind,
    pub text: String,
    pub span: Span,
}

/// A token as the lexer sees it: its kind, the byte range `[start, end)`
/// of its text in the source, and the line and column it starts at.
pub type Lexeme = (TokenKind, nat, nat, u32, u32);

pub open spec fn is_ascii_bytes(b: Seq<u8>) -> bool {
    forall|i: int| 0 <= i < b.len() ==> b[i] < 128
}

/// Bytes read one character each.
pub open spec fn byte_chars(b: Seq<u8>) -> Seq<char> {
    b.map_values(|x: u8| x as char)
}

pub open spec fn is_digit(c: u8) -> bool {
    48 <= c <= 57
}

pub open spec fn is_alpha(c: u8) -> bool {
    (65 <= c <= 90) || (97 <= c <= 122)
}

pub open spec fn is_alnum(c: u8) -> bool {
    is_digit(c) || is_alpha(c)
}

/// `char::is_whitespace` of the byte read as a character (newline is
/// handled before this is asked).
pub open spec fn is_space(c: u8) -> bool {
    c == 9 || c == 10 || c == 11 || c == 12 || c == 13 || c == 32 || c == 0x85 || c == 0xA0
}

pub open spec fn is_word_start(c: u8) -> bool {
    is_alpha(c) || c == 95 || c == 46 || c == 64
}

pub open spec fn is_word_continue(c: u8) -> bool {
    is_alnum(c) || c == 95
}

/// The first position at or after `i` holding `stop`, or the end.
pub open spec fn scan_to(b: Seq<u8>, i: int, stop: u8) -> int
    decreases b.len() - i,
{
    if i >= b.len() || b[i] == stop {
        i
    } else {
        scan_to(b, i + 1, stop)
    }
}

/// The first position at or after `i` that does not continue a number.
pub open spec fn scan_alnum(b: Seq<u8>, i: int) -> int
    decreases b.len() - i,
{
    if i >= b.len() || !is_alnum(b[i]) {
        i
    } else {
        scan_alnum(b, i + 1)
    }
}

/// The first position at or after `i` that does not continue a word.
pub open spec fn scan_word(b: Seq<u8>, i: int) -> int
    decreases b.len() - i,
{
    if i >= b.len() || !is_word_continue(b[i]) {
        i
    } else {
        scan_word(b, i + 1)
    }
}

/// How many characters the UTF-8 bytes in `[i, j)` hold: the bytes that
/// are not continuation bytes.
pub open spec fn char_count(b: Seq<u8>, i: int, j: int) -> nat
    decreases j - i,
{
    if i >= j {
        0
    } else {
        char_count(b, i, j - 1) + if (b[j - 1] as int) / 64 == 2 {
            0nat
        } else {
            1nat
        }
    }
}

/// Whether a word names a register (any ASCII case).
pub open spec fn is_register_name(s: Seq<char>) -> bool {
    eq_ignore_case(s, "ax"@) || eq_ignore_case(s, "bx"@) || eq_ignore_case(s, "cx"@)
        || eq_ignore_case(s, "dx"@) || eq_ignore_case(s, "sp"@) || eq_ignore_case(s, "bp"@)
        || eq_ignore_case(s, "si"@) || eq_ignore_case(s, "di"@) || eq_ignore_case(s, "cs"@)
        || eq_ignore_case(s, "ds"@) || eq_ignore_case(s, "es"@) || eq_ignore_case(s, "ss"@)
        || eq_ignore_case(s, "ip"@) || eq_ignore_case(s, "al"@) || eq_ignore_case(s, "ah"@)
        || eq_ignore_case(s, "bl"@) || eq_ignore_case(s, "bh"@) || eq_ignore_case(s, "cl"@)
        || eq_ignore_case(s, "ch"@) || eq_ignore_case(s, "dl"@) || eq_ignore_case(s, "dh"@)
}

/// The lexemes of `b` from position `i` on, the scanner standing at
/// `line`, `col`.
pub open spec fn lex_from(b: Seq<u8>, i: int, line: u32, col: u32) -> Seq<Lexeme>
    decreases b.len() - i,
{
    if i < 0 || i >= b.len() {
        Seq::empty()
    } else {
        let c = b[i];
        if c == 10 {
            seq![(TokenKind::Newline, i as nat, (i + 1) as nat, line, col)] + lex_from(
                b,
                i + 1,
                (line + 1) as u32,
                1,
            )
        } else if is_space(c) {
            lex_from(b, i + 1, line, (col + 1) as u32)
        } else if c == 59 {
            let e = scan_to(b, i, 10);
            if e <= i || e > b.len() {
                Seq::empty()
            } else {
                seq![(TokenKind::Comment, i as nat, e as nat, line, col)] + lex_from(
                    b,
                    e,
                    line,
                    (col + char_count(b, i, e)) as u32,
                )
            }
        } else if c == 34 || c == 39 {
            let close = scan_to(b, i + 1, c);
            let e = if close < b.len() {
                close + 1
            } else {
                close
            };
            if e <= i || e > b.len() {
                Seq::empty()
            } else {
                seq![(TokenKind::StringLiteral, i as nat, e as nat, line, col)] + lex_from(
                    b,
                    e,
                    line,
                    (col + char_count(b, i, e)) as u32,
                )
            }
        } else if is_digit(c) {
            let e = scan_alnum(b, i);
            if e <= i || e > b.len() {
                Seq::empty()
            } else {
                seq![(TokenKind::Number, i as nat, e as nat, line, col)] + lex_from(
                    b,
                    e,
                    line,
                    (col + (e - i)) as u32,
                )
            }
        } else if is_word_start(c) {
            let e = scan_word(b, i + 1);
            if e <= i || e > b.len() {
                Seq::empty()
            } else {
                let kind = if is_register_name(byte_chars(b.subrange(i, e))) {
                    TokenKind::Register
                } else {
                    TokenKind::Identifier
                };
                seq![(kind, i as nat, e as nat, line, col)] + lex_from(
                    b,
                    e,
                    line,
                    (col + (e - i)) as u32,
                )
            }
        } else {
            seq![(TokenKind::Punctuation, i as nat, (i + 1) as nat, line, col)] + lex_from(
                b,
                i + 1,
                line,
                (col + 1) as u32,
            )
        }
    }
}

/// Whether `tok` is the token that `lexeme` describes in `b`: same kind,
/// line, column and byte offset; a length equal to the text's byte
/// length; as its text, the source bytes decoded as `from_utf8_lossy`
/// does, which where they are ASCII is exactly those bytes (a non-ASCII
/// punctuation byte is one character of that code).
pub open spec fn token_matches(tok: Token, lexeme: Lexeme, b: Seq<u8>) -> bool {
    let (kind, start, end, line, col) = lexeme;
    &&& tok.kind == kind
    &&& tok.span.line == line
    &&& tok.span.col == col
    &&& tok.span.byte_offset == start
    &&& (kind == TokenKind::Punctuation ==> tok.text@ == seq![b[start as int] as char])
    &&& (kind != TokenKind::Punctuation && is_ascii_bytes(b.subrange(start as int, end as int))
        ==> tok.text@ == byte_chars(b.subrange(start as int, end as int)))
    &&& (kind != TokenKind::Punctuation && kind != TokenKind::Newline ==> tok.text@ == lossy_text(
        b.subrange(start as int, end as int),
    ))
    &&& tok.span.len == if kind == TokenKind::Punctuation {
        if b[start as int] < 128 {
            1nat
        } else {
            2nat
        }
    } else {
        (end - start) as nat
    }
}

/// The text std's `String::from_utf8_lossy` makes of the bytes: UTF-8
/// decoded, each invalid sequence replaced by U+FFFD.
pub uninterp spec fn lossy_text(bytes: Seq<u8>) -> Seq<char>;

/// The bytes' text, through std's `String::from_utf8_lossy`. Trusted: its
/// contract claims that the result is `lossy_text` of the bytes (a
/// function of the bytes alone), and that ASCII bytes come out as the same
/// characters (ASCII is valid UTF-8, decoded one byte to one character).
#[verifier::external_body]
fn text_from_bytes(bytes: &[u8]) -> (r: String)
    ensures
        r@ == lossy_text(bytes@),
        is_ascii_bytes(bytes@) ==> r@ == byte_chars(bytes@),
{
    String::from_utf8_lossy(bytes).into_owned()
}

fn scan_to_exec(b: &[u8], i: usize, stop: u8) -> (e: usize)
    requires
        i <= b.len(),
    ensures
        e == scan_to(b@, i as int, stop),
        i <= e <= b.len(),
    decreases b.len() - i,
{
    if i >= b.len() || b[i] == stop {
        i
    } else {
        scan_to_exec(b, i + 1, stop)
    }
}

fn scan_alnum_exec(b: &[u8], i: usize) -> (e: usize)
    requires
        i <= b.len(),
    ensures
        e == scan_alnum(b@, i as int),
        i <= e <= b.len(),
    decreases b.len() - i,
{
    if i >= b.len() || !(is_alnum_byte(b[i])) {
        i
    } else {
        scan_alnum_exec(b, i + 1)
    }
}

fn scan_word_exec(b: &[u8], i: usize) -> (e: usize)
    requires
        i <= b.len(),
    ensures
        e == scan_word(b@, i as int),
        i <= e <= b.len(),
    decreases b.len() - i,
{
    if i >= b.len() || !(is_alnum_byte(b[i]) || b[i] == 95) {
        i
    } else {
        scan_word_exec(b, i + 1)
    }
}

fn is_alnum_byte(c: u8) -> (r: bool)
    ensures
        r == is_alnum(c),
{
    (48 <= c && c <= 57) || (65 <= c && c <= 90) || (97 <= c && c <= 122)
}

fn char_count_exec(b: &[u8], i: usize, j: usize) -> (n: u32)
    requires
        i <= j <= b.len(),
        b.len() < u32::MAX,
    ensures
        n == char_count(b@, i as int, j as int),
        n <= j - i,
{
    let mut n: u32 = 0;
    let mut k: usize = i;
    while k < j
        invariant
            i <= k <= j <= b.len(),
            b.len() < u32::MAX,
            n == char_count(b@, i as int, k as int),
            n <= k - i,
        decreases j - k,
    {
        if b[k] / 64 != 2 {
            n = n + 1;
        }
        k = k + 1;
    }
    n
}

/// Whether a word names a register, in any ASCII case.
pub fn register_word(text: &str) -> (r: bool)
    ensures
        r == is_register_name(text@),
{
    text_is_ignore_case(text, "ax") || text_is_ignore_case(text, "bx") || text_is_ignore_case(
        text,
        "cx",
    ) || text_is_ignore_case(text, "dx") || text_is_ignore_case(text, "sp")
        || text_is_ignore_case(text, "bp") || text_is_ignore_case(text, "si")
        || text_is_ignore_case(text, "di") || text_is_ignore_case(text, "cs")
        || text_is_ignore_case(text, "ds") || text_is_ignore_case(text, "es")
        || text_is_ignore_case(text, "ss") || text_is_ignore_case(text, "ip")
        || text_is_ignore_case(text, "al") || text_is_ignore_case(text, "ah")
        || text_is_ignore_case(text, "bl") || text_is_ignore_case(text, "bh")
        || text_is_ignore_case(text, "cl") || text_is_ignore_case(text, "ch")
        || text_is_ignore_case(text, "dl") || text_is_ignore_case(text, "dh")
}

proof fn lemma_scan_to_bounds(b: Seq<u8>, i: int, stop: u8)
    requires
        0 <= i <= b.len(),
    ensures
        i <= scan_to(b, i, stop) <= b.len(),
        i < b.len() && b[i] != stop ==> i < scan_to(b, i, stop),
    decreases b.len() - i,
{
    if i < b.len() && b[i] != stop {
        lemma_scan_to_bounds(b, i + 1, stop);
    }
}

proof fn lemma_ascii_subrange(b: Seq<u8>, i: int, e: int)
    requires
        0 <= i <= e <= b.len(),
        forall|k: int| i <= k < e ==> b[k] < 128,
    ensures
        is_ascii_bytes(b.subrange(i, e)),
{
}

proof fn lemma_scan_word_ascii(b: Seq<u8>, i: int)
    requires
        0 <= i <= b.len(),
    ensures
        forall|k: int| i <= k < scan_word(b, i) ==> b[k] < 128,
        i <= scan_word(b, i) <= b.len(),
    decreases b.len() - i,
{
    if i < b.len() && is_word_continue(b[i]) {
        lemma_scan_word_ascii(b, i + 1);
    }
}

proof fn lemma_scan_alnum_ascii(b: Seq<u8>, i: int)
    requires
        0 <= i <= b.len(),
    ensures
        forall|k: int| i <= k < scan_alnum(b, i) ==> b[k] < 128,
        i <= scan_alnum(b, i) <= b.len(),
    decreases b.len() - i,
{
    if i < b.len() && is_alnum(b[i]) {
        lemma_scan_alnum_ascii(b, i + 1);
    }
}

fn make_token(kind: TokenKind, text: String, line: u32, col: u32, start: usize, len: u32) -> (t:
    Token)
    requires
        start <= u32::MAX,
    ensures
        t.kind == kind,
        t.text == text,
        t.span == (Span { line, col, byte_offset: start as u32, len }),
{
    Token { kind, text, span: Span { line, col, byte_offset: start as u32, len } }
}

proof fn lemma_extend(lexed: Seq<Lexeme>, x: Lexeme, rest: Seq<Lexeme>, whole: Seq<Lexeme>)
    requires
        whole == lexed + (seq![x] + rest),
    ensures
        whole == lexed.push(x) + rest,
{
    assert(lexed + (seq![x] + rest) =~= lexed.push(x) + rest);
}

/// Tokenizes emu8086-syntax source into a flat token stream. Never fails.
pub fn tokenize(source: &str) -> (tokens: Vec<Token>)
    requires
        source.spec_bytes().len() < u32::MAX,
    ensures
        tokens.len() == lex_from(source.spec_bytes(), 0, 1, 1).len(),
        forall|k: int|
            0 <= k < tokens.len() ==> token_matches(
                #[trigger] tokens@[k],
                lex_from(source.spec_bytes(), 0, 1, 1)[k],
                source.spec_bytes(),
            ),
{
    let bytes = source.as_bytes();
    let ghost b = bytes@;
    let mut tokens: Vec<Token> = Vec::new();
    let mut i: usize = 0;
    let mut line: u32 = 1;
    let mut col: u32 = 1;
    let ghost mut lexed: Seq<Lexeme> = Seq::empty();
    assert(lex_from(b, 0, 1, 1) =~= lexed + lex_from(b, 0, 1, 1));
    while i < bytes.len()
        invariant
            b == bytes@,
            b == source.spec_bytes(),
            b.len() < u32::MAX,
            i <= b.len(),
            1 <= line <= i + 1,
            1 <= col <= i + 1,
            lex_from(b, 0, 1, 1) == lexed + lex_from(b, i as int, line, col),
            tokens.len() == lexed.len(),
            forall|k: int|
                0 <= k < tokens.len() ==> token_matches(#[trigger] tokens@[k], lexed[k], b),
        decreases b.len() - i,
    {
        let c = bytes[i];
        let start = i;
        let ghost whole = lex_from(b, 0, 1, 1);
        if c == 10 {
            let mut text = String::new();
            push_char(&mut text, '\n');
            let t = make_token(TokenKind::Newline, text, line, col, start, 1);
            let ghost x = (TokenKind::Newline, i as nat, (i + 1) as nat, line, col);
            proof {
                lemma_extend(lexed, x, lex_from(b, i + 1, (line + 1) as u32, 1), whole);
                assert(b.subrange(i as int, i + 1) =~= seq![10u8]);
                assert(byte_chars(seq![10u8]) =~= seq!['\n']);
            }
            tokens.push(t);
            proof {
                lexed = lexed.push(x);
            }
            i = i + 1;
            line = line + 1;
            col = 1;
        } else if c == 9 || c == 11 || c == 12 || c == 13 || c == 32 || c == 0x85 || c == 0xA0 {
            i = i + 1;
            col = col + 1;
        } else if c == 59 {
            let e = scan_to_exec(bytes, i, 10);
            proof {
                lemma_scan_to_bounds(b, i as int, 10);
            }
            let n = char_count_exec(bytes, i, e);
            let text = text_from_bytes(&bytes[i..e]);
            let t = make_token(TokenKind::Comment, text, line, col, start, (e - i) as u32);
            let ghost x = (TokenKind::Comment, i as nat, e as nat, line, col);
            proof {
                lemma_extend(lexed, x, lex_from(b, e as int, line, (col + n) as u32), whole);
            }
            tokens.push(t);
            proof {
                lexed = lexed.push(x);
            }
            i = e;
            col = col + n;
        } else if c == 34 || c == 39 {
            let close = scan_to_exec(bytes, i + 1, c);
            proof {
                lemma_scan_to_bounds(b, i + 1, c);
            }
            let e = if close < bytes.len() {
                close + 1
            } else {
                close
            };
            let n = char_count_exec(bytes, i, e);
            let text = text_from_bytes(&bytes[i..e]);
            let t = make_token(TokenKind::StringLiteral, text, line, col, start, (e - i) as u32);
            let ghost x = (TokenKind::StringLiteral, i as nat, e as nat, line, col);
            proof {
                lemma_extend(lexed, x, lex_from(b, e as int, line, (col + n) as u32), whole);
            }
            tokens.push(t);
            proof {
                lexed = lexed.push(x);
            }
            i = e;
            col = col + n;
        } else if 48 <= c && c <= 57 {
            let e = scan_alnum_exec(bytes, i);
            proof {
                lemma_scan_alnum_ascii(b, i as int);
                lemma_scan_alnum_ascii(b, i + 1);
                lemma_ascii_subrange(b, i as int, e as int);
            }
            let text = text_from_bytes(&bytes[i..e]);
            let t = make_token(TokenKind::Number, text, line, col, start, (e - i) as u32);
            let ghost x = (TokenKind::Number, i as nat, e as nat, line, col);
            proof {
                lemma_extend(lexed, x, lex_from(b, e as int, line, (col + (e - i)) as u32), whole);
            }
            tokens.push(t);
            proof {
                lexed = lexed.push(x);
            }
            col = col + (e - i) as u32;
            i = e;
        } else if (65 <= c && c <= 90) || (97 <= c && c <= 122) || c == 95 || c == 46 || c == 64 {
            let e = scan_word_exec(bytes, i + 1);
            proof {
                lemma_scan_word_ascii(b, i + 1);
                lemma_ascii_subrange(b, i as int, e as int);
            }
            let text = text_from_bytes(&bytes[i..e]);
            let kind = if register_word(text.as_str()) {
                TokenKind::Register
            } else {
                TokenKind::Identifier
            };
            let t = make_token(kind, text, line, col, start, (e - i) as u32);
            let ghost x = (kind, i as nat, e as nat, line, col);
            proof {
                lemma_extend(lexed, x, lex_from(b, e as int, line, (col + (e - i)) as u32), whole);
            }
            tokens.push(t);
            proof {
                lexed = lexed.push(x);
            }
            col = col + (e - i) as u32;
            i = e;
        } else {
            let mut text = String::new();
            push_char(&mut text, c as char);
            let len: u32 = if c < 128 {
                1
            } else {
                2
            };
            let t = make_token(TokenKind::Punctuation, text, line, col, start, len);
            let ghost x = (TokenKind::Punctuation, i as nat, (i + 1) as nat, line, col);
            proof {
                lemma_extend(lexed, x, lex_from(b, i + 1, line, (col + 1) as u32), whole);
            }
            tokens.push(t);
            proof {
                lexed = lexed.push(x);
            }
            i = i + 1;
            col = col + 1;
        }
    }
    assert(lex_from(b, i as int, line, col) =~= Seq::<Lexeme>::empty());
    assert(lex_from(b, 0, 1, 1) =~= lexed);
    tokens
}

} // verus!
