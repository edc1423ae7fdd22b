//! Simulated BIOS/DOS interrupt services, emu8086-style.
//!
//! Programs never run under a real DOS: these interrupt numbers are
//! intercepted and their effect (console output, keyboard input) is
//! simulated directly. `IoSink` is that simulation boundary.
//!
//! Covered: INT 21h AH=01h/02h/09h (console I/O), AH=0Ah (buffered line
//! input) and AH=4Ch (terminate), INT 10h AH=0Eh (teletype output) and
//! AH=13h (write string), INT 16h AH=00h (keystroke read) and INT 20h
//! (terminate). A keyboard read that finds no key reports
//! `NeedsKeyboardInput`; the caller supplies a key and dispatches the
//! same interrupt again.
//!
//! What each service does is `service_effect`, a function of the
//! registers, the memory, the keystroke on offer and whether this is the
//! first dispatch. `complete_service` computes it; `handle_interrupt`
//! runs it against an `IoSink`, asking the sink for a key only when the
//! service reads one and handing it the text the service prints.
pub mod cp437;

use crate::cpu::Registers;
use crate::memory::{
    lemma_undo_preserved_refl, lemma_undo_preserved_trans, phys, spec_resolve, undo_preserved,
    Memory, MEMORY_SIZE,
};
use crate::textfmt::push_char;
use cp437::{cp437_char, to_char};
use vstd::prelude::*;

verus! {

/// Where console output goes and keystrokes come from.
pub trait IoSink {
    fn console_write(&mut self, text: &str);

    fn console_clear(&mut self);

    /// The next available keystroke as `(scancode, ascii)`, or `None` if
    /// none has been supplied yet. A poll, not a block.
    fn read_key(&mut self) -> Option<(u8, u8)>;
}

#[derive(Debug, Clone, Copy, PartialEq, Eq, Structural)]
pub enum InterruptOutcome {
    Continue,
    Terminate { exit_code: u8 },
    /// A keyboard-read service found no key. The caller must dispatch the
    /// same interrupt again once a key has been supplied.
    NeedsKeyboardInput,
}

/// AH, the service selector.
pub open spec fn ah_of(regs: Registers) -> u8 {
    (regs.ax / 256) as u8
}

/// AL.
pub open spec fn al_of(regs: Registers) -> u8 {
    (regs.ax % 256) as u8
}

/// Whether the service selected by `number` and AH consumes a keystroke:
/// INT 16h AH=00h, INT 21h AH=01h and AH=0Ah.
pub open spec fn reads_key(number: u8, ax: u16) -> bool {
    let ah = ax / 256;
    (number == 0x16 && ah == 0) || (number == 0x21 && (ah == 1 || ah == 0x0A))
}

/// The offset from `address` of the first '$' byte, scanning forward
/// from offset `k` (addresses wrap at 1MB); `MEMORY_SIZE` when no byte of
/// memory is a '$'.
pub open spec fn dollar_offset(mem: Seq<u8>, address: int, k: nat) -> nat
    decreases MEMORY_SIZE - k,
{
    if k >= MEMORY_SIZE {
        MEMORY_SIZE as nat
    } else if mem[phys(address + k)] == 36 {
        k
    } else {
        dollar_offset(mem, address, k + 1)
    }
}

/// The text INT 21h AH=09h prints: the bytes from `address` up to (not
/// including) the first '$', as code page 437 characters.
pub open spec fn dollar_text(mem: Seq<u8>, address: int) -> Seq<char> {
    Seq::new(dollar_offset(mem, address, 0), |i: int| cp437_char(mem[phys(address + i)]))
}

/// The text INT 10h AH=13h prints: CX characters from ES:BP, stepping
/// over an attribute byte after each one when AL is 2 or 3.
pub open spec fn counted_text(regs: Registers, mem: Seq<u8>) -> Seq<char> {
    let stride: int = if al_of(regs) == 2 || al_of(regs) == 3 {
        2
    } else {
        1
    };
    let base = spec_resolve(regs.es, regs.bp) as int;
    Seq::new(regs.cx as nat, |i: int| cp437_char(mem[phys(base + i * stride)]))
}

/// One service's effect: the registers and memory after it, its outcome,
/// and the text it prints (`None` when it prints nothing).
pub type ServiceEffect = (Registers, Seq<u8>, InterruptOutcome, Option<Seq<char>>);

/// INT 10h: video services.
pub open spec fn video_effect(regs: Registers, mem: Seq<u8>) -> ServiceEffect {
    if ah_of(regs) == 0x0E {
        (regs, mem, InterruptOutcome::Continue, Some(seq![cp437_char(al_of(regs))]))
    } else if ah_of(regs) == 0x13 {
        (regs, mem, InterruptOutcome::Continue, Some(counted_text(regs, mem)))
    } else {
        (regs, mem, InterruptOutcome::Continue, None)
    }
}

/// INT 10h AH=13h prints CX characters from ES:BP. With AL = 2 or 3 the
/// string is character/attribute pairs, so the i-th character printed is
/// that of the byte at ES:BP + 2i; with AL = 0 or 1 the string is plain
/// characters, the i-th at ES:BP + i. The registers and memory stay as
/// they are.
pub proof fn lemma_write_string_layout(
    regs: Registers,
    mem: Seq<u8>,
    key: Option<(u8, u8)>,
    first_attempt: bool,
    i: int,
)
    requires
        regs.ax / 256 == 0x13,
        0 <= i < regs.cx,
    ensures
        ({
            let e = service_effect(0x10, regs, mem, key, first_attempt);
            let base = (regs.es as int * 16 + regs.bp as int) % 0x10_0000;
            let al = regs.ax % 256;
            &&& e.0 == regs
            &&& e.1 == mem
            &&& e.2 == InterruptOutcome::Continue
            &&& e.3 is Some
            &&& e.3->0.len() == regs.cx
            &&& (al == 2 || al == 3) ==> e.3->0[i] == cp437_char(mem[(base + 2 * i) % 0x10_0000])
            &&& (al == 0 || al == 1) ==> e.3->0[i] == cp437_char(mem[(base + i) % 0x10_0000])
        }),
{
}

/// INT 16h: keyboard services. AH=00h puts the scancode in AH and the
/// ASCII code in AL.
pub open spec fn keyboard_effect(regs: Registers, mem: Seq<u8>, key: Option<(u8, u8)>) -> ServiceEffect {
    if ah_of(regs) == 0 {
        match key {
            Some((scancode, ascii)) => (
                Registers { ax: (scancode * 256 + ascii) as u16, ..regs },
                mem,
                InterruptOutcome::Continue,
                None,
            ),
            None => (regs, mem, InterruptOutcome::NeedsKeyboardInput, None),
        }
    } else {
        (regs, mem, InterruptOutcome::Continue, None)
    }
}

/// INT 21h AH=0Ah, one keystroke of it. The buffer at DS:DX holds the
/// maximum length in byte 0, the count typed so far in byte 1 (reset on
/// the first dispatch) and the characters from byte 2 on. Enter ends the
/// line; backspace takes back one character; a zero byte or a key past
/// the maximum is ignored.
pub open spec fn buffered_input_effect(
    regs: Registers,
    mem: Seq<u8>,
    key: Option<(u8, u8)>,
    first_attempt: bool,
) -> ServiceEffect {
    let base = spec_resolve(regs.ds, regs.dx) as int;
    let max_len = mem[phys(base)];
    let mem1 = if first_attempt {
        mem.update(phys(base + 1), 0u8)
    } else {
        mem
    };
    let count = mem1[phys(base + 1)];
    match key {
        None => (regs, mem1, InterruptOutcome::NeedsKeyboardInput, None),
        Some((_, ascii)) => if ascii == 13 {
            (regs, mem1, InterruptOutcome::Continue, Some(seq!['\r', '\n']))
        } else if ascii == 8 && count > 0 {
            (
                regs,
                mem1.update(phys(base + 1), (count - 1) as u8),
                InterruptOutcome::NeedsKeyboardInput,
                None,
            )
        } else if ascii != 8 && ascii != 0 && count < max_len {
            (
                regs,
                mem1.update(phys(base + 2 + count), ascii).update(phys(base + 1), (count + 1) as u8),
                InterruptOutcome::NeedsKeyboardInput,
                Some(seq![cp437_char(ascii)]),
            )
        } else {
            (regs, mem1, InterruptOutcome::NeedsKeyboardInput, None)
        },
    }
}

/// INT 21h: DOS services.
pub open spec fn dos_effect(
    regs: Registers,
    mem: Seq<u8>,
    key: Option<(u8, u8)>,
    first_attempt: bool,
) -> ServiceEffect {
    let ah = ah_of(regs);
    if ah == 0x01 {
        match key {
            Some((_, ascii)) => (
                Registers { ax: (ah_of(regs) * 256 + ascii) as u16, ..regs },
                mem,
                InterruptOutcome::Continue,
                Some(seq![cp437_char(ascii)]),
            ),
            None => (regs, mem, InterruptOutcome::NeedsKeyboardInput, None),
        }
    } else if ah == 0x02 {
        (regs, mem, InterruptOutcome::Continue, Some(seq![cp437_char((regs.dx % 256) as u8)]))
    } else if ah == 0x09 {
        (
            regs,
            mem,
            InterruptOutcome::Continue,
            Some(dollar_text(mem, spec_resolve(regs.ds, regs.dx) as int)),
        )
    } else if ah == 0x0A {
        buffered_input_effect(regs, mem, key, first_attempt)
    } else if ah == 0x4C {
        (regs, mem, InterruptOutcome::Terminate { exit_code: al_of(regs) }, None)
    } else {
        (regs, mem, InterruptOutcome::Continue, None)
    }
}

/// What dispatching interrupt `number` does, given the keystroke on offer
/// (consulted only by the services that read one) and whether this is the
/// first dispatch of this interrupt instruction.
pub open spec fn service_effect(
    number: u8,
    regs: Registers,
    mem: Seq<u8>,
    key: Option<(u8, u8)>,
    first_attempt: bool,
) -> ServiceEffect {
    if number == 0x10 {
        video_effect(regs, mem)
    } else if number == 0x16 {
        keyboard_effect(regs, mem, key)
    } else if number == 0x20 {
        (regs, mem, InterruptOutcome::Terminate { exit_code: 0 }, None)
    } else if number == 0x21 {
        dos_effect(regs, mem, key, first_attempt)
    } else {
        (regs, mem, InterruptOutcome::Continue, None)
    }
}

/// The view of an optional piece of text.
pub open spec fn text_view(t: Option<String>) -> Option<Seq<char>> {
    match t {
        Some(s) => Some(s@),
        None => None,
    }
}

/// Whether the service selected by `number` and AX consumes a keystroke.
pub fn service_reads_key(number: u8, ax: u16) -> (r: bool)
    ensures
        r == reads_key(number, ax),
{
    let ah = ax / 256;
    (number == 0x16 && ah == 0) || (number == 0x21 && (ah == 1 || ah == 0x0A))
}

/// The '$'-terminated string at `address` (at most all of memory once).
fn read_dollar_string(memory: &Memory, address: u32) -> (text: String)
    requires
        address < MEMORY_SIZE,
    ensures
        text@ == dollar_text(memory@, address as int),
{
    let mut text = String::new();
    let mut k: u32 = 0;
    let ghost mem = memory@;
    let ghost a = address as int;
    while k < MEMORY_SIZE as u32
        invariant
            mem == memory@,
            a == address,
            address < MEMORY_SIZE,
            k <= MEMORY_SIZE,
            dollar_offset(mem, a, 0) == dollar_offset(mem, a, k as nat),
            text@ == Seq::new(k as nat, |i: int| cp437_char(mem[phys(a + i)])),
        decreases MEMORY_SIZE - k,
    {
        let byte = memory.read_u8(address + k);
        if byte == 36 {
            assert(dollar_offset(mem, a, k as nat) == k);
            assert(text@ =~= dollar_text(mem, a));
            return text;
        }
        let c = to_char(byte);
        let ghost before = text@;
        push_char(&mut text, c);
        assert(text@ =~= Seq::new((k + 1) as nat, |i: int| cp437_char(mem[phys(a + i)])));
        k = k + 1;
    }
    assert(dollar_offset(mem, a, k as nat) == MEMORY_SIZE);
    assert(text@ =~= dollar_text(mem, a));
    text
}

/// INT 10h AH=13h's text: CX characters from ES:BP.
fn read_counted_string(regs: &Registers, memory: &Memory) -> (text: String)
    ensures
        text@ == counted_text(*regs, memory@),
{
    let al = regs.ax % 256;
    let stride: u32 = if al == 2 || al == 3 {
        2
    } else {
        1
    };
    let base = Memory::resolve(regs.es, regs.bp);
    let ghost mem = memory@;
    let mut text = String::new();
    let mut index: u16 = 0;
    while index < regs.cx
        invariant
            mem == memory@,
            index <= regs.cx,
            base == spec_resolve(regs.es, regs.bp),
            base < MEMORY_SIZE,
            stride == (if (regs.ax % 256) as u8 == 2 || (regs.ax % 256) as u8 == 3 {
                2int
            } else {
                1int
            }),
            text@ == Seq::new(
                index as nat,
                |i: int| cp437_char(mem[phys(base + i * stride)]),
            ),
        decreases regs.cx - index,
    {
        let offset = (index as u32) * stride;
        let byte = memory.read_u8(base + offset);
        push_char(&mut text, to_char(byte));
        assert(text@ =~= Seq::new(
            (index + 1) as nat,
            |i: int| cp437_char(mem[phys(base + i * stride)]),
        ));
        index = index + 1;
    }
    assert(text@ =~= counted_text(*regs, mem));
    text
}

/// A one-character string.
fn char_text(c: char) -> (s: String)
    ensures
        s@ == seq![c],
{
    let mut s = String::new();
    push_char(&mut s, c);
    assert(s@ =~= seq![c]);
    s
}

/// INT 21h AH=0Ah, one keystroke of it.
fn buffered_input(
    regs: &Registers,
    memory: &mut Memory,
    key: Option<(u8, u8)>,
    first_attempt: bool,
) -> (r: (InterruptOutcome, Option<String>))
    ensures
        (*regs, final(memory)@, r.0, text_view(r.1)) == buffered_input_effect(
            *regs,
            old(memory)@,
            key,
            first_attempt,
        ),
        undo_preserved(old(memory), final(memory)),
{
    proof {
        lemma_undo_preserved_refl(memory);
    }
    let base = Memory::resolve(regs.ds, regs.dx);
    let max_len = memory.read_u8(base);
    if first_attempt {
        let ghost m0 = *memory;
        memory.write_u8(base + 1, 0);
        proof {
            lemma_undo_preserved_trans(old(memory), &m0, memory);
        }
    }
    let ghost m1 = *memory;
    let count = memory.read_u8(base + 1);
    match key {
        None => (InterruptOutcome::NeedsKeyboardInput, None),
        Some((_, ascii)) => {
            if ascii == 13 {
                let mut s = String::new();
                push_char(&mut s, '\r');
                push_char(&mut s, '\n');
                assert(s@ =~= seq!['\r', '\n']);
                (InterruptOutcome::Continue, Some(s))
            } else if ascii == 8 && count > 0 {
                memory.write_u8(base + 1, count - 1);
                proof {
                    lemma_undo_preserved_trans(old(memory), &m1, memory);
                }
                (InterruptOutcome::NeedsKeyboardInput, None)
            } else if ascii != 8 && ascii != 0 && count < max_len {
                memory.write_u8(base + 2 + count as u32, ascii);
                let ghost m2 = *memory;
                proof {
                    lemma_undo_preserved_trans(old(memory), &m1, &m2);
                }
                memory.write_u8(base + 1, count + 1);
                proof {
                    lemma_undo_preserved_trans(old(memory), &m2, memory);
                }
                (InterruptOutcome::NeedsKeyboardInput, Some(char_text(to_char(ascii))))
            } else {
                (InterruptOutcome::NeedsKeyboardInput, None)
            }
        },
    }
}

/// Line input never stores more characters than the buffer allows: when
/// the count in byte 1 is within the maximum in byte 0 before a keystroke
/// (or this is the first dispatch, which resets it), it still is after.
pub proof fn lemma_buffered_count_within_max(
    regs: Registers,
    mem: Seq<u8>,
    key: Option<(u8, u8)>,
    first_attempt: bool,
)
    requires
        mem.len() == MEMORY_SIZE,
        first_attempt || mem[phys(spec_resolve(regs.ds, regs.dx) + 1)] <= mem[phys(
            spec_resolve(regs.ds, regs.dx) as int,
        )],
    ensures
        ({
            let base = spec_resolve(regs.ds, regs.dx) as int;
            let after = buffered_input_effect(regs, mem, key, first_attempt).1;
            after[phys(base + 1)] <= after[phys(base)]
        }),
{
    let base = spec_resolve(regs.ds, regs.dx) as int;
    let count = if first_attempt {
        0u8
    } else {
        mem[phys(base + 1)]
    };
    assert(phys(base + 1) != phys(base));
    assert(phys(base + 2 + count) != phys(base));
    assert(phys(base + 2 + count) != phys(base + 1));
}

/// Carries out interrupt `number` given the keystroke on offer (`key` is
/// consulted only by the services that read one): updates the registers
/// and memory, and returns the outcome and the text to print.
pub fn complete_service(
    number: u8,
    regs: &mut Registers,
    memory: &mut Memory,
    key: Option<(u8, u8)>,
    first_attempt: bool,
) -> (r: (InterruptOutcome, Option<String>))
    ensures
        (*final(regs), final(memory)@, r.0, text_view(r.1)) == service_effect(
            number,
            *old(regs),
            old(memory)@,
            key,
            first_attempt,
        ),
        undo_preserved(old(memory), final(memory)),
{
    proof {
        lemma_undo_preserved_refl(memory);
    }
    let ah = regs.ax / 256;
    let al = (regs.ax % 256) as u8;
    if number == 0x10 {
        if ah == 0x0E {
            (InterruptOutcome::Continue, Some(char_text(to_char(al))))
        } else if ah == 0x13 {
            (InterruptOutcome::Continue, Some(read_counted_string(regs, memory)))
        } else {
            (InterruptOutcome::Continue, None)
        }
    } else if number == 0x16 {
        if ah == 0 {
            match key {
                Some((scancode, ascii)) => {
                    regs.ax = (scancode as u16) * 256 + ascii as u16;
                    (InterruptOutcome::Continue, None)
                },
                None => (InterruptOutcome::NeedsKeyboardInput, None),
            }
        } else {
            (InterruptOutcome::Continue, None)
        }
    } else if number == 0x20 {
        (InterruptOutcome::Terminate { exit_code: 0 }, None)
    } else if number == 0x21 {
        if ah == 0x01 {
            match key {
                Some((_, ascii)) => {
                    regs.ax = ah * 256 + ascii as u16;
                    (InterruptOutcome::Continue, Some(char_text(to_char(ascii))))
                },
                None => (InterruptOutcome::NeedsKeyboardInput, None),
            }
        } else if ah == 0x02 {
            (InterruptOutcome::Continue, Some(char_text(to_char((regs.dx % 256) as u8))))
        } else if ah == 0x09 {
            let address = Memory::resolve(regs.ds, regs.dx);
            (InterruptOutcome::Continue, Some(read_dollar_string(memory, address)))
        } else if ah == 0x0A {
            buffered_input(regs, memory, key, first_attempt)
        } else if ah == 0x4C {
            (InterruptOutcome::Terminate { exit_code: al }, None)
        } else {
            (InterruptOutcome::Continue, None)
        }
    } else {
        (InterruptOutcome::Continue, None)
    }
}

/// Dispatches a simulated interrupt against `io`: asks it for a keystroke
/// only when the service reads one, carries the service out, and hands
/// `io` the text the service prints. `first_attempt` is true only on the
/// first dispatch of an interrupt instruction, false on every retry after
/// `NeedsKeyboardInput` (AH=0Ah resets its count only then). The text
/// handed to `io` is the one `complete_service` returns for the same
/// registers, memory and key; what `io` does with it is up to its
/// implementor and is not stated here.
pub fn handle_interrupt<S: IoSink>(
    number: u8,
    regs: &mut Registers,
    memory: &mut Memory,
    io: &mut S,
    first_attempt: bool,
) -> (outcome: InterruptOutcome)
    ensures
        exists|key: Option<(u8, u8)>|
            #![trigger service_effect(number, *old(regs), old(memory)@, key, first_attempt)]
            {
                &&& (!reads_key(number, old(regs).ax) ==> key is None)
                &&& *final(regs) == service_effect(number, *old(regs), old(memory)@, key, first_attempt).0
                &&& final(memory)@ == service_effect(number, *old(regs), old(memory)@, key, first_attempt).1
                &&& outcome == service_effect(number, *old(regs), old(memory)@, key, first_attempt).2
            },
        undo_preserved(old(memory), final(memory)),
{
    let key = if service_reads_key(number, regs.ax) {
        io.read_key()
    } else {
        None
    };
    let (outcome, text) = complete_service(number, regs, memory, key, first_attempt);
    match text {
        Some(t) => io.console_write(t.as_str()),
        None => {},
    }
    outcome
}

} // verus!
