//! The stateful facade: owns the CPU, memory, debugger state and the
//! interrupt-simulation layer, and exposes the one API a user interface
//! drives.
//!
//! A blocking keyboard read (INT 16h/21h) suspends the program: `step`
//! reports `WaitingForKeyboard` instead of blocking or inventing input,
//! `feed_key` supplies the key, and the next `step` retries the same
//! interrupt.
//!
//! Every step records its undo information (the registers before it and
//! the old value of every byte it changed), so `step_back` restores the
//! machine state from before the step.
use crate::assembler::codegen::assembly_of;
use crate::assembler::{assemble, AssembleResult, SymbolKind, SymbolTableEntry};
use crate::cpu::execute::{execute, lemma_execute_by_view, spec_execute, ExecutionEffect};
use crate::cpu::Registers;
use crate::debugger::watch::{
    evaluate, parse_register_or_raw_address, trim, trim_str, watch_target, watch_value, WatchSize,
    WatchTarget,
};
use crate::debugger::{Breakpoints, History, HistoryEntry};
use crate::decoder::text::instruction_text;
use crate::decoder::{decode_one, format_instruction, iview, spec_decode, DecodeError};
use crate::interrupts::{
    complete_service, reads_key, service_effect, service_reads_key, text_view, InterruptOutcome,
    IoSink,
};
use crate::isa::Instruction;
use crate::memory::{
    spec_resolve, le16, lemma_undo_preserved_trans, phys, undo_preserved, undo_writes, Memory, WriteEvent,
    MEMORY_SIZE,
};
use crate::textfmt::{digit_char, push_char, push_str};
use crate::words::{eq_ignore_case, text_is, text_is_ignore_case};
use vstd::prelude::*;
use vstd::string::StringSliceAdditionalSpecFns;

verus! {

/// The longest 8086 instruction encoding: the decoder never needs more
/// bytes than this.
pub const MAX_INSTRUCTION_LEN: usize = 6;

/// How many steps `step_back` can undo.
pub const HISTORY_CAPACITY: usize = 10_000;

#[derive(Debug, Clone, Copy, PartialEq, Eq, Structural)]
pub enum StepOutcome {
    Continued,
    Halted,
    /// A keyboard read (INT 16h/21h) is waiting for a key; no new
    /// instruction is fetched until `feed_key` supplies one and `step`
    /// runs again.
    WaitingForKeyboard,
}

/// Why a multi-step `run`/`run_to_cursor` stopped.
#[derive(Debug, Clone, Copy, PartialEq, Eq, Structural)]
pub enum RunOutcome {
    Halted,
    WaitingForKeyboard,
    BreakpointHit,
    DecodeError,
    /// The step ceiling was reached without any other stop; `run` may be
    /// called again to keep going.
    StepLimitReached,
}

/// In-memory `IoSink`: console output as plain text and at most one
/// pending keystroke.
pub struct ConsoleSink {
    output: String,
    pending_key: Option<(u8, u8)>,
}

impl ConsoleSink {
    /// The text written so far.
    pub closed spec fn text(&self) -> Seq<char> {
        self.output@
    }

    /// The keystroke waiting to be read.
    pub closed spec fn key(&self) -> Option<(u8, u8)> {
        self.pending_key
    }
}

impl IoSink for ConsoleSink {
    fn console_write(&mut self, text: &str)
        ensures
            final(self).text() == old(self).text() + text@,
            final(self).key() == old(self).key(),
    {
        push_str(&mut self.output, text);
    }

    fn console_clear(&mut self)
        ensures
            final(self).text() == Seq::<char>::empty(),
            final(self).key() == old(self).key(),
    {
        self.output = String::new();
    }

    fn read_key(&mut self) -> (r: Option<(u8, u8)>)
        ensures
            r == old(self).key(),
            final(self).key() is None,
            final(self).text() == old(self).text(),
    {
        self.pending_key.take()
    }
}

/// A watch expression's target, resolved afresh on every read.
enum ResolvedWatch {
    Live(WatchTarget),
    /// A label or `EQU` constant: a plain number.
    Constant(u16),
}

/// One row of the Variables panel: a `DB`/`DW` symbol of the last
/// assembly with its current value.
#[derive(Debug, Clone, PartialEq, Eq)]
pub struct VariableValue {
    pub name: String,
    pub address: u32,
    pub value: u16,
    pub is_word: bool,
}

/// One row of the Watch panel: the expression as typed and its current
/// value (`None` when it no longer resolves).
#[derive(Debug, Clone, PartialEq, Eq)]
pub struct WatchValue {
    pub expression: String,
    pub value: Option<u16>,
}

/// One disassembled instruction.
#[derive(Debug, Clone, PartialEq, Eq)]
pub struct DisassembledLine {
    pub address: u32,
    pub text: String,
    pub byte_len: u32,
}

pub struct Emulator {
    pub registers: Registers,
    pub memory: Memory,
    pub breakpoints: Breakpoints,
    history: History,
    pub halted: bool,
    console: ConsoleSink,
    /// The vector of a keyboard-read interrupt that could not complete
    /// yet; `step` retries it instead of fetching a new instruction.
    pending_interrupt: Option<u8>,
    /// The symbol table of the last `assemble_and_load`.
    last_symbols: Vec<SymbolTableEntry>,
    /// The data segment's flat base from the last assembly (0 without a
    /// `.DATA` section): data symbols are offsets relative to it.
    data_segment_base: u32,
    /// Watch expressions as typed (trimmed), in the order added.
    watch_expressions: Vec<String>,
}

// --- the state as contracts see it ----------------------------------------

/// The six bytes an instruction is fetched from at `address` (addresses
/// wrap at 1MB).
pub open spec fn fetch_at(mem: Seq<u8>, address: u32) -> Seq<u8> {
    Seq::new(MAX_INSTRUCTION_LEN as nat, |k: int| mem[phys(address + k)])
}

/// The six instruction bytes at `cs:ip`, `ip + k` wrapping at 64KB and
/// the physical address at 1MB.
pub open spec fn fetch_code(mem: Seq<u8>, cs: u16, ip: u16) -> Seq<u8> {
    Seq::new(MAX_INSTRUCTION_LEN as nat, |k: int| mem[spec_resolve(cs, ip.wrapping_add(k as u16)) as int])
}

/// Memory with recorded `(address, old value)` pairs written back, the
/// most recent first.
pub open spec fn undo_diffs(mem: Seq<u8>, diffs: Seq<(u32, u8)>) -> Seq<u8>
    decreases diffs.len(),
{
    if diffs.len() == 0 {
        mem
    } else {
        undo_diffs(mem.update(phys(diffs.last().0 as int), diffs.last().1), diffs.drop_last())
    }
}

/// The undo pairs of a write record: each write's address and old value.
pub open spec fn undo_pairs(log: Seq<WriteEvent>) -> Seq<(u32, u8)> {
    log.map_values(|e: WriteEvent| (e.0, e.1))
}

/// A history after recording `e`: the oldest entry goes when it is full.
pub open spec fn pushed_history(h: Seq<HistoryEntry>, e: HistoryEntry) -> Seq<HistoryEntry> {
    if h.len() == HISTORY_CAPACITY {
        h.drop_first().push(e)
    } else {
        h.push(e)
    }
}

/// Zeroed memory with `code` written from physical address 0 on, byte by
/// byte (a later byte wins where addresses wrap).
pub open spec fn loaded_image(code: Seq<u8>) -> Seq<u8>
    decreases code.len(),
{
    if code.len() == 0 {
        Seq::new(MEMORY_SIZE as nat, |i: int| 0u8)
    } else {
        loaded_image(code.drop_last()).update(phys(code.len() - 1), code.last())
    }
}

impl Emulator {
    /// The register file.
    pub closed spec fn regs(&self) -> Registers {
        self.registers
    }

    /// The memory contents.
    pub closed spec fn mem(&self) -> Seq<u8> {
        self.memory@
    }

    /// Whether the program has halted.
    pub closed spec fn is_halted(&self) -> bool {
        self.halted
    }

    /// The set breakpoint addresses.
    pub closed spec fn bps(&self) -> Set<u32> {
        self.breakpoints.view()
    }

    /// Everything console-output services have printed so far.
    pub closed spec fn output(&self) -> Seq<char> {
        self.console.output@
    }

    /// The keystroke `feed_key` supplied and no read has taken yet.
    pub closed spec fn pending_key(&self) -> Option<(u8, u8)> {
        self.console.pending_key
    }

    /// The keyboard-read interrupt waiting for a key, if any.
    pub closed spec fn pending_interrupt(&self) -> Option<u8> {
        self.pending_interrupt
    }

    /// The undo history, oldest first.
    pub closed spec fn history(&self) -> Seq<HistoryEntry> {
        self.history.view()
    }

    /// The symbol table of the last assembly.
    pub closed spec fn symbols(&self) -> Seq<SymbolTableEntry> {
        self.last_symbols@
    }

    /// The data segment base of the last assembly.
    pub closed spec fn data_base(&self) -> u32 {
        self.data_segment_base
    }

    /// The watch expressions, in the order added.
    pub closed spec fn watches(&self) -> Seq<Seq<char>> {
        self.watch_expressions@.map_values(|s: String| s@)
    }

    /// Memory records every byte write and nothing is recorded between
    /// calls; the history is within its capacity.
    pub closed spec fn wf(&self) -> bool {
        &&& self.memory.observed() == Some(Seq::<WriteEvent>::empty())
        &&& self.history.wf()
        &&& self.history.capacity() == HISTORY_CAPACITY
    }
}

/// A freshly reset emulator apart from memory: zeroed registers, no
/// breakpoints, history, output, pending key or interrupt, and no
/// symbols.
pub open spec fn fresh_but_memory(e: Emulator) -> bool {
    &&& e.regs() == Registers::zeroed()
    &&& e.bps() == Set::<u32>::empty()
    &&& e.history() == Seq::<HistoryEntry>::empty()
    &&& !e.is_halted()
    &&& e.output() == Seq::<char>::empty()
    &&& e.pending_key() is None
    &&& e.pending_interrupt() is None
    &&& e.symbols() == Seq::<SymbolTableEntry>::empty()
    &&& e.data_base() == 0
}

/// A freshly reset emulator: `fresh_but_memory`, with zeroed memory.
pub open spec fn is_fresh(e: Emulator) -> bool {
    &&& fresh_but_memory(e)
    &&& e.mem() == Seq::new(MEMORY_SIZE as nat, |i: int| 0u8)
}

/// What stays put across a step: breakpoints, symbols and watches.
pub open spec fn keeps_session(a: Emulator, b: Emulator) -> bool {
    &&& b.bps() == a.bps()
    &&& b.symbols() == a.symbols()
    &&& b.data_base() == a.data_base()
    &&& b.watches() == a.watches()
}

/// Completing interrupt `vector` from registers `regs` and memory `mem`
/// (with the keystroke `a` has pending), reaching `b` with result `r`.
pub open spec fn completes(
    a: Emulator,
    b: Emulator,
    r: Result<StepOutcome, DecodeError>,
    vector: u8,
    regs: Registers,
    mem: Seq<u8>,
    first_attempt: bool,
) -> bool {
    let takes_key = reads_key(vector, regs.ax);
    let key = if takes_key {
        a.pending_key()
    } else {
        None
    };
    let e = service_effect(vector, regs, mem, key, first_attempt);
    &&& b.regs() == e.0
    &&& b.mem() == e.1
    &&& b.output() == a.output() + match e.3 {
        Some(t) => t,
        None => Seq::<char>::empty(),
    }
    &&& b.pending_key() == if takes_key {
        None
    } else {
        a.pending_key()
    }
    &&& match e.2 {
        InterruptOutcome::Continue => r == Ok::<StepOutcome, DecodeError>(StepOutcome::Continued)
            && !b.is_halted() && b.pending_interrupt() is None,
        InterruptOutcome::Terminate { .. } => r == Ok::<StepOutcome, DecodeError>(
            StepOutcome::Halted,
        ) && b.is_halted() && b.pending_interrupt() is None,
        InterruptOutcome::NeedsKeyboardInput => r == Ok::<StepOutcome, DecodeError>(
            StepOutcome::WaitingForKeyboard,
        ) && !b.is_halted() && b.pending_interrupt() == Some(vector),
    }
}

/// What executing `i` does from `regs` and `mem` (`spec_execute`), kept
/// folded here so the emulator's proofs do not unfold the instruction set.
#[verifier::opaque]
pub open spec fn execution(i: Instruction, regs: Registers, mem: Seq<u8>) -> (
    Registers,
    Seq<u8>,
    ExecutionEffect,
) {
    spec_execute(i, regs, mem)
}

/// The registers with IP advanced past an instruction of `len` bytes
/// (wrapping at 64K).
pub open spec fn advanced(regs: Registers, len: nat) -> Registers {
    Registers { ip: regs.ip.wrapping_add(len as u16), ..regs }
}

/// Executing instruction `i` (of `len` bytes) from `a`, reaching `b`.
/// IP is advanced past the instruction first; a software interrupt is
/// then carried out on its first dispatch.
pub open spec fn executes(
    a: Emulator,
    b: Emulator,
    r: Result<StepOutcome, DecodeError>,
    i: Instruction,
    len: nat,
) -> bool {
    let x = execution(i, advanced(a.regs(), len), a.mem());
    match x.2 {
        ExecutionEffect::Halted => {
            &&& r == Ok::<StepOutcome, DecodeError>(StepOutcome::Halted)
            &&& b.is_halted()
            &&& b.regs() == x.0
            &&& b.mem() == x.1
            &&& b.output() == a.output()
            &&& b.pending_key() == a.pending_key()
            &&& b.pending_interrupt() is None
        },
        ExecutionEffect::Continue => {
            &&& r == Ok::<StepOutcome, DecodeError>(StepOutcome::Continued)
            &&& !b.is_halted()
            &&& b.regs() == x.0
            &&& b.mem() == x.1
            &&& b.output() == a.output()
            &&& b.pending_key() == a.pending_key()
            &&& b.pending_interrupt() is None
        },
        ExecutionEffect::Interrupt(v) => completes(a, b, r, v, x.0, x.1, true),
    }
}

/// A step's undo record: a step that is not left waiting for a key
/// appends an entry holding the registers before it and, undone, giving
/// back the memory before it.
pub open spec fn records_step(a: Emulator, b: Emulator, r: Result<StepOutcome, DecodeError>) -> bool {
    if r == Ok::<StepOutcome, DecodeError>(StepOutcome::WaitingForKeyboard) {
        b.history() == a.history()
    } else {
        &&& b.history().len() > 0
        &&& b.history() == pushed_history(a.history(), b.history().last())
        &&& b.history().last().registers_before == a.regs()
        &&& undo_diffs(b.mem(), b.history().last().memory_diffs@) == a.mem()
    }
}

/// One `step` from `a` to `b` with result `r`: nothing when halted; the
/// retry of a pending keyboard interrupt; or the fetch, decode and
/// execution of the instruction at CS:IP (a decode error changes nothing).
pub open spec fn stepped(a: Emulator, b: Emulator, r: Result<StepOutcome, DecodeError>) -> bool {
    &&& keeps_session(a, b)
    &&& if a.is_halted() {
        r == Ok::<StepOutcome, DecodeError>(StepOutcome::Halted) && b == a
    } else if a.pending_interrupt() is Some {
        &&& completes(a, b, r, a.pending_interrupt()->0, a.regs(), a.mem(), false)
        &&& records_step(a, b, r)
    } else {
        match spec_decode(fetch_code(a.mem(), a.regs().cs, a.regs().ip)) {
            Err(err) => r == Err::<StepOutcome, DecodeError>(err) && b == a,
            Ok((iv, len)) => {
                &&& exists|i: Instruction| #[trigger] iview(i) == iv && executes(a, b, r, i, len)
                &&& records_step(a, b, r)
            },
        }
    }
}

/// One `step_back` from `a` to `b`: with history, the latest entry is
/// taken off, its memory writes undone and its registers restored, and
/// the emulator is no longer halted or waiting; without, nothing changes.
pub open spec fn stepped_back(a: Emulator, b: Emulator, r: bool) -> bool {
    &&& r == (a.history().len() > 0)
    &&& if r {
        let e = a.history().last();
        &&& b.regs() == e.registers_before
        &&& b.mem() == undo_diffs(a.mem(), e.memory_diffs@)
        &&& b.history() == a.history().drop_last()
        &&& !b.is_halted()
        &&& b.pending_interrupt() is None
        &&& b.output() == a.output()
        &&& b.pending_key() == a.pending_key()
        &&& keeps_session(a, b)
    } else {
        unchanged(a, b)
    }
}

/// Nothing a contract speaks of differs between `a` and `b`.
pub open spec fn unchanged(a: Emulator, b: Emulator) -> bool {
    &&& b.regs() == a.regs()
    &&& b.mem() == a.mem()
    &&& b.is_halted() == a.is_halted()
    &&& b.output() == a.output()
    &&& b.pending_key() == a.pending_key()
    &&& b.pending_interrupt() == a.pending_interrupt()
    &&& b.history() == a.history()
    &&& keeps_session(a, b)
}

/// `run` from `a` with `budget` steps left, ending in `b` with `o`: step;
/// stop when halted, waiting for a key, undecodable, or when the step
/// lands IP on a set breakpoint; otherwise go on with one step less. With
/// no steps left the result is `StepLimitReached`.
pub open spec fn runs(a: Emulator, b: Emulator, budget: nat, o: RunOutcome) -> bool
    decreases budget, 1nat,
{
    if budget == 0 {
        o == RunOutcome::StepLimitReached && b == a
    } else {
        exists|m: Emulator, r: Result<StepOutcome, DecodeError>|
            #[trigger] stepped(a, m, r) && after_step(m, b, budget, o, r)
    }
}

/// How a run goes on after a step that reached `m` with `r`.
pub open spec fn after_step(
    m: Emulator,
    b: Emulator,
    budget: nat,
    o: RunOutcome,
    r: Result<StepOutcome, DecodeError>,
) -> bool
    decreases budget, 0nat,
{
    match r {
        Ok(StepOutcome::Halted) => o == RunOutcome::Halted && b == m,
        Ok(StepOutcome::WaitingForKeyboard) => o == RunOutcome::WaitingForKeyboard && b == m,
        Ok(StepOutcome::Continued) => if m.bps().contains(m.regs().ip as u32) {
            o == RunOutcome::BreakpointHit && b == m
        } else if budget > 0 {
            runs(m, b, (budget - 1) as nat, o)
        } else {
            false
        },
        Err(_) => o == RunOutcome::DecodeError && b == m,
    }
}

/// The same state apart from the breakpoints.
pub closed spec fn same_but_breakpoints(a: Emulator, b: Emulator) -> bool {
    &&& b.registers == a.registers
    &&& b.memory == a.memory
    &&& b.history == a.history
    &&& b.halted == a.halted
    &&& b.console == a.console
    &&& b.pending_interrupt == a.pending_interrupt
    &&& b.last_symbols == a.last_symbols
    &&& b.data_segment_base == a.data_segment_base
    &&& b.watch_expressions == a.watch_expressions
}

/// `run_to_cursor` from `a` to `b`: a run from `a` with `address` added as
/// a breakpoint, after which the breakpoints are as in `a` again.
pub open spec fn runs_to_cursor(a: Emulator, b: Emulator, address: u32, budget: nat, o: RunOutcome) -> bool {
    exists|x: Emulator, y: Emulator|
        {
            &&& x.bps() == a.bps().insert(address)
            &&& same_but_breakpoints(a, x)
            &&& #[trigger] runs(x, y, budget, o)
            &&& b.bps() == a.bps()
            &&& same_but_breakpoints(y, b)
        }
}

/// Two states that differ only in their breakpoints agree on everything
/// else the contracts speak of.
pub proof fn lemma_same_but_breakpoints(a: Emulator, b: Emulator)
    requires
        same_but_breakpoints(a, b),
    ensures
        b.regs() == a.regs(),
        b.mem() == a.mem(),
        b.is_halted() == a.is_halted(),
        b.output() == a.output(),
        b.pending_key() == a.pending_key(),
        b.pending_interrupt() == a.pending_interrupt(),
        b.history() == a.history(),
        b.symbols() == a.symbols(),
        b.data_base() == a.data_base(),
        b.watches() == a.watches(),
{
}

/// Running to a cursor is running with the cursor as one more breakpoint,
/// which does not persist: the breakpoints afterwards are those before,
/// and everything else is what that run reached.
pub proof fn lemma_run_to_cursor_is_run_with_cursor(
    a: Emulator,
    b: Emulator,
    address: u32,
    budget: nat,
    o: RunOutcome,
)
    requires
        runs_to_cursor(a, b, address, budget, o),
    ensures
        b.bps() == a.bps(),
        exists|x: Emulator, y: Emulator|
            {
                &&& x.bps() == a.bps().insert(address)
                &&& x.regs() == a.regs()
                &&& x.mem() == a.mem()
                &&& x.is_halted() == a.is_halted()
                &&& x.output() == a.output()
                &&& x.pending_key() == a.pending_key()
                &&& x.pending_interrupt() == a.pending_interrupt()
                &&& x.history() == a.history()
                &&& #[trigger] runs(x, y, budget, o)
                &&& b.regs() == y.regs()
                &&& b.mem() == y.mem()
                &&& b.is_halted() == y.is_halted()
                &&& b.output() == y.output()
                &&& b.pending_key() == y.pending_key()
                &&& b.pending_interrupt() == y.pending_interrupt()
                &&& b.history() == y.history()
            },
{
    let (x, y) = choose|x: Emulator, y: Emulator|
        {
            &&& x.bps() == a.bps().insert(address)
            &&& same_but_breakpoints(a, x)
            &&& #[trigger] runs(x, y, budget, o)
            &&& b.bps() == a.bps()
            &&& same_but_breakpoints(y, b)
        };
    lemma_same_but_breakpoints(a, x);
    lemma_same_but_breakpoints(y, b);
}

/// Two states on the same course: they agree on everything a step reads
/// and on everything the contracts state of the state after it, the undo
/// history aside (it decides nothing in a step or a run).
pub open spec fn same_course(a: Emulator, b: Emulator) -> bool {
    &&& b.regs() == a.regs()
    &&& b.mem() == a.mem()
    &&& b.is_halted() == a.is_halted()
    &&& b.output() == a.output()
    &&& b.pending_key() == a.pending_key()
    &&& b.pending_interrupt() == a.pending_interrupt()
    &&& b.bps() == a.bps()
    &&& b.symbols() == a.symbols()
    &&& b.data_base() == a.data_base()
    &&& b.watches() == a.watches()
}

proof fn lemma_completes_deterministic(
    a1: Emulator,
    a2: Emulator,
    b1: Emulator,
    b2: Emulator,
    r1: Result<StepOutcome, DecodeError>,
    r2: Result<StepOutcome, DecodeError>,
    vector: u8,
    regs: Registers,
    mem: Seq<u8>,
    first_attempt: bool,
)
    requires
        same_course(a1, a2),
        completes(a1, b1, r1, vector, regs, mem, first_attempt),
        completes(a2, b2, r2, vector, regs, mem, first_attempt),
        keeps_session(a1, b1),
        keeps_session(a2, b2),
    ensures
        r1 == r2,
        same_course(b1, b2),
{
}

/// A step is deterministic: from states on the same course it gives the
/// same result and reaches states on the same course.
pub proof fn lemma_step_deterministic(
    a1: Emulator,
    a2: Emulator,
    b1: Emulator,
    b2: Emulator,
    r1: Result<StepOutcome, DecodeError>,
    r2: Result<StepOutcome, DecodeError>,
)
    requires
        same_course(a1, a2),
        stepped(a1, b1, r1),
        stepped(a2, b2, r2),
    ensures
        r1 == r2,
        same_course(b1, b2),
{
    if a1.is_halted() {
    } else if a1.pending_interrupt() is Some {
        lemma_completes_deterministic(a1, a2, b1, b2, r1, r2, a1.pending_interrupt()->0, a1.regs(), a1.mem(), false);
    } else {
        match spec_decode(fetch_code(a1.mem(), a1.regs().cs, a1.regs().ip)) {
            Err(_) => {},
            Ok((iv, len)) => {
                let i1 = choose|i: Instruction| #[trigger] iview(i) == iv && executes(a1, b1, r1, i, len);
                let i2 = choose|i: Instruction| #[trigger] iview(i) == iv && executes(a2, b2, r2, i, len);
                let regs = advanced(a1.regs(), len);
                assert(execution(i1, regs, a1.mem()) == execution(i2, regs, a1.mem())) by {
                    reveal(execution);
                    lemma_execute_by_view(i1, i2, regs, a1.mem());
                }
                let x = execution(i1, regs, a1.mem());
                if let ExecutionEffect::Interrupt(v) = x.2 {
                    lemma_completes_deterministic(a1, a2, b1, b2, r1, r2, v, x.0, x.1, true);
                }
            },
        }
    }
}

/// A run is deterministic: from states on the same course, with the same
/// budget, it ends with the same outcome in states on the same course.
pub proof fn lemma_runs_deterministic(
    a1: Emulator,
    a2: Emulator,
    b1: Emulator,
    b2: Emulator,
    budget: nat,
    o1: RunOutcome,
    o2: RunOutcome,
)
    requires
        same_course(a1, a2),
        runs(a1, b1, budget, o1),
        runs(a2, b2, budget, o2),
    ensures
        o1 == o2,
        same_course(b1, b2),
    decreases budget,
{
    if budget > 0 {
        let (m1, r1) = choose|m: Emulator, r: Result<StepOutcome, DecodeError>|
            #[trigger] stepped(a1, m, r) && after_step(m, b1, budget, o1, r);
        let (m2, r2) = choose|m: Emulator, r: Result<StepOutcome, DecodeError>|
            #[trigger] stepped(a2, m, r) && after_step(m, b2, budget, o2, r);
        lemma_step_deterministic(a1, a2, m1, m2, r1, r2);
        if r1 == Ok::<StepOutcome, DecodeError>(StepOutcome::Continued) && !m1.bps().contains(
            m1.regs().ip as u32,
        ) {
            lemma_runs_deterministic(m1, m2, b1, b2, (budget - 1) as nat, o1, o2);
        }
    }
}

/// `run_to_cursor` gives exactly what `run` gives from the same state with
/// the cursor added as one more breakpoint: the same outcome, and the
/// same state after it apart from the breakpoints, which are those before.
pub proof fn lemma_run_to_cursor_equals_run(
    a: Emulator,
    b: Emulator,
    address: u32,
    budget: nat,
    o: RunOutcome,
    x: Emulator,
    y: Emulator,
    o2: RunOutcome,
)
    requires
        runs_to_cursor(a, b, address, budget, o),
        x.bps() == a.bps().insert(address),
        x.regs() == a.regs(),
        x.mem() == a.mem(),
        x.is_halted() == a.is_halted(),
        x.output() == a.output(),
        x.pending_key() == a.pending_key(),
        x.pending_interrupt() == a.pending_interrupt(),
        x.symbols() == a.symbols(),
        x.data_base() == a.data_base(),
        x.watches() == a.watches(),
        runs(x, y, budget, o2),
    ensures
        o == o2,
        b.bps() == a.bps(),
        b.regs() == y.regs(),
        b.mem() == y.mem(),
        b.is_halted() == y.is_halted(),
        b.output() == y.output(),
        b.pending_key() == y.pending_key(),
        b.pending_interrupt() == y.pending_interrupt(),
{
    let (x0, y0) = choose|x0: Emulator, y0: Emulator|
        {
            &&& x0.bps() == a.bps().insert(address)
            &&& same_but_breakpoints(a, x0)
            &&& #[trigger] runs(x0, y0, budget, o)
            &&& b.bps() == a.bps()
            &&& same_but_breakpoints(y0, b)
        };
    lemma_same_but_breakpoints(a, x0);
    lemma_same_but_breakpoints(y0, b);
    lemma_runs_deterministic(x0, x, y0, y, budget, o, o2);
}

/// A run never changes the breakpoints.
proof fn lemma_runs_keep_breakpoints(a: Emulator, b: Emulator, budget: nat, o: RunOutcome)
    requires
        runs(a, b, budget, o),
    ensures
        b.bps() == a.bps(),
    decreases budget,
{
    if budget > 0 {
        let (m, r) = choose|m: Emulator, r: Result<StepOutcome, DecodeError>|
            #[trigger] stepped(a, m, r) && after_step(m, b, budget, o, r);
        if r == Ok::<StepOutcome, DecodeError>(StepOutcome::Continued) && !m.bps().contains(
            m.regs().ip as u32,
        ) {
            lemma_runs_keep_breakpoints(m, b, (budget - 1) as nat, o);
        }
    }
}

/// A run that stops right after its first step.
proof fn lemma_run_stops(
    a: Emulator,
    m: Emulator,
    r: Result<StepOutcome, DecodeError>,
    budget: nat,
    o: RunOutcome,
)
    requires
        stepped(a, m, r),
        budget > 0,
        after_step(m, m, budget, o, r),
    ensures
        runs(a, m, budget, o),
{
}

/// A run that goes on after a step that continued and hit no breakpoint.
proof fn lemma_run_goes_on(
    a: Emulator,
    m: Emulator,
    r: Result<StepOutcome, DecodeError>,
    budget: nat,
    rest: nat,
)
    requires
        stepped(a, m, r),
        r == Ok::<StepOutcome, DecodeError>(StepOutcome::Continued),
        !m.bps().contains(m.regs().ip as u32),
        budget > 0,
        rest == budget - 1,
    ensures
        forall|b: Emulator, o: RunOutcome| #[trigger] runs(m, b, rest, o) ==> runs(a, b, budget, o),
{
    assert forall|b: Emulator, o: RunOutcome| #[trigger] runs(m, b, rest, o) implies runs(
        a,
        b,
        budget,
        o,
    ) by {
        assert(after_step(m, b, budget, o, r));
    }
}

/// The registers after loading an assembled program: all zero but IP at
/// the entry point, DS at the data segment (when `.DATA` was used) and
/// SS:SP at the top of the stack segment (when `.STACK` was used).
pub open spec fn loaded_registers(r: AssembleResult) -> Registers {
    Registers {
        ip: r.entry_point as u16,
        ds: match r.data_segment_base {
            Some(base) => (base / 16) as u16,
            None => 0,
        },
        ss: match r.stack_segment {
            Some((base, _)) => (base / 16) as u16,
            None => 0,
        },
        sp: match r.stack_segment {
            Some((_, size)) => size as u16,
            None => 0,
        },
        ..Registers::zeroed()
    }
}

/// The flat address of a data symbol: its segment-relative offset plus
/// the data segment base (wrapping).
pub open spec fn symbol_address(s: SymbolTableEntry, base: u32) -> u32 {
    (s.value as u32).wrapping_add(base)
}

/// A Variables row for a `DB`/`DW` symbol: (name, address, current
/// value, whether a word); labels and constants have none.
pub open spec fn variable_row(s: SymbolTableEntry, base: u32, mem: Seq<u8>) -> Option<
    (Seq<char>, u32, u16, bool),
> {
    let address = symbol_address(s, base);
    match s.kind {
        SymbolKind::DataByte => Some((s.name@, address, mem[phys(address as int)] as u16, false)),
        SymbolKind::DataWord => Some(
            (
                s.name@,
                address,
                le16(mem[phys(address as int)], mem[phys(address as int + 1)]),
                true,
            ),
        ),
        _ => None,
    }
}

/// The Variables rows of a symbol table, in table order.
pub open spec fn variable_rows(symbols: Seq<SymbolTableEntry>, base: u32, mem: Seq<u8>) -> Seq<
    (Seq<char>, u32, u16, bool),
>
    decreases symbols.len(),
{
    if symbols.len() == 0 {
        Seq::empty()
    } else {
        let before = variable_rows(symbols.drop_last(), base, mem);
        match variable_row(symbols.last(), base, mem) {
            Some(row) => before.push(row),
            None => before,
        }
    }
}

pub open spec fn variable_view(v: VariableValue) -> (Seq<char>, u32, u16, bool) {
    (v.name@, v.address, v.value, v.is_word)
}

/// The first symbol from index `k` on named `name` (ignoring ASCII case
/// when `fold`).
pub open spec fn named_index(symbols: Seq<SymbolTableEntry>, name: Seq<char>, fold: bool, k: nat) -> Option<nat>
    decreases symbols.len() - k,
{
    if k >= symbols.len() {
        None
    } else if (if fold {
        eq_ignore_case(symbols[k as int].name@, name)
    } else {
        symbols[k as int].name@ == name
    }) {
        Some(k)
    } else {
        named_index(symbols, name, fold, k + 1)
    }
}

/// The symbol a watch names: the first exact match, else the first match
/// ignoring ASCII case.
pub open spec fn lookup_symbol(symbols: Seq<SymbolTableEntry>, name: Seq<char>) -> Option<SymbolTableEntry> {
    match named_index(symbols, name, false, 0) {
        Some(i) => Some(symbols[i as int]),
        None => match named_index(symbols, name, true, 0) {
            Some(i) => Some(symbols[i as int]),
            None => None,
        },
    }
}

/// What a watch expression reads now: a register, flag or sized address
/// first; else a data symbol's memory (byte or word) or a label's or
/// constant's value; `None` when it names nothing.
pub open spec fn watch_reading(
    expr: Seq<char>,
    symbols: Seq<SymbolTableEntry>,
    base: u32,
    regs: Registers,
    mem: Seq<u8>,
) -> Option<u16> {
    match watch_target(expr) {
        Some(t) => Some(watch_value(t, regs, mem)),
        None => match lookup_symbol(symbols, expr) {
            Some(s) => Some(
                match s.kind {
                    SymbolKind::DataByte => watch_value(
                        WatchTarget::Memory { address: symbol_address(s, base), size: WatchSize::Byte },
                        regs,
                        mem,
                    ),
                    SymbolKind::DataWord => watch_value(
                        WatchTarget::Memory { address: symbol_address(s, base), size: WatchSize::Word },
                        regs,
                        mem,
                    ),
                    _ => s.value as u16,
                },
            ),
            None => None,
        },
    }
}

/// How many bytes the disassembly line at `address` covers: the decoded
/// instruction's length, or one byte that does not decode.
pub open spec fn line_len(mem: Seq<u8>, address: u32) -> u32 {
    match spec_decode(fetch_at(mem, address)) {
        Ok((_, n)) => n as u32,
        Err(_) => 1,
    }
}

/// Where the `k`-th line of a disassembly from `start` begins.
pub open spec fn line_address(mem: Seq<u8>, start: u32, k: nat) -> u32
    decreases k,
{
    if k == 0 {
        start
    } else {
        let a = line_address(mem, start, (k - 1) as nat);
        a.wrapping_add(line_len(mem, a))
    }
}

/// The text of the disassembly line at `address`: the decoded
/// instruction, or `DB xxh` with the byte in two upper-case hex digits.
pub open spec fn line_text(mem: Seq<u8>, address: u32, text: Seq<char>) -> bool {
    match spec_decode(fetch_at(mem, address)) {
        Ok((iv, _)) => exists|i: Instruction| #[trigger] iview(i) == iv && text == instruction_text(i, address),
        Err(_) => {
            let b = mem[phys(address as int)];
            text == seq!['D', 'B', ' ', digit_char((b / 16) as nat), digit_char((b % 16) as nat), 'h']
        },
    }
}

/// Everything but the watch list is as in `a`.
pub closed spec fn unchanged_but_watches(a: Emulator, b: Emulator) -> bool {
    &&& b.regs() == a.regs()
    &&& b.mem() == a.mem()
    &&& b.is_halted() == a.is_halted()
    &&& b.output() == a.output()
    &&& b.pending_key() == a.pending_key()
    &&& b.pending_interrupt() == a.pending_interrupt()
    &&& b.history() == a.history()
    &&& b.bps() == a.bps()
    &&& b.symbols() == a.symbols()
    &&& b.data_base() == a.data_base()
}

/// Registers, memory and history agree.
pub closed spec fn same_machine(a: Emulator, b: Emulator) -> bool {
    &&& a.regs() == b.regs()
    &&& a.mem() == b.mem()
    &&& a.history() == b.history()
}

/// Stepping back from a state that agrees with one reached by a recorded
/// step gives a state that agrees with the one before that step.
proof fn lemma_step_back_one(a: Emulator, b: Emulator, r: Result<StepOutcome, DecodeError>, x: Emulator, y: Emulator)
    requires
        stepped(a, b, r),
        !a.is_halted(),
        r is Ok,
        r != Ok::<StepOutcome, DecodeError>(StepOutcome::WaitingForKeyboard),
        a.history().len() < HISTORY_CAPACITY,
        same_machine(x, b),
        stepped_back(x, y, true),
    ensures
        same_machine(y, a),
{
    if a.pending_interrupt() is None {
        if let Err(_) = spec_decode(fetch_code(a.mem(), a.regs().cs, a.regs().ip)) {
            assert(false);
        }
    }
    assert(records_step(a, b, r));
    assert(a.history().push(b.history().last()).drop_last() =~= a.history());
}

/// Stepping back as many times as there were recorded steps restores the
/// registers and memory from before the first of them (while the history
/// had room for them all).
pub proof fn lemma_step_backs_undo_steps(
    states: Seq<Emulator>,
    results: Seq<Result<StepOutcome, DecodeError>>,
    backs: Seq<Emulator>,
)
    requires
        states.len() == results.len() + 1,
        backs.len() == states.len(),
        forall|i: int|
            0 <= i < results.len() ==> {
                &&& stepped(#[trigger] states[i], states[i + 1], results[i])
                &&& !states[i].is_halted()
                &&& results[i] is Ok
                &&& results[i] != Ok::<StepOutcome, DecodeError>(StepOutcome::WaitingForKeyboard)
            },
        states[0].history().len() + results.len() <= HISTORY_CAPACITY,
        backs[0] == states[results.len() as int],
        forall|j: int| 0 <= j < results.len() ==> stepped_back(#[trigger] backs[j], backs[j + 1], true),
    ensures
        backs[results.len() as int].regs() == states[0].regs(),
        backs[results.len() as int].mem() == states[0].mem(),
{
    let k = results.len() as int;
    assert forall|i: int| 0 <= i < k implies (#[trigger] states[i]).history().len() == states[0].history().len() + i by {
        lemma_history_grows(states, results, i);
    }
    lemma_backs_from(states, results, backs, 0);
}

/// The induction behind `lemma_step_backs_undo_steps`: from the `j`-th
/// step back on.
#[verifier::rlimit(80)]
#[verifier::spinoff_prover]
proof fn lemma_backs_from(
    states: Seq<Emulator>,
    results: Seq<Result<StepOutcome, DecodeError>>,
    backs: Seq<Emulator>,
    j: int,
)
    requires
        states.len() == results.len() + 1,
        backs.len() == states.len(),
        forall|i: int|
            0 <= i < results.len() ==> {
                &&& stepped(#[trigger] states[i], states[i + 1], results[i])
                &&& !states[i].is_halted()
                &&& results[i] is Ok
                &&& results[i] != Ok::<StepOutcome, DecodeError>(StepOutcome::WaitingForKeyboard)
            },
        forall|i: int|
            0 <= i < results.len() ==> (#[trigger] states[i]).history().len() == states[0].history().len() + i,
        states[0].history().len() + results.len() <= HISTORY_CAPACITY,
        forall|i: int| 0 <= i < results.len() ==> stepped_back(#[trigger] backs[i], backs[i + 1], true),
        0 <= j <= results.len(),
        same_machine(backs[j], states[results.len() - j]),
    ensures
        same_machine(backs[results.len() as int], states[0]),
    decreases results.len() - j,
{
    let k = results.len() as int;
    if j < k {
        let m = k - j;
        assert(stepped(states[m - 1], states[m], results[m - 1]));
        assert(stepped_back(backs[j], backs[j + 1], true));
        lemma_step_back_one(states[m - 1], states[m], results[m - 1], backs[j], backs[j + 1]);
        lemma_backs_from(states, results, backs, j + 1);
    }
}

/// Each recorded step grows the history by one (while it has room).
proof fn lemma_history_grows(
    states: Seq<Emulator>,
    results: Seq<Result<StepOutcome, DecodeError>>,
    i: int,
)
    requires
        states.len() == results.len() + 1,
        forall|n: int|
            0 <= n < results.len() ==> {
                &&& stepped(#[trigger] states[n], states[n + 1], results[n])
                &&& !states[n].is_halted()
                &&& results[n] is Ok
                &&& results[n] != Ok::<StepOutcome, DecodeError>(StepOutcome::WaitingForKeyboard)
            },
        states[0].history().len() + results.len() <= HISTORY_CAPACITY,
        0 <= i <= results.len(),
    ensures
        states[i].history().len() == states[0].history().len() + i,
    decreases i,
{
    if i > 0 {
        lemma_history_grows(states, results, i - 1);
        let a = states[i - 1];
        let b = states[i];
        let r = results[i - 1];
        assert(stepped(a, b, r));
        if a.pending_interrupt() is None {
            if let Err(_) = spec_decode(fetch_code(a.mem(), a.regs().cs, a.regs().ip)) {
                assert(false);
            }
        }
        assert(records_step(a, b, r));
    }
}

/// Undoing a write record's pairs is undoing the record.
proof fn lemma_undo_pairs(mem: Seq<u8>, log: Seq<WriteEvent>)
    ensures
        undo_diffs(mem, undo_pairs(log)) == undo_writes(mem, log),
    decreases log.len(),
{
    if log.len() > 0 {
        let e = log.last();
        assert(undo_pairs(log).drop_last() =~= undo_pairs(log.drop_last()));
        lemma_undo_pairs(mem.update(phys(e.0 as int), e.1), log.drop_last());
    }
}

/// Stepping back right after a step that recorded history gives back the
/// registers and memory from before the step; the history is as before
/// unless the step pushed the oldest entry out.
pub proof fn lemma_step_back_undoes_step(
    a: Emulator,
    b: Emulator,
    c: Emulator,
    r: Result<StepOutcome, DecodeError>,
    popped: bool,
)
    requires
        stepped(a, b, r),
        stepped_back(b, c, popped),
        !a.is_halted(),
        r is Ok,
        r != Ok::<StepOutcome, DecodeError>(StepOutcome::WaitingForKeyboard),
    ensures
        popped,
        c.regs() == a.regs(),
        c.mem() == a.mem(),
        !c.is_halted(),
        c.pending_interrupt() is None,
        c.output() == b.output(),
        a.history().len() < HISTORY_CAPACITY ==> c.history() == a.history(),
{
    if a.pending_interrupt() is None {
        if let Err(_) = spec_decode(fetch_code(a.mem(), a.regs().cs, a.regs().ip)) {
            assert(false);
        }
    }
    assert(records_step(a, b, r));
    if a.history().len() < HISTORY_CAPACITY {
        assert(a.history().push(b.history().last()).drop_last() =~= a.history());
    }
}

impl Emulator {
    pub fn new() -> (e: Emulator)
        ensures
            e.wf(),
            is_fresh(e),
            e.watches() == Seq::<Seq<char>>::empty(),
    {
        let mut memory = Memory::new();
        memory.set_observer();
        let e = Emulator {
            registers: Registers::new(),
            memory,
            breakpoints: Breakpoints::new(),
            history: History::new(HISTORY_CAPACITY),
            halted: false,
            console: ConsoleSink { output: String::new(), pending_key: None },
            pending_interrupt: None,
            last_symbols: Vec::new(),
            data_segment_base: 0,
            watch_expressions: Vec::new(),
        };
        assert(e.watches() =~= Seq::<Seq<char>>::empty());
        e
    }

    /// Resets CPU, memory, breakpoints, history, console and symbols for
    /// a fresh program; the watch expressions survive (they belong to the
    /// debugging session, not to one program).
    pub fn reset(&mut self)
        ensures
            final(self).wf(),
            is_fresh(*final(self)),
            final(self).watches() == old(self).watches(),
    {
        let mut watch_expressions: Vec<String> = Vec::new();
        std::mem::swap(&mut watch_expressions, &mut self.watch_expressions);
        *self = Emulator::new();
        self.watch_expressions = watch_expressions;
    }

    /// Loads raw machine code at physical address 0 (CS:IP = 0000:0000),
    /// after a reset. The load itself is not a step: `step_back` does not
    /// undo it.
    pub fn load_program(&mut self, machine_code: &[u8])
        ensures
            final(self).wf(),
            final(self).mem() == loaded_image(machine_code@),
            fresh_but_memory(*final(self)),
            final(self).watches() == old(self).watches(),
    {
        self.reset();
        let mut offset: usize = 0;
        while offset < machine_code.len()
            invariant
                offset <= machine_code.len(),
                self.memory@ == loaded_image(machine_code@.take(offset as int)),
                self.memory.observed() is Some,
                self.history.wf(),
                self.history.capacity() == HISTORY_CAPACITY,
                fresh_but_memory(*self),
                self.watches() == old(self).watches(),
            decreases machine_code.len() - offset,
        {
            let address = (offset % MEMORY_SIZE) as u32;
            self.memory.write_u8(address, machine_code[offset]);
            proof {
                let taken = machine_code@.take(offset + 1);
                assert(taken.drop_last() =~= machine_code@.take(offset as int));
                assert(phys(address as int) == phys(offset as int));
            }
            offset = offset + 1;
        }
        assert(machine_code@.take(offset as int) =~= machine_code@);
        let _ = self.memory.take_writes();
    }

    /// Everything simulated console output has printed. `step_back` does
    /// not take printed text back.
    pub fn console_output(&self) -> (r: &str)
        ensures
            r@ == self.output(),
    {
        self.console.output.as_str()
    }

    /// Supplies a keystroke for a pending or later keyboard read; a key
    /// not yet read is replaced.
    pub fn feed_key(&mut self, scancode: u8, ascii: u8)
        requires
            old(self).wf(),
        ensures
            final(self).wf(),
            final(self).pending_key() == Some((scancode, ascii)),
            final(self).regs() == old(self).regs(),
            final(self).mem() == old(self).mem(),
            final(self).is_halted() == old(self).is_halted(),
            final(self).output() == old(self).output(),
            final(self).pending_interrupt() == old(self).pending_interrupt(),
            final(self).history() == old(self).history(),
            keeps_session(*old(self), *final(self)),
    {
        self.console.pending_key = Some((scancode, ascii));
    }
}

impl Emulator {
    /// The six instruction bytes at `address`.
    fn fetch(&self, address: u32) -> (w: Vec<u8>)
        ensures
            w@ == fetch_at(self.memory@, address),
    {
        let mut w: Vec<u8> = Vec::new();
        let mut k: u32 = 0;
        while k < MAX_INSTRUCTION_LEN as u32
            invariant
                k <= MAX_INSTRUCTION_LEN,
                w@ == fetch_at(self.memory@, address).take(k as int),
            decreases MAX_INSTRUCTION_LEN - k,
        {
            let byte = self.memory.read_u8(address.wrapping_add(k));
            proof {
                lemma_phys_wrapping_add(address, k);
            }
            w.push(byte);
            k = k + 1;
            assert(w@ =~= fetch_at(self.memory@, address).take(k as int));
        }
        assert(fetch_at(self.memory@, address).take(k as int) =~= fetch_at(self.memory@, address));
        w
    }

    /// The six instruction bytes at CS:IP.
    fn fetch_instruction(&self) -> (w: Vec<u8>)
        ensures
            w@ == fetch_code(self.memory@, self.registers.cs, self.registers.ip),
    {
        let ghost want = fetch_code(self.memory@, self.registers.cs, self.registers.ip);
        let mut w: Vec<u8> = Vec::new();
        let mut k: u16 = 0;
        while k < MAX_INSTRUCTION_LEN as u16
            invariant
                k <= MAX_INSTRUCTION_LEN,
                want == fetch_code(self.memory@, self.registers.cs, self.registers.ip),
                w@ == want.take(k as int),
            decreases MAX_INSTRUCTION_LEN - k,
        {
            let address = Memory::resolve(self.registers.cs, self.registers.ip.wrapping_add(k));
            let byte = self.memory.read_u8(address);
            assert(phys(address as int) == address as int);
            w.push(byte);
            k = k + 1;
            assert(w@ =~= want.take(k as int));
        }
        assert(want.take(k as int) =~= want);
        w
    }

    /// Carries out interrupt `vector` against the console, recording a
    /// pending retry when it waits for a key.
    fn try_complete_interrupt(&mut self, vector: u8, first_attempt: bool) -> (outcome: StepOutcome)
        requires
            !old(self).halted,
        ensures
            completes(
                *old(self),
                *final(self),
                Ok(outcome),
                vector,
                old(self).regs(),
                old(self).mem(),
                first_attempt,
            ),
            undo_preserved(&old(self).memory, &final(self).memory),
            final(self).history == old(self).history,
            keeps_session(*old(self), *final(self)),
    {
        let ghost a = *self;
        let key = if service_reads_key(vector, self.registers.ax) {
            self.console.read_key()
        } else {
            None
        };
        assert(key == (if reads_key(vector, a.registers.ax) {
            a.console.pending_key
        } else {
            None
        }));
        let (outcome, text) = complete_service(vector, &mut self.registers, &mut self.memory, key, first_attempt);
        let ghost e = service_effect(vector, a.registers, a.memory@, key, first_attempt);
        assert(self.registers == e.0 && self.memory@ == e.1 && outcome == e.2);
        let ghost printed = match e.3 {
            Some(t) => t,
            None => Seq::<char>::empty(),
        };
        match text {
            Some(t) => {
                self.console.console_write(t.as_str());
            },
            None => {
                assert(self.console.output@ =~= a.console.output@ + printed);
            },
        }
        assert(self.console.output@ == a.console.output@ + printed);
        match outcome {
            InterruptOutcome::Continue => {
                self.pending_interrupt = None;
                StepOutcome::Continued
            },
            InterruptOutcome::Terminate { .. } => {
                self.pending_interrupt = None;
                self.halted = true;
                StepOutcome::Halted
            },
            InterruptOutcome::NeedsKeyboardInput => {
                self.pending_interrupt = Some(vector);
                StepOutcome::WaitingForKeyboard
            },
        }
    }

    /// Takes the memory writes of the step just made and, unless it is
    /// waiting for a key, records them with `registers_before` as one
    /// history entry.
    fn record_step(&mut self, registers_before: Registers, outcome: StepOutcome)
        requires
            old(self).memory.observed() is Some,
            old(self).history.wf(),
            old(self).history.capacity() == HISTORY_CAPACITY,
        ensures
            final(self).wf(),
            final(self).memory@ == old(self).memory@,
            final(self).registers == old(self).registers,
            final(self).halted == old(self).halted,
            final(self).console == old(self).console,
            final(self).pending_interrupt == old(self).pending_interrupt,
            keeps_session(*old(self), *final(self)),
            outcome == StepOutcome::WaitingForKeyboard ==> final(self).history() == old(self).history(),
            outcome != StepOutcome::WaitingForKeyboard ==> final(self).history() == pushed_history(
                old(self).history(),
                HistoryEntry {
                    registers_before,
                    memory_diffs: final(self).history().last().memory_diffs,
                },
            ) && final(self).history().last().memory_diffs@ == undo_pairs(
                old(self).memory.observed()->0,
            ) && final(self).history().last().registers_before == registers_before,
    {
        let events = self.memory.take_writes();
        match outcome {
            StepOutcome::WaitingForKeyboard => {},
            _ => {
                let mut diffs: Vec<(u32, u8)> = Vec::new();
                let mut k: usize = 0;
                while k < events.len()
                    invariant
                        k <= events.len(),
                        diffs@ == undo_pairs(events@.take(k as int)),
                    decreases events.len() - k,
                {
                    let (address, old_value, _) = events[k];
                    diffs.push((address, old_value));
                    k = k + 1;
                    assert(diffs@ =~= undo_pairs(events@.take(k as int)));
                }
                assert(events@.take(k as int) =~= events@);
                let entry = HistoryEntry { registers_before, memory_diffs: diffs };
                let ghost e = entry;
                self.history.push(entry);
                assert(self.history.view().last() == e);
            },
        }
    }

    /// Decodes and executes one instruction at CS:IP, or retries a
    /// pending keyboard interrupt. IP is
    /// advanced past the instruction before it runs. A halted emulator
    /// stays halted; an undecodable instruction changes nothing.
    pub fn step(&mut self) -> (r: Result<StepOutcome, DecodeError>)
        requires
            old(self).wf(),
        ensures
            final(self).wf(),
            stepped(*old(self), *final(self), r),
    {
        if self.halted {
            return Ok(StepOutcome::Halted);
        }
        let registers_before = self.registers;
        let ghost a = *self;
        proof {
            lemma_undo_pairs(self.memory@, Seq::<WriteEvent>::empty());
        }
        match self.pending_interrupt {
            Some(vector) => {
                let outcome = self.try_complete_interrupt(vector, false);
                let ghost m = *self;
                self.record_step(registers_before, outcome);
                proof {
                    lemma_undo_pairs(m.memory@, m.memory.observed()->0);
                }
                Ok(outcome)
            },
            None => self.step_instruction(),
        }
    }

    /// Fetches, decodes and executes the instruction at CS:IP.
    #[verifier::rlimit(40)]
    fn step_instruction(&mut self) -> (r: Result<StepOutcome, DecodeError>)
        requires
            old(self).wf(),
            !old(self).halted,
            old(self).pending_interrupt is None,
        ensures
            final(self).wf(),
            stepped(*old(self), *final(self), r),
    {
        let registers_before = self.registers;
        let ghost a = *self;
        let window = self.fetch_instruction();
        let (instruction, len) = match decode_one(window.as_slice()) {
            Ok(decoded) => decoded,
            Err(e) => {
                return Err(e);
            },
        };
        let outcome = self.execute_decoded(&instruction, len);
        let ghost m = *self;
        self.record_step(registers_before, outcome);
        proof {
            lemma_undo_pairs(m.memory@, m.memory.observed()->0);
            assert(iview(instruction) == spec_decode(fetch_code(a.memory@, a.registers.cs, a.registers.ip))->Ok_0.0);
        }
        Ok(outcome)
    }

    /// Advances IP past a decoded instruction and executes it, carrying
    /// out a software interrupt on its first dispatch.
    #[verifier::rlimit(100)]
    fn execute_decoded(&mut self, instruction: &Instruction, len: usize) -> (outcome: StepOutcome)
        requires
            old(self).memory.observed() == Some(Seq::<WriteEvent>::empty()),
            !old(self).halted,
            old(self).pending_interrupt is None,
            crate::cpu::execute::executable(*instruction),
            len <= MAX_INSTRUCTION_LEN,
        ensures
            executes(*old(self), *final(self), Ok(outcome), *instruction, len as nat),
            undo_writes(final(self).memory@, final(self).memory.observed()->0) == old(self).memory@,
            final(self).memory.observed() is Some,
            final(self).history == old(self).history,
            keeps_session(*old(self), *final(self)),
    {
        let ghost a = *self;
        self.registers.ip = self.registers.ip.wrapping_add(len as u16);
        let ghost m0 = *self;
        let effect = run_instruction(instruction, &mut self.registers, &mut self.memory);
        match effect {
            ExecutionEffect::Halted => {
                self.halted = true;
                StepOutcome::Halted
            },
            ExecutionEffect::Continue => StepOutcome::Continued,
            ExecutionEffect::Interrupt(vector) => {
                let ghost m1 = *self;
                let o = self.try_complete_interrupt(vector, true);
                proof {
                    lemma_undo_preserved_trans(&m0.memory, &m1.memory, &self.memory);
                }
                o
            },
        }
    }

    /// Undoes the most recent step: writes back the old value of every
    /// byte it changed (latest first) and restores its registers. Returns
    /// false, changing nothing, when there is no history.
    pub fn step_back(&mut self) -> (r: bool)
        requires
            old(self).wf(),
        ensures
            final(self).wf(),
            stepped_back(*old(self), *final(self), r),
    {
        match self.history.pop() {
            Some(entry) => {
                undo_into(&mut self.memory, &entry.memory_diffs);
                let _ = self.memory.take_writes();
                self.registers = entry.registers_before;
                self.halted = false;
                self.pending_interrupt = None;
                true
            },
            None => false,
        }
    }

    /// Whether `step_back` has anything to undo.
    pub fn can_step_back(&self) -> (r: bool)
        requires
            self.wf(),
        ensures
            r == (self.history().len() > 0),
    {
        !self.history.is_empty()
    }

    /// Overwrites the whole register file (a live edit, not a step: not
    /// undone by `step_back`).
    pub fn set_registers(&mut self, registers: Registers)
        ensures
            final(self).regs() == registers,
            final(self).wf() == old(self).wf(),
            final(self).mem() == old(self).mem(),
            final(self).is_halted() == old(self).is_halted(),
            final(self).output() == old(self).output(),
            final(self).pending_key() == old(self).pending_key(),
            final(self).pending_interrupt() == old(self).pending_interrupt(),
            final(self).history() == old(self).history(),
            keeps_session(*old(self), *final(self)),
    {
        self.registers = registers;
    }
}

/// Executes one instruction (see `execute`), stated over `execution`.
fn run_instruction(instr: &Instruction, regs: &mut Registers, memory: &mut Memory) -> (effect:
    ExecutionEffect)
    requires
        crate::cpu::execute::executable(*instr),
    ensures
        (*final(regs), final(memory)@, effect) == execution(*instr, *old(regs), old(memory)@),
        undo_preserved(old(memory), final(memory)),
{
    let effect = execute(instr, regs, memory);
    proof {
        reveal(execution);
    }
    effect
}

/// Writes back recorded `(address, old value)` pairs, the latest first.
fn undo_into(memory: &mut Memory, diffs: &Vec<(u32, u8)>)
    requires
        old(memory).observed() is Some,
    ensures
        final(memory)@ == undo_diffs(old(memory)@, diffs@),
        final(memory).observed() is Some,
{
    let ghost start = memory@;
    let mut k = diffs.len();
    assert(diffs@.take(k as int) =~= diffs@);
    while k > 0
        invariant
            k <= diffs.len(),
            undo_diffs(memory@, diffs@.take(k as int)) == undo_diffs(start, diffs@),
            memory.observed() is Some,
        decreases k,
    {
        k = k - 1;
        let (address, old_value) = diffs[k];
        memory.write_u8(address, old_value);
        assert(diffs@.take(k + 1).drop_last() =~= diffs@.take(k as int));
    }
    assert(diffs@.take(0) =~= Seq::<(u32, u8)>::empty());
}

/// Adding to a 32-bit address with wrap-around selects the same physical
/// byte as the exact sum (2^20 divides 2^32).
pub proof fn lemma_phys_wrapping_add(address: u32, k: u32)
    ensures
        phys(address.wrapping_add(k) as int) == phys(address + k),
{
    if address + k > u32::MAX {
        assert(address.wrapping_add(k) == address + k - 0x1_0000_0000);
        vstd::arithmetic::div_mod::lemma_mod_sub_multiples_vanish(
            (address + k) as int,
            MEMORY_SIZE as int,
        );
        assert(((address + k) - 0x1_0000_0000) % (MEMORY_SIZE as int) == (address + k) % (
        MEMORY_SIZE as int)) by {
            vstd::arithmetic::div_mod::lemma_mod_multiples_vanish(
                -4096,
                (address + k) as int,
                MEMORY_SIZE as int,
            );
        }
    } else {
        assert(address.wrapping_add(k) == address + k);
    }
}

impl Emulator {
    /// Steps until the program halts, waits for a key, hits a decode
    /// error, lands on a set breakpoint, or `max_steps` steps are done. A
    /// breakpoint at the starting IP does not stop the run: only a step
    /// that lands IP on one does.
    pub fn run(&mut self, max_steps: u32) -> (o: RunOutcome)
        requires
            old(self).wf(),
        ensures
            final(self).wf(),
            runs(*old(self), *final(self), max_steps as nat, o),
    {
        let ghost start = *self;
        let mut i: u32 = 0;
        while i < max_steps
            invariant
                i <= max_steps,
                self.wf(),
                start == *old(self),
                forall|b: Emulator, o: RunOutcome|
                    #[trigger] runs(*self, b, (max_steps - i) as nat, o) ==> runs(
                        start,
                        b,
                        max_steps as nat,
                        o,
                    ),
            decreases max_steps - i,
        {
            let ghost cur = *self;
            let r = self.step();
            let ghost m = *self;
            match r {
                Ok(StepOutcome::Halted) => {
                    proof {
                        lemma_run_stops(cur, m, r, (max_steps - i) as nat, RunOutcome::Halted);
                    }
                    return RunOutcome::Halted;
                },
                Ok(StepOutcome::WaitingForKeyboard) => {
                    proof {
                        lemma_run_stops(cur, m, r, (max_steps - i) as nat, RunOutcome::WaitingForKeyboard);
                    }
                    return RunOutcome::WaitingForKeyboard;
                },
                Ok(StepOutcome::Continued) => {
                    if self.breakpoints.is_set(self.registers.ip as u32) {
                        proof {
                            lemma_run_stops(cur, m, r, (max_steps - i) as nat, RunOutcome::BreakpointHit);
                        }
                        return RunOutcome::BreakpointHit;
                    }
                },
                Err(_) => {
                    proof {
                        lemma_run_stops(cur, m, r, (max_steps - i) as nat, RunOutcome::DecodeError);
                    }
                    return RunOutcome::DecodeError;
                },
            }
            proof {
                lemma_run_goes_on(cur, m, r, (max_steps - i) as nat, (max_steps - i - 1) as nat);
            }
            i = i + 1;
        }
        assert(runs(*self, *self, (max_steps - i) as nat, RunOutcome::StepLimitReached));
        RunOutcome::StepLimitReached
    }

    /// Runs until `address` is reached (a one-shot breakpoint there), a
    /// set breakpoint is hit, or the program halts, waits or fails first.
    /// The breakpoints afterwards are as before.
    pub fn run_to_cursor(&mut self, address: u32, max_steps: u32) -> (o: RunOutcome)
        requires
            old(self).wf(),
        ensures
            final(self).wf(),
            runs_to_cursor(*old(self), *final(self), address, max_steps as nat, o),
    {
        let already_set = self.breakpoints.is_set(address);
        if !already_set {
            self.breakpoints.toggle(address);
        }
        let ghost x = *self;
        assert(x.bps() =~= old(self).bps().insert(address));
        let o = self.run(max_steps);
        let ghost y = *self;
        proof {
            lemma_runs_keep_breakpoints(x, y, max_steps as nat, o);
        }
        if !already_set {
            self.breakpoints.toggle(address);
        }
        assert(self.bps() =~= old(self).bps());
        assert(runs(x, y, max_steps as nat, o));
        o
    }
}

/// A copy of a symbol table.
fn copy_symbols(symbols: &Vec<SymbolTableEntry>) -> (r: Vec<SymbolTableEntry>)
    ensures
        r@ == symbols@,
{
    let mut r: Vec<SymbolTableEntry> = Vec::new();
    let mut k: usize = 0;
    while k < symbols.len()
        invariant
            k <= symbols.len(),
            r@ == symbols@.take(k as int),
        decreases symbols.len() - k,
    {
        let s = &symbols[k];
        r.push(SymbolTableEntry { name: s.name.clone(), value: s.value, kind: s.kind });
        k = k + 1;
        assert(r@ =~= symbols@.take(k as int));
    }
    assert(symbols@.take(k as int) =~= symbols@);
    r
}

/// The index of the first symbol named `name` (ignoring ASCII case when
/// `fold`).
fn find_symbol(symbols: &Vec<SymbolTableEntry>, name: &str, fold: bool) -> (r: Option<usize>)
    ensures
        match r {
            Some(i) => named_index(symbols@, name@, fold, 0) == Some(i as nat),
            None => named_index(symbols@, name@, fold, 0) is None,
        },
{
    let mut k: usize = 0;
    while k < symbols.len()
        invariant
            k <= symbols.len(),
            named_index(symbols@, name@, fold, 0) == named_index(symbols@, name@, fold, k as nat),
        decreases symbols.len() - k,
    {
        let matches = if fold {
            text_is_ignore_case(symbols[k].name.as_str(), name)
        } else {
            text_is(symbols[k].name.as_str(), name)
        };
        if matches {
            return Some(k);
        }
        k = k + 1;
    }
    None
}

impl Emulator {
    /// Assembles `source` and loads it like `load_program`, then sets IP
    /// to the entry point, DS to the data segment and SS:SP to the stack
    /// segment when the source declared them (DS is set even though DOS
    /// would not, so programs without the `MOV AX,@DATA` boilerplate work
    /// too). The symbol table is kept for the Variables and Watch panels.
    pub fn assemble_and_load(&mut self, source: &str) -> (r: AssembleResult)
        requires
            source.spec_bytes().len() < u32::MAX,
        ensures
            final(self).wf(),
            assembly_of(source.spec_bytes(), r),
            final(self).mem() == loaded_image(r.machine_code@),
            final(self).regs() == loaded_registers(r),
            final(self).bps() == Set::<u32>::empty(),
            final(self).history() == Seq::<HistoryEntry>::empty(),
            !final(self).is_halted(),
            final(self).output() == Seq::<char>::empty(),
            final(self).pending_key() is None,
            final(self).pending_interrupt() is None,
            final(self).symbols() == r.symbols@,
            final(self).data_base() == match r.data_segment_base {
                Some(base) => base,
                None => 0,
            },
            final(self).watches() == old(self).watches(),
    {
        let result = assemble(source);
        self.load_program(result.machine_code.as_slice());
        self.registers.ip = result.entry_point as u16;
        self.last_symbols = copy_symbols(&result.symbols);
        match result.data_segment_base {
            Some(base) => {
                self.data_segment_base = base;
                self.registers.ds = (base / 16) as u16;
            },
            None => {
                self.data_segment_base = 0;
            },
        }
        match result.stack_segment {
            Some((base, size)) => {
                self.registers.ss = (base / 16) as u16;
                self.registers.sp = size as u16;
            },
            None => {},
        }
        result
    }

    /// Up to `len` bytes from `start` on (addresses wrap at 1MB); `len` is
    /// clamped to the size of memory.
    pub fn read_memory(&self, start: u32, len: u32) -> (r: Vec<u8>)
        ensures
            r@ == Seq::new(
                if len < MEMORY_SIZE {
                    len as nat
                } else {
                    MEMORY_SIZE as nat
                },
                |i: int| self.mem()[phys(start + i)],
            ),
    {
        let n: u32 = if len < MEMORY_SIZE as u32 {
            len
        } else {
            MEMORY_SIZE as u32
        };
        let mut r: Vec<u8> = Vec::new();
        let mut offset: u32 = 0;
        while offset < n
            invariant
                offset <= n,
                n <= MEMORY_SIZE,
                r@ == Seq::new(offset as nat, |i: int| self.memory@[phys(start + i)]),
            decreases n - offset,
        {
            let byte = self.memory.read_u8(start.wrapping_add(offset));
            proof {
                lemma_phys_wrapping_add(start, offset);
            }
            r.push(byte);
            offset = offset + 1;
            assert(r@ =~= Seq::new(offset as nat, |i: int| self.memory@[phys(start + i)]));
        }
        r
    }

    /// Edits one memory byte (a live edit, not a step: not undone by
    /// `step_back`).
    pub fn write_memory_byte(&mut self, address: u32, value: u8)
        requires
            old(self).wf(),
        ensures
            final(self).wf(),
            final(self).mem() == old(self).mem().update(phys(address as int), value),
            final(self).regs() == old(self).regs(),
            final(self).is_halted() == old(self).is_halted(),
            final(self).output() == old(self).output(),
            final(self).pending_key() == old(self).pending_key(),
            final(self).pending_interrupt() == old(self).pending_interrupt(),
            final(self).history() == old(self).history(),
            keeps_session(*old(self), *final(self)),
    {
        self.memory.write_u8(address, value);
        let _ = self.memory.take_writes();
    }

    /// Every `DB`/`DW` symbol of the last assembly with its current value,
    /// in symbol-table order; labels and constants are left out.
    pub fn variables(&self) -> (r: Vec<VariableValue>)
        ensures
            r@.map_values(|v: VariableValue| variable_view(v)) == variable_rows(
                self.symbols(),
                self.data_base(),
                self.mem(),
            ),
    {
        let mut r: Vec<VariableValue> = Vec::new();
        let mut k: usize = 0;
        while k < self.last_symbols.len()
            invariant
                k <= self.last_symbols.len(),
                r@.map_values(|v: VariableValue| variable_view(v)) == variable_rows(
                    self.last_symbols@.take(k as int),
                    self.data_segment_base,
                    self.memory@,
                ),
            decreases self.last_symbols.len() - k,
        {
            let symbol = &self.last_symbols[k];
            let address = (symbol.value as u32).wrapping_add(self.data_segment_base);
            let ghost before = r@;
            proof {
                assert(self.last_symbols@.take(k + 1).drop_last() =~= self.last_symbols@.take(k as int));
            }
            match symbol.kind {
                SymbolKind::DataByte => {
                    r.push(
                        VariableValue {
                            name: symbol.name.clone(),
                            address,
                            value: self.memory.read_u8(address) as u16,
                            is_word: false,
                        },
                    );
                },
                SymbolKind::DataWord => {
                    r.push(
                        VariableValue {
                            name: symbol.name.clone(),
                            address,
                            value: self.memory.read_u16(address),
                            is_word: true,
                        },
                    );
                },
                _ => {},
            }
            k = k + 1;
            assert(r@.map_values(|v: VariableValue| variable_view(v)) =~= variable_rows(
                self.last_symbols@.take(k as int),
                self.data_segment_base,
                self.memory@,
            ));
        }
        assert(self.last_symbols@.take(k as int) =~= self.last_symbols@);
        r
    }
}

/// The two upper-case hex digits of a byte.
fn push_hex2(s: &mut String, b: u8)
    ensures
        final(s)@ == old(s)@ + seq![digit_char((b / 16) as nat), digit_char((b % 16) as nat)],
{
    push_char(s, crate::textfmt::digit((b / 16) as u32));
    push_char(s, crate::textfmt::digit((b % 16) as u32));
}

impl Emulator {
    /// Resolves a watch expression: the register/flag/sized-address
    /// vocabulary first, then the last assembly's symbols by name (exact
    /// match first, then ignoring ASCII case).
    fn resolve_watch(&self, expression: &str) -> (r: Option<ResolvedWatch>)
        ensures
            r is Some == (watch_reading(
                expression@,
                self.symbols(),
                self.data_base(),
                self.regs(),
                self.mem(),
            ) is Some),
            r matches Some(rw) ==> Some(
                match rw {
                    ResolvedWatch::Live(t) => watch_value(t, self.registers, self.memory@),
                    ResolvedWatch::Constant(v) => v,
                },
            ) == watch_reading(expression@, self.symbols(), self.data_base(), self.regs(), self.mem()),
    {
        match parse_register_or_raw_address(expression) {
            Some(target) => {
                return Some(ResolvedWatch::Live(target));
            },
            None => {},
        }
        let index = match find_symbol(&self.last_symbols, expression, false) {
            Some(i) => i,
            None => match find_symbol(&self.last_symbols, expression, true) {
                Some(i) => i,
                None => {
                    return None;
                },
            },
        };
        proof {
            lemma_named_index_in_range(self.last_symbols@, expression@, false, 0);
            lemma_named_index_in_range(self.last_symbols@, expression@, true, 0);
        }
        let symbol = &self.last_symbols[index];
        let address = (symbol.value as u32).wrapping_add(self.data_segment_base);
        match symbol.kind {
            SymbolKind::DataByte => Some(
                ResolvedWatch::Live(WatchTarget::Memory { address, size: WatchSize::Byte }),
            ),
            SymbolKind::DataWord => Some(
                ResolvedWatch::Live(WatchTarget::Memory { address, size: WatchSize::Word }),
            ),
            _ => Some(ResolvedWatch::Constant(symbol.value as u16)),
        }
    }

    /// Adds a watch expression (trimmed), refusing one that is empty or
    /// resolves to nothing now.
    pub fn add_watch(&mut self, expression: &str) -> (r: Result<(), String>)
        requires
            old(self).wf(),
        ensures
            final(self).wf(),
            unchanged_but_watches(*old(self), *final(self)),
            trim(expression@).len() == 0 ==> (r matches Err(e) && e@
                == "watch expression must not be empty"@) && final(self).watches() == old(
                self,
            ).watches(),
            trim(expression@).len() > 0 && watch_reading(
                trim(expression@),
                old(self).symbols(),
                old(self).data_base(),
                old(self).regs(),
                old(self).mem(),
            ) is None ==> (r matches Err(e) && e@ == "unrecognized watch expression '"@ + trim(
                expression@,
            ) + "'"@) && final(self).watches() == old(self).watches(),
            trim(expression@).len() > 0 && watch_reading(
                trim(expression@),
                old(self).symbols(),
                old(self).data_base(),
                old(self).regs(),
                old(self).mem(),
            ) is Some ==> r is Ok && final(self).watches() == old(self).watches().push(
                trim(expression@),
            ),
    {
        let expression = trim_str(expression);
        if expression.as_str().is_empty() {
            return Err(crate::assembler::parse_error::text_of("watch expression must not be empty"));
        }
        if self.resolve_watch(expression.as_str()).is_none() {
            return Err(
                crate::assembler::parse_error::quoted(
                    "unrecognized watch expression '",
                    expression.as_str(),
                    "'",
                ),
            );
        }
        let ghost e = expression@;
        self.watch_expressions.push(expression);
        assert(self.watches() =~= old(self).watches().push(e));
        Ok(())
    }

    /// Removes the watch at `index`; an index out of range changes
    /// nothing.
    pub fn remove_watch(&mut self, index: usize)
        ensures
            unchanged_but_watches(*old(self), *final(self)),
            final(self).wf() == old(self).wf(),
            final(self).watches() == if index < old(self).watches().len() {
                old(self).watches().remove(index as int)
            } else {
                old(self).watches()
            },
    {
        if index < self.watch_expressions.len() {
            let _ = self.watch_expressions.remove(index);
            assert(self.watches() =~= old(self).watches().remove(index as int));
        }
    }

    /// Removes every watch.
    pub fn clear_watches(&mut self)
        ensures
            unchanged_but_watches(*old(self), *final(self)),
            final(self).wf() == old(self).wf(),
            final(self).watches() == Seq::<Seq<char>>::empty(),
    {
        self.watch_expressions.clear();
        assert(self.watches() =~= Seq::<Seq<char>>::empty());
    }

    /// Every watch's current value, in the order added; `None` for one
    /// that no longer resolves.
    pub fn watch_values(&self) -> (r: Vec<WatchValue>)
        ensures
            r@.len() == self.watches().len(),
            forall|k: int|
                0 <= k < r@.len() ==> (#[trigger] r@[k]).expression@ == self.watches()[k] && r@[k].value
                    == watch_reading(
                    self.watches()[k],
                    self.symbols(),
                    self.data_base(),
                    self.regs(),
                    self.mem(),
                ),
    {
        let mut r: Vec<WatchValue> = Vec::new();
        let mut k: usize = 0;
        while k < self.watch_expressions.len()
            invariant
                k <= self.watch_expressions.len(),
                r@.len() == k,
                forall|j: int|
                    0 <= j < k ==> (#[trigger] r@[j]).expression@ == self.watch_expressions@[j]@
                        && r@[j].value == watch_reading(
                        self.watch_expressions@[j]@,
                        self.last_symbols@,
                        self.data_segment_base,
                        self.registers,
                        self.memory@,
                    ),
            decreases self.watch_expressions.len() - k,
        {
            let expression = &self.watch_expressions[k];
            let value = match self.resolve_watch(expression.as_str()) {
                Some(ResolvedWatch::Live(target)) => Some(evaluate(target, &self.registers, &self.memory)),
                Some(ResolvedWatch::Constant(v)) => Some(v),
                None => None,
            };
            r.push(WatchValue { expression: expression.clone(), value });
            k = k + 1;
        }
        r
    }

    /// Disassembles `count` instructions forward from `start`. A byte that
    /// does not decode becomes a one-byte `DB xxh` line and disassembly
    /// goes on at the next byte.
    #[verifier::rlimit(50)]
    #[verifier::spinoff_prover]
    pub fn disassemble(&self, start: u32, count: u32) -> (r: Vec<DisassembledLine>)
        ensures
            r@.len() == count,
            forall|k: int|
                0 <= k < count ==> {
                    let line = #[trigger] r@[k];
                    &&& line.address == line_address(self.mem(), start, k as nat)
                    &&& line.byte_len == line_len(self.mem(), line.address)
                    &&& line_text(self.mem(), line.address, line.text@)
                },
    {
        let mut lines: Vec<DisassembledLine> = Vec::new();
        let mut address = start;
        let mut k: u32 = 0;
        while k < count
            invariant
                k <= count,
                lines@.len() == k,
                address == line_address(self.memory@, start, k as nat),
                forall|j: int|
                    0 <= j < k ==> {
                        let line = #[trigger] lines@[j];
                        &&& line.address == line_address(self.memory@, start, j as nat)
                        &&& line.byte_len == line_len(self.memory@, line.address)
                        &&& line_text(self.memory@, line.address, line.text@)
                    },
            decreases count - k,
        {
            let window = self.fetch(address);
            match decode_one(window.as_slice()) {
                Ok((instruction, len)) => {
                    let text = format_instruction(&instruction, address);
                    assert(iview(instruction) == spec_decode(fetch_at(self.memory@, address))->Ok_0.0);
                    lines.push(DisassembledLine { address, text, byte_len: len as u32 });
                    address = address.wrapping_add(len as u32);
                },
                Err(_) => {
                    let byte = self.memory.read_u8(address);
                    let mut text = String::new();
                    push_str(&mut text, "DB ");
                    push_hex2(&mut text, byte);
                    push_char(&mut text, 'h');
                    proof {
                        reveal_strlit("DB ");
                    }
                    assert(text@ =~= seq!['D', 'B', ' ', digit_char((byte / 16) as nat), digit_char((byte % 16) as nat), 'h']);
                    lines.push(DisassembledLine { address, text, byte_len: 1 });
                    address = address.wrapping_add(1);
                },
            }
            k = k + 1;
        }
        lines
    }
}

/// A found index is within the table.
proof fn lemma_named_index_in_range(symbols: Seq<SymbolTableEntry>, name: Seq<char>, fold: bool, k: nat)
    ensures
        named_index(symbols, name, fold, k) matches Some(i) ==> k <= i < symbols.len() && (if fold {
            eq_ignore_case(symbols[i as int].name@, name)
        } else {
            symbols[i as int].name@ == name
        }),
    decreases symbols.len() - k,
{
    if k < symbols.len() {
        lemma_named_index_in_range(symbols, name, fold, k + 1);
    }
}

} // verus!
