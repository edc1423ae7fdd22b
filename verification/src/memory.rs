//! Flat 1MB memory for 8086 real-mode addressing.
//!
//! A segment:offset pair resolves to a 20-bit physical address
//! (`segment * 16 + offset`), wrapping at the 1MB boundary. This module
//! owns that resolution and the raw byte storage, plus an optional log of
//! every byte write that actually changed a value (what the debugger's
//! step-back history is built from).
use vstd::prelude::*;

verus! {

/// Total addressable memory: 2^20 bytes.
pub const MEMORY_SIZE: usize = 0x10_0000;

/// The physical byte an address selects (addresses wrap at 1MB).
pub open spec fn phys(address: int) -> int {
    address % (MEMORY_SIZE as int)
}

/// `segment * 16 + offset`, wrapped to 20 bits.
pub open spec fn spec_resolve(segment: u16, offset: u16) -> u32 {
    ((segment * 16 + offset) % 0x10_0000) as u32
}

/// One recorded write: (address, value before, value after).
pub type WriteEvent = (u32, u8, u8);

pub struct Memory {
    bytes: Vec<u8>,
    observer: Option<Vec<WriteEvent>>,
}

impl View for Memory {
    type V = Seq<u8>;

    closed spec fn view(&self) -> Seq<u8> {
        Seq::new(
            MEMORY_SIZE as nat,
            |i: int|
                if i < self.bytes@.len() {
                    self.bytes@[i]
                } else {
                    0u8
                },
        )
    }
}

/// The memory contents before a sequence of recorded writes: each
/// write's old value is put back, most recent first.
pub open spec fn undo_writes(mem: Seq<u8>, log: Seq<WriteEvent>) -> Seq<u8>
    decreases log.len(),
{
    if log.len() == 0 {
        mem
    } else {
        let e = log.last();
        undo_writes(mem.update(phys(e.0 as int), e.1), log.drop_last())
    }
}

/// Going from `before` to `after` kept write recording on or off, and
/// the record still undoes back to the same starting contents.
pub open spec fn undo_preserved(before: &Memory, after: &Memory) -> bool {
    match (before.observed(), after.observed()) {
        (Some(b), Some(a)) => undo_writes(after@, a) == undo_writes(before@, b),
        (None, None) => true,
        _ => false,
    }
}

/// A 16-bit little-endian value assembled from two bytes.
pub open spec fn le16(low: u8, high: u8) -> u16 {
    (low + 256 * high) as u16
}

impl Memory {
    /// Whether writes are being recorded, and the writes recorded so far.
    pub closed spec fn observed(&self) -> Option<Seq<WriteEvent>> {
        match self.observer {
            Some(v) => Some(v@),
            None => None,
        }
    }

    /// Zero-filled memory with no write recording.
    pub fn new() -> (m: Memory)
        ensures
            m@ == Seq::new(MEMORY_SIZE as nat, |i: int| 0u8),
            m.observed() is None,
    {
        let mut bytes: Vec<u8> = Vec::with_capacity(MEMORY_SIZE);
        let mut i: usize = 0;
        while i < MEMORY_SIZE
            invariant
                i <= MEMORY_SIZE,
                bytes@.len() == i,
                forall|j: int| 0 <= j < i ==> bytes@[j] == 0u8,
            decreases MEMORY_SIZE - i,
        {
            bytes.push(0u8);
            i = i + 1;
        }
        let m = Memory { bytes, observer: None };
        assert(m@ =~= Seq::new(MEMORY_SIZE as nat, |i: int| 0u8));
        m
    }

    /// Starts recording every value-changing byte write, discarding any
    /// earlier record.
    pub fn set_observer(&mut self)
        ensures
            final(self)@ == old(self)@,
            final(self).observed() == Some(Seq::<WriteEvent>::empty()),
    {
        self.observer = Some(Vec::new());
    }

    /// Stops recording writes.
    pub fn clear_observer(&mut self)
        ensures
            final(self)@ == old(self)@,
            final(self).observed() is None,
    {
        self.observer = None;
    }

    /// Hands back the writes recorded since the last call (in write
    /// order) and empties the record; recording stays on if it was on.
    pub fn take_writes(&mut self) -> (events: Vec<WriteEvent>)
        ensures
            final(self)@ == old(self)@,
            match old(self).observed() {
                Some(s) => events@ == s && final(self).observed() == Some(
                    Seq::<WriteEvent>::empty(),
                ),
                None => events@.len() == 0 && final(self).observed() is None,
            },
    {
        match self.observer.take() {
            Some(events) => {
                self.observer = Some(Vec::new());
                events
            },
            None => Vec::new(),
        }
    }

    /// Resolves a real-mode segment:offset pair to a 20-bit physical
    /// address, wrapping at the 1MB boundary.
    pub fn resolve(segment: u16, offset: u16) -> (r: u32)
        ensures
            r == spec_resolve(segment, offset),
            r < MEMORY_SIZE,
    {
        let s = segment as u32;
        let o = offset as u32;
        let r = (s * 16 + o) % 0x10_0000;
        r
    }

    pub fn read_u8(&self, address: u32) -> (v: u8)
        ensures
            v == self@[phys(address as int)],
            self@.len() == MEMORY_SIZE,
    {
        let index = (address as usize) % MEMORY_SIZE;
        if index < self.bytes.len() {
            self.bytes[index]
        } else {
            0
        }
    }

    pub fn write_u8(&mut self, address: u32, value: u8)
        ensures
            final(self)@ == old(self)@.update(phys(address as int), value),
            old(self)@.len() == MEMORY_SIZE,
            final(self)@.len() == MEMORY_SIZE,
            final(self).observed() == (match old(self).observed() {
                Some(s) => if old(self)@[phys(address as int)] != value {
                    Some(
                        s.push(
                            ((phys(address as int)) as u32, old(self)@[phys(address as int)], value),
                        ),
                    )
                } else {
                    Some(s)
                },
                None => None,
            }),
            undo_preserved(old(self), final(self)),
    {
        let index = (address as usize) % MEMORY_SIZE;
        let old_value = self.read_u8(address);
        if index < self.bytes.len() {
            self.bytes.set(index, value);
        } else {
            while self.bytes.len() < index
                invariant
                    self.bytes@.len() <= index,
                    forall|j: int| 0 <= j < old(self).bytes@.len() ==> self.bytes@[j] == old(self).bytes@[j],
                    forall|j: int| old(self).bytes@.len() <= j < self.bytes@.len() ==> self.bytes@[j] == 0u8,
                    self.bytes@.len() >= old(self).bytes@.len(),
                    self.observer == old(self).observer,
                decreases index - self.bytes@.len(),
            {
                self.bytes.push(0u8);
            }
            self.bytes.push(value);
        }
        if old_value != value {
            match self.observer.take() {
                Some(mut events) => {
                    events.push((index as u32, old_value, value));
                    self.observer = Some(events);
                },
                None => {},
            }
        }
        assert(self@ =~= old(self)@.update(phys(address as int), value));
        proof {
            if old_value != value {
                if let Some(log) = old(self).observed() {
                    let p = phys(address as int);
                    assert(index == p);
                    let e: WriteEvent = (index as u32, old_value, value);
                    assert(self.observed() == Some(log.push(e)));
                    assert(log.push(e).drop_last() =~= log);
                    assert(self@.update(p, old_value) =~= old(self)@);
                    assert(phys(e.0 as int) == p);
                    assert(undo_writes(self@, log.push(e)) == undo_writes(
                        self@.update(phys(e.0 as int), e.1),
                        log,
                    ));
                    assert(undo_preserved(old(self), self));
                }
            } else {
                assert(self.observed() == old(self).observed());
                assert(self@ == old(self)@);
            }
        }
    }

    /// Little-endian 16-bit read; the high byte's address wraps
    /// independently at the 1MB boundary.
    pub fn read_u16(&self, address: u32) -> (v: u16)
        ensures
            v == le16(self@[phys(address as int)], self@[phys(address as int + 1)]),
            self@.len() == MEMORY_SIZE,
    {
        let low = self.read_u8(address);
        let high = self.read_u8(address.wrapping_add(1));
        proof {
            lemma_phys_wrapping_succ(address);
        }
        (low as u16) + (high as u16) * 256
    }

    /// Little-endian 16-bit write (low byte first).
    pub fn write_u16(&mut self, address: u32, value: u16)
        ensures
            final(self)@ == old(self)@.update(phys(address as int), (value % 256) as u8).update(
                phys(address as int + 1),
                (value / 256) as u8,
            ),
            old(self)@.len() == MEMORY_SIZE,
            final(self)@.len() == MEMORY_SIZE,
            undo_preserved(old(self), final(self)),
    {
        let low = (value % 256) as u8;
        let high = (value / 256) as u8;
        self.write_u8(address, low);
        proof {
            lemma_phys_wrapping_succ(address);
        }
        self.write_u8(address.wrapping_add(1), high);
    }
}

/// Incrementing a 32-bit address with wrap-around selects the next
/// physical byte (2^20 divides 2^32).
pub proof fn lemma_phys_wrapping_succ(address: u32)
    ensures
        phys(address.wrapping_add(1) as int) == phys(address as int + 1),
{
    if address == 0xFFFF_FFFFu32 {
        assert(phys(address as int + 1) == 0);
    } else {
        assert(address.wrapping_add(1) == address + 1);
    }
}

/// Undo records compose: two stretches that each preserve the undo
/// target preserve it together.
pub proof fn lemma_undo_preserved_trans(a: &Memory, b: &Memory, c: &Memory)
    requires
        undo_preserved(a, b),
        undo_preserved(b, c),
    ensures
        undo_preserved(a, c),
{
}

/// A memory with no changes preserves its own undo target.
pub proof fn lemma_undo_preserved_refl(a: &Memory)
    ensures
        undo_preserved(a, a),
{
}

/// What a read gives back of a write: a byte read after a byte write at
/// the same address returns the written value, and a read elsewhere is
/// unaffected.
/// A little-endian word written at `address` reads back as the same
/// word (the two bytes never collide, even across the 1MB wrap).
pub proof fn lemma_u16_read_after_write(before: Seq<u8>, address: int, value: u16)
    requires
        before.len() == MEMORY_SIZE,
    ensures
        ({
            let after = before.update(phys(address), (value % 256) as u8).update(
                phys(address + 1),
                (value / 256) as u8,
            );
            le16(after[phys(address)], after[phys(address + 1)]) == value
        }),
{
    let p = phys(address);
    let q = phys(address + 1);
    assert(p != q) by {
        assert(q == (p + 1) % (MEMORY_SIZE as int));
    }
    assert((((value % 256) as u8) + 256 * ((value / 256) as u8)) as u16 == value);
}

/// Every memory holds exactly 2^20 bytes.
pub proof fn lemma_memory_len(m: &Memory)
    ensures
        m@.len() == MEMORY_SIZE,
{
}

pub proof fn lemma_read_after_write(before: Seq<u8>, address: int, value: u8, other: int)
    requires
        before.len() == MEMORY_SIZE,
    ensures
        before.update(phys(address), value)[phys(address)] == value,
        phys(other) != phys(address) ==> before.update(phys(address), value)[phys(other)]
            == before[phys(other)],
{
}

} // verus!
