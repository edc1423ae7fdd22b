//! Breakpoints, watch expressions, and step-back history.
//!
//! A history entry holds the registers before a step and the
//! `(address, old value)` pairs of the bytes it changed; stepping back
//! puts those bytes back in reverse and restores the registers.
use crate::cpu::Registers;
use std::collections::{BTreeSet, VecDeque};
use vstd::prelude::*;

pub mod watch;

verus! {

#[derive(Debug)]
pub struct Breakpoints {
    addresses: BTreeSet<u32>,
}

impl Breakpoints {
    /// The set addresses.
    pub closed spec fn view(&self) -> Set<u32> {
        self.addresses@
    }

    pub fn new() -> (b: Breakpoints)
        ensures
            b.view() == Set::<u32>::empty(),
    {
        Breakpoints { addresses: BTreeSet::new() }
    }

    /// Sets the breakpoint if it was absent and clears it if it was set;
    /// returns whether it is set now.
    pub fn toggle(&mut self, address: u32) -> (now_set: bool)
        ensures
            now_set == !old(self).view().contains(address),
            now_set ==> final(self).view() == old(self).view().insert(address),
            !now_set ==> final(self).view() == old(self).view().remove(address),
    {
        if self.addresses.remove(&address) {
            false
        } else {
            self.addresses.insert(address);
            true
        }
    }

    pub fn is_set(&self, address: u32) -> (r: bool)
        ensures
            r == self.view().contains(address),
    {
        self.addresses.contains(&address)
    }

    pub fn clear_all(&mut self)
        ensures
            final(self).view() == Set::<u32>::empty(),
    {
        self.addresses.clear();
    }
}

/// Toggling the same address twice leaves the breakpoints as they were.
pub proof fn lemma_toggle_twice(before: Set<u32>, middle: Set<u32>, after: Set<u32>, address: u32)
    requires
        !before.contains(address) ==> middle == before.insert(address),
        before.contains(address) ==> middle == before.remove(address),
        !middle.contains(address) ==> after == middle.insert(address),
        middle.contains(address) ==> after == middle.remove(address),
    ensures
        after == before,
{
    if before.contains(address) {
        assert(after =~= before);
    } else {
        assert(after =~= before);
    }
}

/// One step's undo information: the registers before it and every byte
/// it changed, as `(address, old value)` in write order.
#[derive(Debug, Clone)]
pub struct HistoryEntry {
    pub registers_before: Registers,
    pub memory_diffs: Vec<(u32, u8)>,
}

/// A bounded history of steps: past its capacity the oldest entry goes.
pub struct History {
    entries: VecDeque<HistoryEntry>,
    capacity: usize,
}

impl History {
    /// The entries, oldest first.
    pub closed spec fn view(&self) -> Seq<HistoryEntry> {
        self.entries@
    }

    pub closed spec fn capacity(&self) -> nat {
        self.capacity as nat
    }

    /// At most `capacity` entries, and a positive capacity.
    pub closed spec fn wf(&self) -> bool {
        self.capacity > 0 && self.entries@.len() <= self.capacity
    }

    pub fn new(capacity: usize) -> (h: History)
        requires
            capacity > 0,
        ensures
            h.wf(),
            h.view() == Seq::<HistoryEntry>::empty(),
            h.capacity() == capacity,
    {
        History { entries: VecDeque::new(), capacity }
    }

    /// Records a step, dropping the oldest entry when full.
    pub fn push(&mut self, entry: HistoryEntry)
        requires
            old(self).wf(),
        ensures
            final(self).wf(),
            final(self).capacity() == old(self).capacity(),
            final(self).view() == if old(self).view().len() == old(self).capacity() {
                old(self).view().drop_first().push(entry)
            } else {
                old(self).view().push(entry)
            },
    {
        if self.entries.len() == self.capacity {
            let _ = self.entries.pop_front();
        }
        self.entries.push_back(entry);
    }

    /// The most recent entry, removed; `None` when empty.
    pub fn pop(&mut self) -> (r: Option<HistoryEntry>)
        requires
            old(self).wf(),
        ensures
            final(self).wf(),
            final(self).capacity() == old(self).capacity(),
            old(self).view().len() == 0 ==> r is None && final(self).view() == old(self).view(),
            old(self).view().len() > 0 ==> r == Some(old(self).view().last()) && final(self).view()
                == old(self).view().drop_last(),
    {
        self.entries.pop_back()
    }

    pub fn len(&self) -> (n: usize)
        ensures
            n == self.view().len(),
    {
        self.entries.len()
    }

    pub fn is_empty(&self) -> (r: bool)
        ensures
            r == (self.view().len() == 0),
    {
        self.entries.len() == 0
    }
}

/// A history never holds more entries than its capacity, whatever was
/// pushed.
pub proof fn lemma_history_bounded(h: History)
    requires
        h.wf(),
    ensures
        h.view().len() <= h.capacity(),
{
}

/// Popping right after a push gives back the pushed entry.
pub proof fn lemma_push_then_pop(pushed: Seq<HistoryEntry>, entry: HistoryEntry, before: Seq<HistoryEntry>, capacity: nat)
    requires
        before.len() <= capacity,
        capacity > 0,
        pushed == (if before.len() == capacity {
            before.drop_first().push(entry)
        } else {
            before.push(entry)
        }),
    ensures
        pushed.len() > 0,
        pushed.last() == entry,
        pushed.len() < capacity ==> pushed.drop_last() == before,
{
    if before.len() < capacity {
        assert(before.push(entry).drop_last() =~= before);
    }
}

} // verus!
