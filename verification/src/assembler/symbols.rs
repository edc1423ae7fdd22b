//! The assembler's symbol table: names to values and kinds, kept sorted
//! by name with each name at most once.
use crate::words::{chars_of, same_chars};
use vstd::prelude::*;

verus! {

/// A resolved symbol's role. `DataByte`/`DataWord` tell a watch panel how
/// many bytes to read at the symbol's address; `Constant` and `Label` are
/// plain values.
#[derive(Debug, Clone, Copy, PartialEq, Eq, Structural)]
pub enum SymbolKind {
    /// Defined with `EQU`.
    Constant,
    /// A code label (`name:`) or `PROC` name.
    Label,
    /// A `DB` variable: a bare reference means the byte stored there.
    DataByte,
    /// A `DW` variable: a bare reference means the word stored there.
    DataWord,
}

impl SymbolKind {
    pub open spec fn spec_is_data(self) -> bool {
        self is DataByte || self is DataWord
    }

    pub fn is_data(self) -> (r: bool)
        ensures
            r == self.spec_is_data(),
    {
        match self {
            SymbolKind::DataByte | SymbolKind::DataWord => true,
            _ => false,
        }
    }
}

#[derive(Debug, Clone, Copy, PartialEq, Eq, Structural)]
pub struct SymbolEntry {
    pub value: i64,
    pub kind: SymbolKind,
}

/// Lexicographic order on character sequences (by code point, which is
/// also the order of their UTF-8 bytes).
pub open spec fn chars_less(a: Seq<char>, b: Seq<char>) -> bool
    decreases a.len(),
{
    if a.len() == 0 {
        b.len() > 0
    } else if b.len() == 0 {
        false
    } else if a[0] != b[0] {
        a[0] < b[0]
    } else {
        chars_less(a.drop_first(), b.drop_first())
    }
}

pub proof fn lemma_less_total(a: Seq<char>, b: Seq<char>)
    ensures
        a != b ==> (chars_less(a, b) || chars_less(b, a)),
        !(chars_less(a, b) && chars_less(b, a)),
        !chars_less(a, a),
    decreases a.len(),
{
    if a.len() == 0 && b.len() == 0 {
        assert(a =~= b);
    } else if a.len() > 0 && b.len() > 0 {
        if a[0] == b[0] {
            lemma_less_total(a.drop_first(), b.drop_first());
            if a.drop_first() == b.drop_first() {
                assert(a =~= seq![a[0]] + a.drop_first());
                assert(b =~= seq![b[0]] + b.drop_first());
            }
        }
    }
    if a.len() > 0 {
        lemma_less_total(a.drop_first(), a.drop_first());
    }
}

/// The table: entries in strictly increasing name order.
pub struct SymbolTable {
    entries: Vec<(String, SymbolEntry)>,
}

impl SymbolTable {
    pub closed spec fn names(self) -> Seq<Seq<char>> {
        self.entries@.map_values(|e: (String, SymbolEntry)| e.0@)
    }

    pub closed spec fn values(self) -> Seq<SymbolEntry> {
        self.entries@.map_values(|e: (String, SymbolEntry)| e.1)
    }

    /// Names strictly increasing (so each occurs once).
    pub closed spec fn wf(self) -> bool {
        forall|i: int| 0 <= i < self.entries@.len() - 1 ==> chars_less(
            #[trigger] self.names()[i],
            self.names()[i + 1],
        )
    }

    /// What the table holds: each name to its entry.
    pub closed spec fn view(self) -> Map<Seq<char>, SymbolEntry> {
        Map::new(
            |k: Seq<char>| self.names().contains(k),
            |k: Seq<char>| self.values()[self.names().index_of(k)],
        )
    }

    /// The entries in table order, as (name, entry) pairs.
    pub closed spec fn listing(self) -> Seq<(Seq<char>, SymbolEntry)> {
        self.entries@.map_values(|e: (String, SymbolEntry)| (e.0@, e.1))
    }

    pub fn new() -> (t: SymbolTable)
        ensures
            t.wf(),
            t.view() == Map::<Seq<char>, SymbolEntry>::empty(),
    {
        let t = SymbolTable { entries: Vec::new() };
        assert(t.view() =~= Map::<Seq<char>, SymbolEntry>::empty());
        t
    }

    fn position_of(&self, name: &Vec<char>) -> (r: Option<usize>)
        ensures
            match r {
                Some(i) => i < self.entries@.len() && self.names()[i as int] == name@,
                None => !self.names().contains(name@),
            },
    {
        let mut i: usize = 0;
        while i < self.entries.len()
            invariant
                i <= self.entries@.len(),
                forall|j: int| 0 <= j < i ==> self.names()[j] != name@,
            decreases self.entries@.len() - i,
        {
            let n = chars_of(self.entries[i].0.as_str());
            if same_chars(&n, name) {
                return Some(i);
            }
            i = i + 1;
        }
        None
    }

    /// The entry named `name`, if any.
    pub fn get(&self, name: &str) -> (r: Option<SymbolEntry>)
        requires
            self.wf(),
        ensures
            match r {
                Some(e) => self.view().contains_key(name@) && self.view()[name@] == e,
                None => !self.view().contains_key(name@),
            },
    {
        let key = chars_of(name);
        match self.position_of(&key) {
            Some(i) => {
                proof {
                    self.lemma_unique(i as int, name@);
                }
                Some(self.entries[i].1)
            },
            None => None,
        }
    }

    proof fn lemma_unique(self, i: int, k: Seq<char>)
        requires
            self.wf(),
            0 <= i < self.entries@.len(),
            self.names()[i] == k,
        ensures
            self.names().index_of(k) == i,
    {
        assert forall|j: int| 0 <= j < i implies self.names()[j] != k by {
            self.lemma_sorted(j, i);
            lemma_less_total(self.names()[j], k);
        }
        assert(self.names().contains(k));
        let f = self.names().index_of(k);
        if f != i {
            if f > i {
                self.lemma_sorted(i, f);
                lemma_less_total(k, k);
            }
        }
    }

    proof fn lemma_sorted(self, i: int, j: int)
        requires
            self.wf(),
            0 <= i < j < self.entries@.len(),
        ensures
            chars_less(self.names()[i], self.names()[j]),
        decreases j - i,
    {
        if j > i + 1 {
            self.lemma_sorted(i, j - 1);
            assert(chars_less(self.names()[j - 1], self.names()[j]));
            lemma_less_trans(self.names()[i], self.names()[j - 1], self.names()[j]);
        }
    }

    /// Sets `name` to `entry`, replacing any earlier entry of that name.
    pub fn insert(&mut self, name: String, entry: SymbolEntry)
        requires
            old(self).wf(),
        ensures
            final(self).wf(),
            final(self).view() == old(self).view().insert(name@, entry),
    {
        let key = chars_of(name.as_str());
        match self.position_of(&key) {
            Some(i) => {
                proof {
                    self.lemma_unique(i as int, name@);
                }
                let ghost before = *self;
                self.entries.set(i, (name, entry));
                proof {
                    assert(self.names() =~= before.names());
                    assert forall|k: Seq<char>| #[trigger] self.view().contains_key(k) <==> before.view().insert(name@, entry).contains_key(k) by {}
                    assert forall|k: Seq<char>| self.view().contains_key(k) implies #[trigger] self.view()[k] == before.view().insert(name@, entry)[k] by {
                        if k == name@ {
                            assert(self.names().index_of(k) == i);
                        } else {
                            let f = self.names().index_of(k);
                            assert(f != i);
                        }
                    }
                    assert(self.view() =~= before.view().insert(name@, entry));
                }
            },
            None => {
                let mut p: usize = 0;
                while p < self.entries.len() && text_less(&self.entries[p].0, &key)
                    invariant
                        p <= self.entries@.len(),
                        key@ == name@,
                        forall|j: int| 0 <= j < p ==> chars_less(#[trigger] self.names()[j], key@),
                    decreases self.entries@.len() - p,
                {
                    p = p + 1;
                }
                let ghost before = *self;
                self.entries.insert(p, (name, entry));
                proof {
                    self.lemma_after_insert(before, p as int, name@, entry);
                }
            },
        }
    }

    proof fn lemma_after_insert(self, before: SymbolTable, p: int, k: Seq<char>, entry: SymbolEntry)
        requires
            before.wf(),
            !before.names().contains(k),
            0 <= p <= before.entries@.len(),
            self.entries@ == before.entries@.insert(p, self.entries@[p]),
            self.entries@[p].0@ == k,
            self.entries@[p].1 == entry,
            forall|j: int| 0 <= j < p ==> chars_less(#[trigger] before.names()[j], k),
            p < before.entries@.len() ==> !chars_less(before.names()[p], k),
        ensures
            self.wf(),
            self.view() == before.view().insert(k, entry),
    {
        assert(self.names() =~= before.names().insert(p, k));
        assert(self.values() =~= before.values().insert(p, entry));
        assert forall|i: int| 0 <= i < self.entries@.len() - 1 implies chars_less(
            #[trigger] self.names()[i],
            self.names()[i + 1],
        ) by {
            if i + 1 < p {
                assert(chars_less(before.names()[i], before.names()[i + 1]));
            } else if i + 1 == p {
            } else if i == p {
                lemma_less_total(before.names()[p], k);
            } else {
                assert(chars_less(before.names()[i - 1], before.names()[i]));
            }
        }
        assert forall|x: Seq<char>| #[trigger] self.view().contains_key(x) <==> before.view().insert(
            k,
            entry,
        ).contains_key(x) by {
            if before.names().contains(x) {
                let f = before.names().index_of(x);
                if f < p {
                    assert(self.names()[f] == x);
                } else {
                    assert(self.names()[f + 1] == x);
                }
            }
            if self.names().contains(x) && x != k {
                let f = self.names().index_of(x);
                if f < p {
                    assert(before.names()[f] == x);
                } else if f > p {
                    assert(before.names()[f - 1] == x);
                }
            }
            assert(self.names()[p] == k);
        }
        assert forall|x: Seq<char>| self.view().contains_key(x) implies #[trigger] self.view()[x]
            == before.view().insert(k, entry)[x] by {
            if x == k {
                self.lemma_unique(p, k);
            } else {
                let g = before.names().index_of(x);
                before.lemma_unique_any(x);
                if g < p {
                    self.lemma_unique(g, x);
                } else {
                    self.lemma_unique(g + 1, x);
                }
            }
        }
        assert(self.view() =~= before.view().insert(k, entry));
    }

    proof fn lemma_unique_any(self, k: Seq<char>)
        requires
            self.wf(),
            self.names().contains(k),
        ensures
            0 <= self.names().index_of(k) < self.entries@.len(),
            self.names()[self.names().index_of(k)] == k,
    {
    }

    /// The listing holds exactly the table's names, in strictly
    /// increasing order, each with its entry.
    pub proof fn lemma_listing(self)
        requires
            self.wf(),
        ensures
            forall|i: int|
                0 <= i < self.listing().len() ==> self.view().contains_key(
                    #[trigger] self.listing()[i].0,
                ) && self.view()[self.listing()[i].0] == self.listing()[i].1,
            forall|k: Seq<char>|
                self.view().contains_key(k) ==> exists|i: int|
                    0 <= i < self.listing().len() && #[trigger] self.listing()[i].0 == k,
            forall|i: int, j: int|
                0 <= i < j < self.listing().len() ==> chars_less(
                    #[trigger] self.listing()[i].0,
                    #[trigger] self.listing()[j].0,
                ),
    {
        assert forall|i: int| 0 <= i < self.listing().len() implies self.view().contains_key(
            #[trigger] self.listing()[i].0,
        ) && self.view()[self.listing()[i].0] == self.listing()[i].1 by {
            assert(self.names()[i] == self.listing()[i].0);
            self.lemma_unique(i, self.listing()[i].0);
        }
        assert forall|k: Seq<char>| self.view().contains_key(k) implies exists|i: int|
            0 <= i < self.listing().len() && #[trigger] self.listing()[i].0 == k by {
            let f = self.names().index_of(k);
            assert(self.listing()[f].0 == k);
        }
        assert forall|i: int, j: int| 0 <= i < j < self.listing().len() implies chars_less(
            #[trigger] self.listing()[i].0,
            #[trigger] self.listing()[j].0,
        ) by {
            self.lemma_sorted(i, j);
        }
    }

    /// The entries in name order.
    pub fn entries(&self) -> (r: &Vec<(String, SymbolEntry)>)
        ensures
            r@.map_values(|e: (String, SymbolEntry)| (e.0@, e.1)) == self.listing(),
    {
        &self.entries
    }
}

pub proof fn lemma_less_trans(a: Seq<char>, b: Seq<char>, c: Seq<char>)
    requires
        chars_less(a, b),
        chars_less(b, c),
    ensures
        chars_less(a, c),
    decreases a.len(),
{
    if a.len() > 0 && b.len() > 0 && c.len() > 0 && a[0] == b[0] && b[0] == c[0] {
        lemma_less_trans(a.drop_first(), b.drop_first(), c.drop_first());
    }
}

/// Whether `a` orders before `b`.
pub fn text_less(a: &String, b: &Vec<char>) -> (r: bool)
    ensures
        r == chars_less(a@, b@),
{
    let x = chars_of(a.as_str());
    let mut i: usize = 0;
    assert(x@.skip(0) =~= x@);
    assert(b@.skip(0) =~= b@);
    while i < x.len() && i < b.len()
        invariant
            x@ == a@,
            i <= x.len(),
            i <= b.len(),
            forall|j: int| 0 <= j < i ==> x@[j] == b@[j],
            chars_less(a@, b@) == chars_less(x@.skip(i as int), b@.skip(i as int)),
        decreases x.len() - i,
    {
        if x[i] != b[i] {
            return x[i] < b[i];
        }
        assert(x@.skip(i as int).drop_first() =~= x@.skip(i + 1));
        assert(b@.skip(i as int).drop_first() =~= b@.skip(i + 1));
        i = i + 1;
    }
    i == x.len() && i < b.len()
}

} // verus!
