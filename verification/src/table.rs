//! A table from identities to signed amounts, in which each identity occurs
//! at most once. It holds the allocation and claim-progress records.
use vstd::prelude::*;

use crate::address::Addr;

verus! {

/// No identity occurs twice among the entries.
pub open spec fn keys_distinct(s: Seq<(Addr, i128)>) -> bool {
    forall|i: int, j: int| 0 <= i < s.len() && 0 <= j < s.len() && i != j ==> #[trigger] s[i].0@ != #[trigger] s[j].0@
}

/// Some entry is for the identity `k`.
pub open spec fn has_key(s: Seq<(Addr, i128)>, k: Seq<u8>) -> bool {
    exists|i: int| 0 <= i < s.len() && #[trigger] s[i].0@ == k
}

/// The entries read as a map from identity to amount.
pub open spec fn entries_map(s: Seq<(Addr, i128)>) -> Map<Seq<u8>, i128> {
    Map::new(
        |k: Seq<u8>| has_key(s, k),
        |k: Seq<u8>| s[choose|i: int| 0 <= i < s.len() && #[trigger] s[i].0@ == k].1,
    )
}

/// With distinct identities, every entry is what the map gives for its key.
pub proof fn lemma_entries_map_at(s: Seq<(Addr, i128)>, i: int)
    requires
        keys_distinct(s),
        0 <= i < s.len(),
    ensures
        entries_map(s).dom().contains(s[i].0@),
        entries_map(s)[s[i].0@] == s[i].1,
{
    let k = s[i].0@;
    assert(has_key(s, k));
    let j = choose|j: int| 0 <= j < s.len() && #[trigger] s[j].0@ == k;
    assert(s[j].0@ == k);
    if j != i {
        assert(s[i].0@ != s[j].0@);
    }
}

/// Identity-to-amount records with at most one entry per identity.
#[derive(Debug)]
pub struct AllocationTable {
    entries: Vec<(Addr, i128)>,
}

impl View for AllocationTable {
    type V = Map<Seq<u8>, i128>;

    closed spec fn view(&self) -> Map<Seq<u8>, i128> {
        entries_map(self.entries@)
    }
}

impl Clone for AllocationTable {
    /// A table with the same entries in the same order.
    fn clone(&self) -> (t: AllocationTable)
        ensures
            t@ == self@,
            t.entry_seq().len() == self.entry_seq().len(),
            forall|i: int|
                0 <= i < self.entry_seq().len() ==> (#[trigger] t.entry_seq()[i]).0@ == self.entry_seq()[i].0@
                    && t.entry_seq()[i].1 == self.entry_seq()[i].1,
    {
        proof {
            use_type_invariant(self);
        }
        let n = self.entries.len();
        let mut entries: Vec<(Addr, i128)> = Vec::new();
        let mut i: usize = 0;
        while i < n
            invariant
                n == self.entries@.len(),
                i <= n,
                keys_distinct(self.entries@),
                entries@.len() == i,
                forall|j: int| 0 <= j < i ==> (#[trigger] entries@[j]).0@ == self.entries@[j].0@ && entries@[j].1
                    == self.entries@[j].1,
            decreases n - i,
        {
            entries.push((self.entries[i].0.duplicate(), self.entries[i].1));
            i = i + 1;
        }
        let ghost s = self.entries@;
        let ghost t = entries@;
        proof {
            assert(keys_distinct(t)) by {
                assert forall|a: int, b: int|
                    0 <= a < t.len() && 0 <= b < t.len() && a != b implies #[trigger] t[a].0@ != #[trigger] t[b].0@ by {
                    assert(s[a].0@ != s[b].0@);
                }
            }
            assert forall|x: Seq<u8>| #[trigger] entries_map(t).dom().contains(x) <==> entries_map(s).dom().contains(x) by {
                if has_key(t, x) {
                    let j = choose|j: int| 0 <= j < t.len() && #[trigger] t[j].0@ == x;
                    assert(s[j].0@ == x);
                }
                if has_key(s, x) {
                    let j = choose|j: int| 0 <= j < s.len() && #[trigger] s[j].0@ == x;
                    assert(t[j].0@ == x);
                }
            }
            assert forall|x: Seq<u8>| #[trigger] entries_map(t).dom().contains(x) implies entries_map(t)[x]
                == entries_map(s)[x] by {
                let j = choose|j: int| 0 <= j < t.len() && #[trigger] t[j].0@ == x;
                lemma_entries_map_at(t, j);
                lemma_entries_map_at(s, j);
            }
            assert(entries_map(t) =~= entries_map(s));
        }
        AllocationTable { entries }
    }
}

impl AllocationTable {
    #[verifier::type_invariant]
    closed spec fn no_duplicates(self) -> bool {
        keys_distinct(self.entries@)
    }

    /// The entries in the order in which they are stored.
    pub closed spec fn entry_seq(self) -> Seq<(Addr, i128)> {
        self.entries@
    }

    /// The stored entries have distinct identities and make up the table's
    /// map. (Every table satisfies this; it is stated so that proofs
    /// elsewhere can rely on it.)
    pub open spec fn well_formed(self) -> bool {
        &&& keys_distinct(self.entry_seq())
        &&& self@ == entries_map(self.entry_seq())
    }

    /// A table with no entries.
    pub fn new() -> (t: AllocationTable)
        ensures
            t@ == Map::<Seq<u8>, i128>::empty(),
            t.entry_seq().len() == 0,
            t.well_formed(),
    {
        let t = AllocationTable { entries: Vec::new() };
        assert(t@ =~= Map::<Seq<u8>, i128>::empty());
        t
    }

    /// The stored entries, each identity once.
    pub fn entries(&self) -> (r: &[(Addr, i128)])
        ensures
            r@ == self.entry_seq(),
            keys_distinct(r@),
            entries_map(r@) == self@,
    {
        proof {
            use_type_invariant(self);
        }
        self.entries.as_slice()
    }

    /// The number of stored entries.
    pub fn len(&self) -> (n: usize)
        ensures
            n == self.entry_seq().len(),
    {
        self.entries.len()
    }

    /// The position of `k` among the entries, if it has one.
    fn find(&self, k: &Addr) -> (r: Option<usize>)
        ensures
            match r {
                Some(i) => i < self.entries@.len() && self.entries@[i as int].0@ == k@,
                None => !has_key(self.entries@, k@),
            },
    {
        let n = self.entries.len();
        let mut i: usize = 0;
        while i < n
            invariant
                n == self.entries@.len(),
                i <= n,
                forall|j: int| 0 <= j < i ==> #[trigger] self.entries@[j].0@ != k@,
            decreases n - i,
        {
            if self.entries[i].0.same(k) {
                return Some(i);
            }
            i = i + 1;
        }
        None
    }

    /// The amount recorded for `k`, if any.
    pub fn get(&self, k: &Addr) -> (r: Option<i128>)
        ensures
            r == self@.get(k@),
            self.well_formed(),
    {
        proof {
            use_type_invariant(self);
        }
        match self.find(k) {
            Some(i) => {
                proof {
                    lemma_entries_map_at(self.entries@, i as int);
                }
                Some(self.entries[i].1)
            },
            None => None,
        }
    }

    /// Whether some amount is recorded for `k`.
    pub fn contains(&self, k: &Addr) -> (r: bool)
        ensures
            r == self@.dom().contains(k@),
            self.well_formed(),
    {
        proof {
            use_type_invariant(self);
        }
        self.find(k).is_some()
    }

    /// Records `v` for `k`, replacing any earlier amount for `k`.
    pub fn set(&mut self, k: &Addr, v: i128)
        ensures
            final(self)@ == old(self)@.insert(k@, v),
            old(self).well_formed(),
            final(self).well_formed(),
            !old(self)@.dom().contains(k@) ==> {
                &&& final(self).entry_seq().len() == old(self).entry_seq().len() + 1
                &&& final(self).entry_seq().drop_last() == old(self).entry_seq()
                &&& final(self).entry_seq().last().0@ == k@
                &&& final(self).entry_seq().last().1 == v
            },
    {
        proof {
            use_type_invariant(&*self);
        }
        let pos = self.find(k);
        let mut entries: Vec<(Addr, i128)> = Vec::new();
        std::mem::swap(&mut entries, &mut self.entries);
        let ghost s = entries@;
        match pos {
            Some(i) => {
                entries.set(i, (k.duplicate(), v));
            },
            None => {
                entries.push((k.duplicate(), v));
            },
        }
        let ghost t = entries@;
        proof {
            assert(keys_distinct(t)) by {
                assert forall|a: int, b: int|
                    0 <= a < t.len() && 0 <= b < t.len() && a != b implies #[trigger] t[a].0@ != #[trigger] t[b].0@ by {
                    if pos is None {
                        if a < s.len() && b < s.len() {
                            assert(s[a].0@ != s[b].0@);
                        } else if a < s.len() {
                            assert(s[a] == t[a]);
                        } else {
                            assert(s[b] == t[b]);
                        }
                    } else {
                        let i = pos.unwrap() as int;
                        if a != i && b != i {
                            assert(s[a].0@ != s[b].0@);
                        } else if a == i {
                            assert(s[b].0@ != s[i].0@);
                        } else {
                            assert(s[a].0@ != s[i].0@);
                        }
                    }
                }
            }
            assert(entries_map(t) =~= entries_map(s).insert(k@, v)) by {
                assert forall|x: Seq<u8>| #[trigger] entries_map(t).dom().contains(x) <==> entries_map(s).insert(k@, v).dom().contains(x) by {
                    if has_key(t, x) {
                        let j = choose|j: int| 0 <= j < t.len() && #[trigger] t[j].0@ == x;
                        if x != k@ {
                            assert(s[j] == t[j]);
                            assert(has_key(s, x));
                        }
                    }
                    if has_key(s, x) && x != k@ {
                        let j = choose|j: int| 0 <= j < s.len() && #[trigger] s[j].0@ == x;
                        assert(s[j] == t[j]);
                        assert(has_key(t, x));
                    }
                    if x == k@ {
                        let i = if pos is Some { pos.unwrap() as int } else { s.len() as int };
                        assert(t[i].0@ == x);
                    }
                }
                assert forall|x: Seq<u8>| #[trigger] entries_map(t).dom().contains(x) implies entries_map(t)[x] == entries_map(s).insert(k@, v)[x] by {
                    let j = choose|j: int| 0 <= j < t.len() && #[trigger] t[j].0@ == x;
                    lemma_entries_map_at(t, j);
                    if x != k@ {
                        assert(s[j] == t[j]);
                        lemma_entries_map_at(s, j);
                    }
                }
            }
        }
        self.entries = entries;
    }

    /// Drops the amount recorded for `k`, if any.
    pub fn remove(&mut self, k: &Addr)
        ensures
            final(self)@ == old(self)@.remove(k@),
            old(self).well_formed(),
            final(self).well_formed(),
            old(self)@.dom().contains(k@) ==> exists|i: int|
                0 <= i < old(self).entry_seq().len() && #[trigger] old(self).entry_seq()[i].0@ == k@
                    && final(self).entry_seq() == old(self).entry_seq().remove(i),
    {
        proof {
            use_type_invariant(&*self);
        }
        match self.find(k) {
            None => {
                assert(self@ =~= self@.remove(k@));
            },
            Some(i) => {
                let mut entries: Vec<(Addr, i128)> = Vec::new();
                std::mem::swap(&mut entries, &mut self.entries);
                let ghost s = entries@;
                let _ = entries.remove(i);
                let ghost t = entries@;
                proof {
                    let ii = i as int;
                    s.remove_ensures(ii);
                    // Index in `s` of the entry at position `j` of `t`.
                    assert(keys_distinct(t)) by {
                        assert forall|a: int, b: int|
                            0 <= a < t.len() && 0 <= b < t.len() && a != b implies #[trigger] t[a].0@ != #[trigger] t[b].0@ by {
                            let sa = if a < ii { a } else { a + 1 };
                            let sb = if b < ii { b } else { b + 1 };
                            assert(t[a] == s[sa]);
                            assert(t[b] == s[sb]);
                            assert(s[sa].0@ != s[sb].0@);
                        }
                    }
                    assert(entries_map(t) =~= entries_map(s).remove(k@)) by {
                        assert forall|x: Seq<u8>| #[trigger] entries_map(t).dom().contains(x) <==> entries_map(s).remove(k@).dom().contains(x) by {
                            if has_key(t, x) {
                                let j = choose|j: int| 0 <= j < t.len() && #[trigger] t[j].0@ == x;
                                let sj = if j < ii { j } else { j + 1 };
                                assert(t[j] == s[sj]);
                                assert(s[sj].0@ != s[ii].0@);
                                assert(has_key(s, x));
                            }
                            if has_key(s, x) && x != k@ {
                                let j = choose|j: int| 0 <= j < s.len() && #[trigger] s[j].0@ == x;
                                assert(j != ii);
                                let tj = if j < ii { j } else { j - 1 };
                                assert(t[tj] == s[j]);
                                assert(has_key(t, x));
                            }
                        }
                        assert forall|x: Seq<u8>| #[trigger] entries_map(t).dom().contains(x) implies entries_map(t)[x] == entries_map(s).remove(k@)[x] by {
                            let j = choose|j: int| 0 <= j < t.len() && #[trigger] t[j].0@ == x;
                            let sj = if j < ii { j } else { j + 1 };
                            assert(t[j] == s[sj]);
                            lemma_entries_map_at(t, j);
                            lemma_entries_map_at(s, sj);
                            assert(s[sj].0@ != s[ii].0@);
                        }
                    }
                }
                self.entries = entries;
            },
        }
    }
}

} // verus!

verus! {

/// Appending an entry for a new identity adds exactly that identity.
pub proof fn lemma_entries_map_push(s: Seq<(Addr, i128)>, e: (Addr, i128))
    requires
        keys_distinct(s),
        !has_key(s, e.0@),
    ensures
        keys_distinct(s.push(e)),
        entries_map(s.push(e)) == entries_map(s).insert(e.0@, e.1),
{
    let t = s.push(e);
    assert forall|a: int, b: int| 0 <= a < t.len() && 0 <= b < t.len() && a != b implies #[trigger] t[a].0@
        != #[trigger] t[b].0@ by {
        if a < s.len() && b < s.len() {
            assert(s[a].0@ != s[b].0@);
        } else if a < s.len() {
            assert(t[a] == s[a]);
        } else {
            assert(t[b] == s[b]);
        }
    }
    assert forall|x: Seq<u8>| #[trigger] entries_map(t).dom().contains(x) <==> entries_map(s).insert(
        e.0@,
        e.1,
    ).dom().contains(x) by {
        if has_key(s, x) {
            let j = choose|j: int| 0 <= j < s.len() && #[trigger] s[j].0@ == x;
            assert(t[j] == s[j]);
        }
        if has_key(t, x) && x != e.0@ {
            let j = choose|j: int| 0 <= j < t.len() && #[trigger] t[j].0@ == x;
            assert(t[j] == s[j]);
        }
        if x == e.0@ {
            assert(t[s.len() as int] == e);
        }
    }
    assert forall|x: Seq<u8>| #[trigger] entries_map(t).dom().contains(x) implies entries_map(t)[x]
        == entries_map(s).insert(e.0@, e.1)[x] by {
        let j = choose|j: int| 0 <= j < t.len() && #[trigger] t[j].0@ == x;
        lemma_entries_map_at(t, j);
        if j < s.len() {
            assert(t[j] == s[j]);
            lemma_entries_map_at(s, j);
        }
    }
    assert(entries_map(t) =~= entries_map(s).insert(e.0@, e.1));
}

} // verus!
