//! Sums over allocation records: what each lane still owes its recipients.
use vstd::prelude::*;

use crate::address::Addr;

verus! {

/// The amount already claimed by `user` according to a progress record
/// (zero when the record has no entry for `user`).
pub open spec fn prior_progress(progress: Map<Seq<u8>, i128>, user: Seq<u8>) -> int {
    if progress.dom().contains(user) {
        progress[user] as int
    } else {
        0
    }
}

/// What is still owed on one allocation entry, given the progress record.
pub open spec fn remaining_of(entry: (Addr, i128), progress: Map<Seq<u8>, i128>) -> int {
    entry.1 - prior_progress(progress, entry.0@)
}

/// What is still owed on all the allocation entries.
pub open spec fn outstanding(entries: Seq<(Addr, i128)>, progress: Map<Seq<u8>, i128>) -> int
    decreases entries.len(),
{
    if entries.len() == 0 {
        0
    } else {
        outstanding(entries.drop_last(), progress) + remaining_of(entries.last(), progress)
    }
}

/// Sum of the amounts of the entries.
pub open spec fn sum_amounts(entries: Seq<(Addr, i128)>) -> int
    decreases entries.len(),
{
    if entries.len() == 0 {
        0
    } else {
        sum_amounts(entries.drop_last()) + entries.last().1
    }
}

/// With no progress at all, everything allocated is still owed.
pub proof fn lemma_outstanding_no_progress(entries: Seq<(Addr, i128)>)
    ensures
        outstanding(entries, Map::empty()) == sum_amounts(entries),
    decreases entries.len(),
{
    if entries.len() > 0 {
        lemma_outstanding_no_progress(entries.drop_last());
    }
}

/// What is owed depends on the progress record only at the entries' keys.
pub proof fn lemma_outstanding_same_progress(
    entries: Seq<(Addr, i128)>,
    p1: Map<Seq<u8>, i128>,
    p2: Map<Seq<u8>, i128>,
)
    requires
        forall|i: int|
            0 <= i < entries.len() ==> prior_progress(p1, #[trigger] entries[i].0@) == prior_progress(
                p2,
                entries[i].0@,
            ),
    ensures
        outstanding(entries, p1) == outstanding(entries, p2),
    decreases entries.len(),
{
    if entries.len() > 0 {
        let init = entries.drop_last();
        assert forall|i: int| 0 <= i < init.len() implies prior_progress(p1, #[trigger] init[i].0@)
            == prior_progress(p2, init[i].0@) by {
            assert(init[i] == entries[i]);
        }
        lemma_outstanding_same_progress(init, p1, p2);
        assert(entries.last() == entries[entries.len() - 1]);
    }
}

/// Taking one entry out lowers what is owed by exactly that entry's share.
pub proof fn lemma_outstanding_remove(entries: Seq<(Addr, i128)>, progress: Map<Seq<u8>, i128>, i: int)
    requires
        0 <= i < entries.len(),
    ensures
        outstanding(entries, progress) == outstanding(entries.remove(i), progress) + remaining_of(
            entries[i],
            progress,
        ),
    decreases entries.len(),
{
    let rest = entries.remove(i);
    entries.remove_ensures(i);
    if i == entries.len() - 1 {
        assert(rest =~= entries.drop_last());
    } else {
        let init = entries.drop_last();
        lemma_outstanding_remove(init, progress, i);
        assert(rest.drop_last() =~= init.remove(i));
        assert(rest.last() == entries.last());
        assert(init[i] == entries[i]);
    }
}

/// When nothing is over-claimed on any entry, nothing negative is owed.
pub proof fn lemma_outstanding_nonnegative(entries: Seq<(Addr, i128)>, progress: Map<Seq<u8>, i128>)
    requires
        forall|i: int| 0 <= i < entries.len() ==> remaining_of(#[trigger] entries[i], progress) >= 0,
    ensures
        outstanding(entries, progress) >= 0,
    decreases entries.len(),
{
    if entries.len() > 0 {
        let init = entries.drop_last();
        assert forall|i: int| 0 <= i < init.len() implies remaining_of(#[trigger] init[i], progress) >= 0 by {
            assert(init[i] == entries[i]);
        }
        lemma_outstanding_nonnegative(init, progress);
        assert(entries.last() == entries[entries.len() - 1]);
    }
}

} // verus!
