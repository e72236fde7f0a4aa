//! Removing several items of a list by the positions that they had at the start.
use vstd::prelude::*;

verus! {

/// Whether a position is one of `entries`.
pub open spec fn listed(entries: Seq<usize>, position: int) -> bool {
    exists|k: int| 0 <= k < entries.len() && entries[k] == position
}

/// The items whose positions are not listed, in their order.
pub open spec fn without<T>(items: Seq<T>, entries: Seq<usize>) -> Seq<T>
    decreases items.len(),
{
    if items.len() == 0 {
        items
    } else if listed(entries, items.len() - 1) {
        without(items.drop_last(), entries)
    } else {
        without(items.drop_last(), entries).push(items.last())
    }
}

/// Whether `entries` are positions of a list of `len` items, each named once and in order.
pub open spec fn positions(entries: Seq<usize>, len: int) -> bool {
    &&& forall|k: int| 0 <= k < entries.len() ==> entries[k] < len
    &&& forall|j: int, k: int| 0 <= j < k < entries.len() ==> entries[j] < entries[k]
}

/// Items at positions that are not listed are all kept.
proof fn lemma_run_is_kept<T>(items: Seq<T>, entries: Seq<usize>, a: int, b: int)
    requires
        0 <= a <= b <= items.len(),
        forall|i: int| a <= i < b ==> !listed(entries, i),
    ensures
        without(items.take(b), entries) == without(items.take(a), entries) + items.subrange(a, b),
    decreases b - a,
{
    if a < b {
        lemma_run_is_kept(items, entries, a, b - 1);
        assert(items.take(b).drop_last() =~= items.take(b - 1));
        assert(!listed(entries, b - 1));
        assert(items.subrange(a, b) =~= items.subrange(a, b - 1).push(items[b - 1]));
    }
    assert(without(items.take(b), entries) =~= without(items.take(a), entries) + items.subrange(
        a,
        b,
    ));
}

/// The position that is dealt with next once the first `k` entries are.
spec fn frontier(entries: Seq<usize>, len: int, k: int) -> int {
    if k < entries.len() {
        entries[k] as int
    } else {
        len
    }
}

/// Removes the items at the listed positions, from the first to the last. As each removal
/// moves the later items down by one, an entry is taken less the number of those before it.
pub fn remove_entries<T>(items: &mut Vec<T>, entries: &Vec<usize>)
    requires
        positions(entries@, old(items)@.len() as int),
    ensures
        final(items)@ == without(old(items)@, entries@),
{
    let ghost all = items@;
    let ghost len = all.len() as int;
    let mut removed: usize = 0;
    proof {
        let m = frontier(entries@, len, 0);
        lemma_run_is_kept(all, entries@, 0, m);
        assert(all.take(0) =~= Seq::<T>::empty());
        assert(items@ =~= without(all.take(m), entries@) + all.skip(m));
    }
    while removed < entries.len()
        invariant
            removed <= entries.len(),
            len == all.len(),
            positions(entries@, len),
            items@ == without(all.take(frontier(entries@, len, removed as int)), entries@)
                + all.skip(frontier(entries@, len, removed as int)),
            without(all.take(frontier(entries@, len, removed as int)), entries@).len() == frontier(
                entries@,
                len,
                removed as int,
            ) - removed,
        decreases entries.len() - removed,
    {
        let entry = entries[removed];
        let ghost kept = without(all.take(entry as int), entries@);
        items.remove(entry - removed);
        proof {
            let m = entry as int;
            let next = frontier(entries@, len, removed + 1);
            assert(listed(entries@, m));
            assert(all.take(m + 1).drop_last() =~= all.take(m));
            assert(without(all.take(m + 1), entries@) == kept);
            assert forall|i: int| m < i < next implies !listed(entries@, i) by {
                if listed(entries@, i) {
                    let k = choose|k: int| 0 <= k < entries@.len() && entries@[k] == i;
                    if k <= removed {
                        assert(entries@[k] <= entries@[removed as int]);
                    } else if k > removed + 1 {
                        assert(entries@[removed + 1] < entries@[k]);
                    }
                }
            }
            lemma_run_is_kept(all, entries@, m + 1, next);
            assert(items@ =~= without(all.take(next), entries@) + all.skip(next));
        }
        removed = removed + 1;
    }
    proof {
        assert(all.take(len) =~= all);
        assert(items@ =~= without(all, entries@));
    }
}

} // verus!
