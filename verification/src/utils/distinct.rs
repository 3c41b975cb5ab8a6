//! Lists without repetitions, in the order of first occurrence.

use vstd::prelude::*;

verus! {

/// `acc` followed by the items of `more` that are new, each at its first
/// occurrence.
pub open spec fn merge<A>(acc: Seq<A>, more: Seq<A>) -> Seq<A>
    decreases more.len(),
{
    if more.len() == 0 {
        acc
    } else {
        let before = merge(acc, more.drop_last());
        if before.contains(more.last()) {
            before
        } else {
            before.push(more.last())
        }
    }
}

/// The items of `s`, each once, in the order of their first occurrence.
pub open spec fn distinct<A>(s: Seq<A>) -> Seq<A> {
    merge(Seq::empty(), s)
}

/// Merging holds exactly the items of both sides.
pub proof fn lemma_merge_contains<A>(acc: Seq<A>, more: Seq<A>, x: A)
    ensures
        merge(acc, more).contains(x) <==> acc.contains(x) || more.contains(x),
    decreases more.len(),
{
    if more.len() > 0 {
        let head = more.drop_last();
        let before = merge(acc, head);
        lemma_merge_contains(acc, head, x);
        if more.contains(x) {
            let k = choose|k: int| 0 <= k < more.len() && more[k] == x;
            if k < head.len() {
                assert(head[k] == x);
            }
        }
        if head.contains(x) {
            let k = choose|k: int| 0 <= k < head.len() && head[k] == x;
            assert(more[k] == x);
        }
        if !before.contains(more.last()) {
            let after = before.push(more.last());
            if before.contains(x) {
                let k = choose|k: int| 0 <= k < before.len() && before[k] == x;
                assert(after[k] == x);
            }
            if after.contains(x) {
                let k = choose|k: int| 0 <= k < after.len() && after[k] == x;
                if k < before.len() {
                    assert(before[k] == x);
                } else {
                    assert(more[more.len() - 1] == x);
                }
            }
            assert(after[after.len() - 1] == more.last());
        } else {
            assert(more[more.len() - 1] == more.last());
        }
    }
}

/// Merging into a list without repetitions gives a list without
/// repetitions.
pub proof fn lemma_merge_no_duplicates<A>(acc: Seq<A>, more: Seq<A>)
    requires
        acc.no_duplicates(),
    ensures
        merge(acc, more).no_duplicates(),
    decreases more.len(),
{
    if more.len() > 0 {
        lemma_merge_no_duplicates(acc, more.drop_last());
    }
}

/// Merging one batch after another is merging them joined.
pub proof fn lemma_merge_joined<A>(acc: Seq<A>, first: Seq<A>, second: Seq<A>)
    ensures
        merge(merge(acc, first), second) == merge(acc, first + second),
    decreases second.len(),
{
    if second.len() == 0 {
        assert(first + second == first);
    } else {
        lemma_merge_joined(acc, first, second.drop_last());
        assert((first + second).drop_last() == first + second.drop_last());
        assert((first + second).last() == second.last());
    }
}

/// A list without its repetitions holds the same items, each once.
pub proof fn lemma_distinct<A>(s: Seq<A>, x: A)
    ensures
        distinct(s).contains(x) <==> s.contains(x),
        distinct(s).no_duplicates(),
{
    lemma_merge_contains(Seq::<A>::empty(), s, x);
    lemma_merge_no_duplicates(Seq::<A>::empty(), s);
}

} // verus!
