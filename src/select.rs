//! Selection of the archive entries that a permitted-path set admits.
use vstd::prelude::*;
use crate::entry::{Entry, Strategy, supports};
use crate::filter::PermittedPaths;

verus! {

/// Whether the filter admits an entry at path `p`: every path when there is
/// no filter, else exactly the paths of the set.
pub open spec fn admits(filter: Option<PermittedPaths>, p: Seq<u8>) -> bool {
    match filter {
        None => true,
        Some(f) => f@.contains(p),
    }
}

/// `sel` lists, in increasing order, exactly the positions of the entries
/// whose path the filter admits.
pub open spec fn is_selection(entries: Seq<Entry>, filter: Option<PermittedPaths>, sel: Seq<usize>) -> bool {
    &&& forall|j: int| 0 <= j < sel.len() ==> sel[j] < entries.len()
    &&& forall|j: int| 0 <= j < sel.len() ==> admits(filter, entries[sel[j] as int].path@)
    &&& forall|j: int, k: int| 0 <= j < k < sel.len() ==> sel[j] < sel[k]
    &&& forall|i: int|
        0 <= i < entries.len() && admits(filter, #[trigger] entries[i].path@) ==> exists|j: int|
            0 <= j < sel.len() && sel[j] == i
}

/// The positions of the entries to extract, in the archive's own order.
/// Without a filter that is every position.
pub fn select_entries(entries: &Vec<Entry>, filter: &Option<PermittedPaths>) -> (r: Vec<usize>)
    ensures
        is_selection(entries@, *filter, r@),
        filter.is_none() ==> r@.len() == entries@.len() && forall|j: int|
            0 <= j < r@.len() ==> r@[j] == j,
{
    let mut r: Vec<usize> = Vec::new();
    let mut i: usize = 0;
    while i < entries.len()
        invariant
            i <= entries@.len(),
            forall|j: int| 0 <= j < r@.len() ==> r@[j] < i,
            forall|j: int| 0 <= j < r@.len() ==> admits(*filter, entries@[r@[j] as int].path@),
            forall|j: int, k: int| 0 <= j < k < r@.len() ==> r@[j] < r@[k],
            forall|m: int|
                0 <= m < i && admits(*filter, #[trigger] entries@[m].path@) ==> exists|j: int|
                    0 <= j < r@.len() && r@[j] == m,
            filter.is_none() ==> r@.len() == i && forall|j: int| 0 <= j < r@.len() ==> r@[j] == j,
        decreases entries@.len() - i,
    {
        let take = match filter {
            None => true,
            Some(f) => f.contains(entries[i].path.as_slice()),
        };
        if take {
            let ghost before = r@;
            r.push(i);
            assert forall|m: int|
                0 <= m < i + 1 && admits(*filter, #[trigger] entries@[m].path@) implies exists|j: int|
                    0 <= j < r@.len() && r@[j] == m by {
                if m < i {
                    let j = choose|j: int| 0 <= j < before.len() && before[j] == m;
                    assert(r@[j] == m);
                } else {
                    assert(r@[before.len() as int] == m);
                }
            }
        }
        i = i + 1;
    }
    r
}

/// Whether the filter admits no path at all. Extraction then writes
/// nothing and succeeds at once, without opening the archive.
pub fn selects_nothing(filter: &Option<PermittedPaths>) -> (r: bool)
    ensures
        r == (filter.is_some() && filter.unwrap()@ == Set::<Seq<u8>>::empty()),
{
    match filter {
        None => false,
        Some(f) => f.is_empty(),
    }
}

/// A filter that admits no path selects no entry, whatever the archive holds.
pub proof fn lemma_empty_filter_selects_nothing(
    entries: Seq<Entry>,
    filter: PermittedPaths,
    sel: Seq<usize>,
)
    requires
        filter@ == Set::<Seq<u8>>::empty(),
        is_selection(entries, Some(filter), sel),
    ensures
        sel.len() == 0,
{
    if sel.len() > 0 {
        assert(admits(Some(filter), entries[sel[0] as int].path@));
    }
}

/// An admitted entry of a kind that the strategy cannot write is always
/// among the selected ones: no selection skips it, so its plan fails and
/// with it the whole extraction.
pub proof fn lemma_unsupported_entry_is_selected(
    entries: Seq<Entry>,
    filter: Option<PermittedPaths>,
    sel: Seq<usize>,
    i: int,
    strategy: Strategy,
)
    requires
        is_selection(entries, filter, sel),
        0 <= i < entries.len(),
        admits(filter, entries[i].path@),
        !supports(strategy, entries[i].kind),
    ensures
        exists|j: int| 0 <= j < sel.len() && !supports(strategy, #[trigger] entries[sel[j] as int].kind),
{
    let j = choose|j: int| 0 <= j < sel.len() && sel[j] == i;
    assert(entries[sel[j] as int].kind == entries[i].kind);
}

} // verus!
