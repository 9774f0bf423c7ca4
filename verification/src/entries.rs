//! The store written out as a list of entries, and read back from one.

use crate::tokens::{TokenData, TokenKey, TokenMap, TokenRecord};
use vstd::prelude::*;

verus! {

/// A list of entries as mathematical values.
pub type EntrySeq = Seq<(TokenKey, TokenRecord)>;

/// The mathematical value of a list of entries.
pub open spec fn entries_view(entries: Seq<(TokenKey, TokenData)>) -> EntrySeq {
    Seq::new(entries.len(), |i: int| (entries[i].0, entries[i].1@))
}

/// The map that a list of entries stands for: the entries put into an empty
/// map one after the other, so that of two entries with one key the later
/// stays.
pub open spec fn entries_map(entries: EntrySeq) -> TokenMap
    decreases entries.len(),
{
    if entries.len() == 0 {
        Map::empty()
    } else {
        entries_map(entries.drop_last()).insert(entries.last().0, entries.last().1)
    }
}

/// No key occurs twice in the list.
pub open spec fn distinct_keys(entries: EntrySeq) -> bool {
    forall|i: int, j: int|
        0 <= i < j < entries.len() ==> (#[trigger] entries[i]).0 != (#[trigger] entries[j]).0
}

/// The list holds each record of `m` once under its key, and nothing else.
pub open spec fn lists_exactly(entries: EntrySeq, m: TokenMap) -> bool {
    &&& distinct_keys(entries)
    &&& forall|i: int|
        0 <= i < entries.len() ==> m.contains_key((#[trigger] entries[i]).0) && m[entries[i].0]
            == entries[i].1
    &&& forall|k: TokenKey| #[trigger]
        m.contains_key(k) ==> exists|i: int| 0 <= i < entries.len() && (#[trigger] entries[i]).0 == k
}

/// A key is in the map of a list exactly when some entry carries it.
pub proof fn lemma_entries_map_keys(entries: EntrySeq, k: TokenKey)
    ensures
        entries_map(entries).contains_key(k) <==> exists|i: int|
            0 <= i < entries.len() && (#[trigger] entries[i]).0 == k,
    decreases entries.len(),
{
    if entries.len() > 0 {
        let front = entries.drop_last();
        lemma_entries_map_keys(front, k);
        if entries_map(entries).contains_key(k) {
            if entries.last().0 == k {
                assert(entries[entries.len() - 1].0 == k);
            } else {
                let i = choose|i: int| 0 <= i < front.len() && (#[trigger] front[i]).0 == k;
                assert(entries[i].0 == k);
            }
        }
        if exists|i: int| 0 <= i < entries.len() && (#[trigger] entries[i]).0 == k {
            let i = choose|i: int| 0 <= i < entries.len() && (#[trigger] entries[i]).0 == k;
            if i < front.len() {
                assert(front[i].0 == k);
            }
        }
    }
}

/// The map of a list gives a key the record of the last entry that carries it.
pub proof fn lemma_entries_map_last_wins(entries: EntrySeq, i: int)
    requires
        0 <= i < entries.len(),
        forall|j: int| i < j < entries.len() ==> (#[trigger] entries[j]).0 != entries[i].0,
    ensures
        entries_map(entries).contains_key(entries[i].0),
        entries_map(entries)[entries[i].0] == entries[i].1,
    decreases entries.len(),
{
    if i < entries.len() - 1 {
        let front = entries.drop_last();
        assert(entries[entries.len() - 1].0 != entries[i].0);
        assert forall|j: int| i < j < front.len() implies (#[trigger] front[j]).0 != front[i].0 by {
            assert(entries[j].0 != entries[i].0);
        }
        lemma_entries_map_last_wins(front, i);
    }
}

/// What is written out reads back as it was: a list that holds each record
/// of a store once under its key, as a snapshot does, stands for that very
/// store when it is loaded.
pub proof fn lemma_listing_reads_back(entries: EntrySeq, m: TokenMap)
    requires
        lists_exactly(entries, m),
    ensures
        entries_map(entries) == m,
{
    assert forall|k: TokenKey| entries_map(entries).contains_key(k) <==> m.contains_key(k) by {
        lemma_entries_map_keys(entries, k);
        if entries_map(entries).contains_key(k) {
            let i = choose|i: int| 0 <= i < entries.len() && (#[trigger] entries[i]).0 == k;
            assert(m.contains_key(entries[i].0));
        }
    }
    assert forall|k: TokenKey| entries_map(entries).contains_key(k) implies entries_map(entries)[k]
        == m[k] by {
        lemma_entries_map_keys(entries, k);
        let i = choose|i: int| 0 <= i < entries.len() && (#[trigger] entries[i]).0 == k;
        assert forall|j: int| i < j < entries.len() implies (#[trigger] entries[j]).0
            != entries[i].0 by {}
        lemma_entries_map_last_wins(entries, i);
    }
    assert(entries_map(entries) =~= m);
}

} // verus!
