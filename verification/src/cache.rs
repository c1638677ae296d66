//! The result cache of one shard: an append-only sequence of entries in the
//! order in which they were parsed.

use crate::entry::{EntryView, SearchResult};
use vstd::prelude::*;

verus! {

/// The entries that one shard has resolved so far. Entries are only ever
/// added at the end: none is removed, replaced or changed.
#[derive(Debug)]
pub struct ShardCache {
    entries: Vec<SearchResult>,
}

impl View for ShardCache {
    type V = Seq<EntryView>;

    closed spec fn view(&self) -> Seq<EntryView> {
        Seq::new(self.entries@.len(), |i: int| self.entries@[i]@)
    }
}

/// The state of a cache that held `initial` once the entries of `added` were
/// appended to it one after the other.
pub open spec fn after_appends(initial: Seq<EntryView>, added: Seq<EntryView>) -> Seq<EntryView>
    decreases added.len(),
{
    if added.len() == 0 {
        initial
    } else {
        after_appends(initial, added.drop_last()).push(added.last())
    }
}

/// Whether `shorter` is the beginning of `longer` and `longer` goes on after
/// it.
pub open spec fn strictly_extends(longer: Seq<EntryView>, shorter: Seq<EntryView>) -> bool {
    &&& shorter.len() < longer.len()
    &&& forall|i: int| 0 <= i < shorter.len() ==> longer[i] == shorter[i]
}

impl ShardCache {
    /// An empty cache.
    pub fn new() -> (cache: ShardCache)
        ensures
            cache@ == Seq::<EntryView>::empty(),
    {
        let cache = ShardCache { entries: Vec::new() };
        assert(cache@ =~= Seq::<EntryView>::empty());
        cache
    }

    /// Adds an entry at the end of the cache.
    pub fn append(&mut self, entry: SearchResult)
        ensures
            final(self)@ == old(self)@.push(entry@),
    {
        self.entries.push(entry);
        assert(self@ =~= old(self)@.push(entry@));
    }

    /// The number of entries in the cache.
    pub fn len(&self) -> (n: usize)
        ensures
            n == self@.len(),
    {
        self.entries.len()
    }

    /// Whether the cache holds no entry.
    pub fn is_empty(&self) -> (empty: bool)
        ensures
            empty == (self@.len() == 0),
    {
        self.entries.len() == 0
    }

    /// The entry at position `index`, or `None` past the end.
    pub fn get(&self, index: usize) -> (entry: Option<&SearchResult>)
        ensures
            match entry {
                Some(e) => index < self@.len() && e@ == self@[index as int],
                None => index >= self@.len(),
            },
    {
        if index < self.entries.len() {
            Some(&self.entries[index])
        } else {
            None
        }
    }
}

/// Appending is all that `after_appends` does: the added entries follow the
/// initial ones in order.
pub proof fn lemma_after_appends(initial: Seq<EntryView>, added: Seq<EntryView>)
    ensures
        after_appends(initial, added) == initial + added,
    decreases added.len(),
{
    if added.len() == 0 {
        assert(initial + added =~= initial);
    } else {
        lemma_after_appends(initial, added.drop_last());
        assert((initial + added.drop_last()).push(added.last()) =~= initial + added);
    }
}

/// The cache is append-only: its state after more appends strictly extends its
/// state after fewer of them, entry for entry.
pub proof fn lemma_append_only(initial: Seq<EntryView>, added: Seq<EntryView>, fewer: int)
    requires
        0 <= fewer < added.len(),
    ensures
        strictly_extends(after_appends(initial, added), after_appends(initial, added.take(fewer))),
{
    lemma_after_appends(initial, added);
    lemma_after_appends(initial, added.take(fewer));
}

} // verus!
