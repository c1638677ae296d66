//! The query channel: it holds the latest query that no matching pass has
//! taken yet.

use crate::paths::text_of;
use vstd::prelude::*;

verus! {

/// A place for at most one pending query. A new query supersedes the one that
/// waits there.
#[derive(Debug)]
pub struct QueryChannel {
    pending: Option<String>,
}

impl View for QueryChannel {
    type V = Option<Seq<char>>;

    closed spec fn view(&self) -> Option<Seq<char>> {
        text_of(self.pending)
    }
}

/// The pending query once `query` was submitted, whatever waited before.
pub open spec fn submitted(pending: Option<Seq<char>>, query: Seq<char>) -> Option<Seq<char>> {
    Some(query)
}

/// What a matching pass takes from the channel, and what it leaves there.
pub open spec fn taken(pending: Option<Seq<char>>) -> (Option<Seq<char>>, Option<Seq<char>>) {
    (pending, None)
}

impl QueryChannel {
    /// A channel with no pending query.
    pub fn new() -> (channel: QueryChannel)
        ensures
            channel@ is None,
    {
        QueryChannel { pending: None }
    }

    /// Submits a query. It replaces the pending one, if any.
    pub fn submit(&mut self, query: String)
        ensures
            final(self)@ == submitted(old(self)@, query@),
    {
        self.pending = Some(query);
    }

    /// Takes the pending query for a matching pass, leaving none behind.
    pub fn take(&mut self) -> (query: Option<String>)
        ensures
            (text_of(query), final(self)@) == taken(old(self)@),
    {
        self.pending.take()
    }

    /// Whether a query waits to be taken.
    pub fn is_pending(&self) -> (pending: bool)
        ensures
            pending == (self@ is Some),
    {
        self.pending.is_some()
    }
}

/// The latest query wins: of two queries submitted before a matching pass,
/// the pass takes the second and never sees the first.
pub proof fn lemma_latest_query_wins(
    pending: Option<Seq<char>>,
    stale: Seq<char>,
    latest: Seq<char>,
)
    ensures
        taken(submitted(submitted(pending, stale), latest)).0 == Some(latest),
        taken(submitted(submitted(pending, stale), latest)).1 is None,
{
}

} // verus!
