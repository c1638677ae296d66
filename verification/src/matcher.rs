//! The matcher: it scores every cached entry against a query with the skim
//! fuzzy matcher and ranks the entries that match.

use crate::cache::ShardCache;
use crate::entry::{EntryView, SearchResult};
use crate::paths::{file_stem, path_file_stem, slice_text};
use fuzzy_matcher::skim::SkimMatcherV2;
use fuzzy_matcher::FuzzyMatcher;
use vstd::prelude::*;
use vstd::string::StringExecFns;

verus! {

/// The bonus that a descriptor-backed entry gets unless another is chosen.
pub const DEFAULT_BONUS: i64 = 1000;

/// The least score that the fuzzy matcher gives.
pub const MIN_RAW_SCORE: i64 = -2147483648;

/// The greatest score that the fuzzy matcher gives.
pub const MAX_RAW_SCORE: i64 = 2147483647;

/// The greatest bonus that can be chosen: added to any score of the fuzzy
/// matcher it still fits the score's type.
pub const MAX_BONUS: i64 = 9223372034707292160;

/// What `fuzzy_matcher::skim::SkimMatcherV2::fuzzy_indices`, on a matcher in
/// its default configuration, makes of a choice and a pattern: `None` where
/// the pattern does not match, else the score and the positions in the choice
/// of the characters that matched.
pub uninterp spec fn skim_fuzzy_indices(choice: Seq<char>, pattern: Seq<char>) -> Option<
    (i64, Seq<usize>),
>;

/// A fuzzy match with the positions taken as a sequence.
pub open spec fn match_view(matched: Option<(i64, Vec<usize>)>) -> Option<(i64, Seq<usize>)> {
    match matched {
        Some((score, indices)) => Some((score, indices@)),
        None => None,
    }
}

/// Calls `fuzzy_indices` on a fresh `SkimMatcherV2::default()`. Trusted: the
/// result is the one that `skim_fuzzy_indices` names, and a score lies in the
/// range of the 32-bit integer in which the matcher computes it.
#[verifier::external_body]
pub(crate) fn fuzzy_indices(choice: &str, pattern: &str) -> (matched: Option<(i64, Vec<usize>)>)
    ensures
        match_view(matched) == skim_fuzzy_indices(choice@, pattern@),
        matched matches Some((score, _)) ==> MIN_RAW_SCORE <= score <= MAX_RAW_SCORE,
{
    SkimMatcherV2::default().fuzzy_indices(choice, pattern)
}

/// A display name, followed by a space and the file stem of the descriptor
/// where there is one.
pub open spec fn joined_key(name: Seq<char>, stem: Option<Seq<char>>) -> Seq<char> {
    match stem {
        Some(stem) => name + seq![' '] + stem,
        None => name,
    }
}

/// The text that an entry is matched by: its display name, followed for a
/// descriptor-backed entry by a space and the file stem of the descriptor.
pub open spec fn search_key_of(entry: EntryView) -> Seq<char> {
    match entry.desktop_entry_path {
        Some(path) => joined_key(entry.name, path_file_stem(path)),
        None => entry.name,
    }
}

/// Joins a display name and the file stem of a descriptor into a search key.
pub fn join_key(name: &str, stem: Option<&str>) -> (key: String)
    ensures
        key@ == joined_key(name@, slice_text(stem)),
{
    let mut key = name.to_owned();
    if let Some(stem) = stem {
        proof {
            reveal_strlit(" ");
        }
        key.append(" ");
        key.append(stem);
        assert(key@ =~= name@ + seq![' '] + stem@);
    }
    key
}

/// Builds the text that an entry is matched by.
pub fn search_key(entry: &SearchResult) -> (key: String)
    ensures
        key@ == search_key_of(entry@),
{
    match entry.desktop_entry_path() {
        Some(path) => match file_stem(path) {
            Some(stem) => join_key(entry.name(), Some(stem.as_str())),
            None => join_key(entry.name(), None),
        },
        None => entry.name().to_owned(),
    }
}

/// One entry that matched a query, with its scores and where it lies in the
/// caches. A ranked result is made anew for every evaluation and never stored.
#[derive(Debug, PartialEq)]
pub struct RankedResult {
    entry: SearchResult,
    score: i64,
    raw_score: i64,
    indices: Vec<usize>,
    shard: usize,
    slot: usize,
}

/// What a ranked result holds, as mathematical values.
pub struct RankedView {
    /// The entry that matched.
    pub entry: EntryView,
    /// The score the entry is ranked by: the raw score, with the bonus added
    /// for a descriptor-backed entry.
    pub score: int,
    /// The score that the fuzzy matcher gave.
    pub raw_score: int,
    /// The positions in the search key of the characters that matched.
    pub indices: Seq<usize>,
    /// The shard whose cache holds the entry.
    pub shard: nat,
    /// The position of the entry in that cache.
    pub slot: nat,
}

impl View for RankedResult {
    type V = RankedView;

    closed spec fn view(&self) -> RankedView {
        RankedView {
            entry: self.entry@,
            score: self.score as int,
            raw_score: self.raw_score as int,
            indices: self.indices@,
            shard: self.shard as nat,
            slot: self.slot as nat,
        }
    }
}

/// The score an entry is ranked by, given its raw score.
pub open spec fn boosted(entry: EntryView, raw_score: int, bonus: int) -> int {
    if entry.desktop_entry_path is Some {
        raw_score + bonus
    } else {
        raw_score
    }
}

/// What the matcher reports of the entry at `slot` in the cache of `shard`,
/// given what the fuzzy matcher made of its search key: nothing where the
/// query did not match it, and its scores and matched positions where it did.
pub open spec fn ranked(
    entry: EntryView,
    shard: nat,
    slot: nat,
    matched: Option<(i64, Seq<usize>)>,
    bonus: int,
) -> Option<RankedView> {
    match matched {
        Some((raw_score, indices)) => Some(
            RankedView {
                entry,
                score: boosted(entry, raw_score as int, bonus),
                raw_score: raw_score as int,
                indices,
                shard,
                slot,
            },
        ),
        None => None,
    }
}

/// The ranking order: a higher score comes first; of two equal scores the
/// higher raw score; of two equal raw scores the entry that was inserted
/// first, shard by shard.
pub open spec fn precedes(a: RankedView, b: RankedView) -> bool {
    ||| a.score > b.score
    ||| a.score == b.score && a.raw_score > b.raw_score
    ||| a.score == b.score && a.raw_score == b.raw_score && a.shard < b.shard
    ||| a.score == b.score && a.raw_score == b.raw_score && a.shard == b.shard && a.slot
        < b.slot
}

/// Whether each result comes before all that follow it.
pub open spec fn is_sorted(out: Seq<RankedView>) -> bool {
    forall|a: int, b: int| 0 <= a < b < out.len() ==> precedes(#[trigger] out[a], #[trigger] out[b])
}

/// The views of the caches of all shards.
pub open spec fn cache_views(caches: Seq<ShardCache>) -> Seq<Seq<EntryView>> {
    caches.map_values(|cache: ShardCache| cache@)
}

/// The views of a list of ranked results.
pub open spec fn ranked_views(out: Seq<RankedResult>) -> Seq<RankedView> {
    out.map_values(|result: RankedResult| result@)
}

/// What the matcher reports of the entry at `slot` in the cache of `shard`
/// for a query.
pub open spec fn hit_at(
    caches: Seq<Seq<EntryView>>,
    query: Seq<char>,
    bonus: int,
    shard: int,
    slot: int,
) -> Option<RankedView> {
    ranked(
        caches[shard][slot],
        shard as nat,
        slot as nat,
        skim_fuzzy_indices(search_key_of(caches[shard][slot]), query),
        bonus,
    )
}

/// Whether `result` is what the matcher reports of a cached entry that the
/// query matches.
pub open spec fn is_hit(
    result: RankedView,
    caches: Seq<Seq<EntryView>>,
    query: Seq<char>,
    bonus: int,
) -> bool {
    &&& result.shard < caches.len()
    &&& result.slot < caches[result.shard as int].len()
    &&& hit_at(caches, query, bonus, result.shard as int, result.slot as int) == Some(result)
}

/// Whether `out` is the ranked answer to a query over the caches: empty for
/// the empty query; else one result for each cached entry that the query
/// matches and no other, in ranking order.
pub open spec fn is_ranking(
    out: Seq<RankedView>,
    caches: Seq<Seq<EntryView>>,
    query: Seq<char>,
    bonus: int,
) -> bool {
    if query.len() == 0 {
        out.len() == 0
    } else {
        &&& forall|k: int| 0 <= k < out.len() ==> is_hit(#[trigger] out[k], caches, query, bonus)
        &&& forall|shard: int, slot: int|
            0 <= shard < caches.len() && 0 <= slot < caches[shard].len() && (#[trigger] hit_at(
                caches,
                query,
                bonus,
                shard,
                slot,
            )) is Some ==> out.contains(hit_at(caches, query, bonus, shard, slot)->0)
        &&& is_sorted(out)
    }
}

/// Whether the entry at `slot` of `shard` lies before the place that a scan
/// of the caches has reached.
spec fn scanned(shard: int, slot: int, end_shard: int, end_slot: int) -> bool {
    shard < end_shard || (shard == end_shard && slot < end_slot)
}

/// Whether `out` ranks the matching entries that a scan has passed so far.
spec fn is_ranking_so_far(
    out: Seq<RankedView>,
    caches: Seq<Seq<EntryView>>,
    query: Seq<char>,
    bonus: int,
    end_shard: int,
    end_slot: int,
) -> bool {
    &&& forall|k: int|
        0 <= k < out.len() ==> is_hit(#[trigger] out[k], caches, query, bonus) && scanned(
            out[k].shard as int,
            out[k].slot as int,
            end_shard,
            end_slot,
        )
    &&& forall|shard: int, slot: int|
        0 <= shard < caches.len() && 0 <= slot < caches[shard].len() && scanned(
            shard,
            slot,
            end_shard,
            end_slot,
        ) && (#[trigger] hit_at(caches, query, bonus, shard, slot)) is Some ==> out.contains(
            hit_at(caches, query, bonus, shard, slot)->0,
        )
    &&& is_sorted(out)
}

impl RankedResult {
    /// The entry that matched.
    pub fn entry(&self) -> (entry: &SearchResult)
        ensures
            entry@ == self@.entry,
    {
        &self.entry
    }

    /// The score the entry is ranked by.
    pub fn score(&self) -> (score: i64)
        ensures
            score == self@.score,
    {
        self.score
    }

    /// The score that the fuzzy matcher gave.
    pub fn raw_score(&self) -> (raw_score: i64)
        ensures
            raw_score == self@.raw_score,
    {
        self.raw_score
    }

    /// The positions in the search key of the characters that matched.
    pub fn indices(&self) -> (indices: &Vec<usize>)
        ensures
            indices@ == self@.indices,
    {
        &self.indices
    }

    /// The shard whose cache holds the entry.
    pub fn shard(&self) -> (shard: usize)
        ensures
            shard == self@.shard,
    {
        self.shard
    }

    /// The position of the entry in the cache of its shard.
    pub fn slot(&self) -> (slot: usize)
        ensures
            slot == self@.slot,
    {
        self.slot
    }

    /// Whether this result comes before `other` in the ranking order.
    pub fn precedes(&self, other: &RankedResult) -> (before: bool)
        ensures
            before == precedes(self@, other@),
    {
        if self.score != other.score {
            self.score > other.score
        } else if self.raw_score != other.raw_score {
            self.raw_score > other.raw_score
        } else if self.shard != other.shard {
            self.shard < other.shard
        } else {
            self.slot < other.slot
        }
    }
}

/// Puts a result at its place in a sorted list, and says where.
fn place(out: &mut Vec<RankedResult>, hit: RankedResult) -> (at: usize)
    requires
        is_sorted(ranked_views(old(out)@)),
        forall|k: int|
            0 <= k < old(out)@.len() ==> (#[trigger] old(out)@[k])@.shard != hit@.shard || old(
                out,
            )@[k]@.slot != hit@.slot,
    ensures
        at <= old(out)@.len(),
        ranked_views(final(out)@) == ranked_views(old(out)@).insert(at as int, hit@),
        is_sorted(ranked_views(final(out)@)),
{
    let ghost before = ranked_views(out@);
    let mut at: usize = 0;
    while at < out.len() && out[at].precedes(&hit)
        invariant
            at <= out@.len(),
            before == ranked_views(out@),
            forall|k: int| 0 <= k < at ==> precedes(#[trigger] before[k], hit@),
        decreases out@.len() - at,
    {
        at += 1;
    }
    out.insert(at, hit);
    proof {
        let after = ranked_views(out@);
        assert(after =~= before.insert(at as int, hit@));
        assert forall|a: int, b: int| 0 <= a < b < after.len() implies precedes(
            #[trigger] after[a],
            #[trigger] after[b],
        ) by {
            if b < at {
                assert(after[a] == before[a] && after[b] == before[b]);
            } else if b == at {
                assert(after[a] == before[a]);
            } else if a < at {
                assert(after[a] == before[a] && after[b] == before[b - 1]);
            } else if a == at {
                assert(after[b] == before[b - 1]);
                assert(!precedes(before[at as int], hit@));
                assert(before[at as int] == old(out)@[at as int]@);
                if b - 1 > at {
                    assert(precedes(before[at as int], before[b - 1]));
                }
            } else {
                assert(after[a] == before[a - 1] && after[b] == before[b - 1]);
            }
        }
    }
    at
}

/// The matcher and its ranking policy: how much a descriptor-backed entry is
/// raised above a bare executable that matches equally well.
#[derive(Debug)]
pub struct Matcher {
    bonus: i64,
}

impl Matcher {
    #[verifier::type_invariant]
    spec fn inv(self) -> bool {
        0 < self.bonus <= MAX_BONUS
    }

    /// The bonus that a descriptor-backed entry gets on its raw score.
    pub closed spec fn bonus(self) -> int {
        self.bonus as int
    }

    /// A matcher with the default bonus.
    pub fn new() -> (matcher: Matcher)
        ensures
            matcher.bonus() == DEFAULT_BONUS,
    {
        Matcher { bonus: DEFAULT_BONUS }
    }

    /// A matcher with the bonus `bonus`, which must be positive and at most
    /// `MAX_BONUS`; `None` for any other.
    pub fn with_bonus(bonus: i64) -> (matcher: Option<Matcher>)
        ensures
            match matcher {
                Some(m) => 0 < bonus <= MAX_BONUS && m.bonus() == bonus,
                None => !(0 < bonus <= MAX_BONUS),
            },
    {
        if 0 < bonus && bonus <= MAX_BONUS {
            Some(Matcher { bonus })
        } else {
            None
        }
    }

    /// The bonus that a descriptor-backed entry gets on its raw score.
    pub fn descriptor_bonus(&self) -> (bonus: i64)
        ensures
            bonus == self.bonus(),
            0 < bonus <= MAX_BONUS,
    {
        proof {
            use_type_invariant(self);
        }
        self.bonus
    }

    /// Makes the ranked result for the entry at `slot` in the cache of
    /// `shard` from what the fuzzy matcher made of its search key. An entry
    /// that did not match gives no result.
    pub fn rank_entry(
        &self,
        entry: &SearchResult,
        shard: usize,
        slot: usize,
        matched: Option<(i64, Vec<usize>)>,
    ) -> (result: Option<RankedResult>)
        requires
            matched matches Some((raw_score, _)) ==> (entry@.desktop_entry_path is Some
                ==> raw_score + self.bonus() <= i64::MAX),
        ensures
            match result {
                Some(r) => Some(r@),
                None => None,
            } == ranked(entry@, shard as nat, slot as nat, match_view(matched), self.bonus()),
    {
        proof {
            use_type_invariant(self);
        }
        match matched {
            Some((raw_score, indices)) => {
                let score: i64 = if entry.desktop_entry_path().is_some() {
                    raw_score + self.bonus
                } else {
                    raw_score
                };
                Some(RankedResult { entry: entry.clone(), score, raw_score, indices, shard, slot })
            },
            None => None,
        }
    }

    /// Ranks the cached entries of all shards against a query. The empty
    /// query matches nothing. Any other query gives one result for each entry
    /// that the fuzzy matcher matches by its search key, best first.
    pub fn evaluate(&self, caches: &Vec<ShardCache>, query: &str) -> (out: Vec<RankedResult>)
        ensures
            is_ranking(ranked_views(out@), cache_views(caches@), query@, self.bonus()),
    {
        let mut out: Vec<RankedResult> = Vec::new();
        if query.is_empty() {
            return out;
        }
        let ghost views = cache_views(caches@);
        let ghost bonus = self.bonus();
        let mut shard: usize = 0;
        while shard < caches.len()
            invariant
                shard <= caches@.len(),
                views == cache_views(caches@),
                bonus == self.bonus(),
                is_ranking_so_far(ranked_views(out@), views, query@, bonus, shard as int, 0),
            decreases caches@.len() - shard,
        {
            let cache = &caches[shard];
            assert(views[shard as int] == cache@);
            let mut slot: usize = 0;
            while slot < cache.len()
                invariant
                    shard < caches@.len(),
                    slot <= cache@.len(),
                    views == cache_views(caches@),
                    views[shard as int] == cache@,
                    bonus == self.bonus(),
                    is_ranking_so_far(
                        ranked_views(out@),
                        views,
                        query@,
                        bonus,
                        shard as int,
                        slot as int,
                    ),
                decreases cache@.len() - slot,
            {
                let ghost before = ranked_views(out@);
                if let Some(entry) = cache.get(slot) {
                    let key = search_key(entry);
                    let matched = fuzzy_indices(key.as_str(), query);
                    proof {
                        use_type_invariant(self);
                    }
                    if let Some(hit) = self.rank_entry(entry, shard, slot, matched) {
                        assert(hit_at(views, query@, bonus, shard as int, slot as int) == Some(
                            hit@,
                        ));
                        let ghost found = hit@;
                        assert forall|k: int| 0 <= k < out@.len() implies (#[trigger] out@[k])@.shard
                            != hit@.shard || out@[k]@.slot != hit@.slot by {
                            assert(out@[k]@ == before[k]);
                        }
                        let at = place(&mut out, hit);
                        proof {
                            let after = ranked_views(out@);
                            assert forall|k: int| 0 <= k < after.len() implies is_hit(
                                #[trigger] after[k],
                                views,
                                query@,
                                bonus,
                            ) && scanned(
                                after[k].shard as int,
                                after[k].slot as int,
                                shard as int,
                                slot + 1,
                            ) by {
                                if k < at {
                                    assert(after[k] == before[k]);
                                } else if k > at {
                                    assert(after[k] == before[k - 1]);
                                }
                            }
                            assert forall|s: int, i: int|
                                0 <= s < views.len() && 0 <= i < views[s].len() && scanned(
                                    s,
                                    i,
                                    shard as int,
                                    slot + 1,
                                ) && (#[trigger] hit_at(views, query@, bonus, s, i)) is Some implies after.contains(
                                hit_at(views, query@, bonus, s, i)->0,
                            ) by {
                                let wanted = hit_at(views, query@, bonus, s, i)->0;
                                if s == shard && i == slot {
                                    assert(after[at as int] == wanted);
                                } else {
                                    assert(scanned(s, i, shard as int, slot as int));
                                    assert(before.contains(wanted));
                                    let k = choose|k: int| 0 <= k < before.len() && before[k] == wanted;
                                    if k < at {
                                        assert(after[k] == wanted);
                                    } else {
                                        assert(after[k + 1] == wanted);
                                    }
                                }
                            }
                        }
                    }
                }
                slot += 1;
            }
            shard += 1;
        }
        out
    }
}

impl Default for Matcher {
    fn default() -> (matcher: Matcher)
        ensures
            matcher.bonus() == DEFAULT_BONUS,
    {
        Matcher::new()
    }
}

/// Two lists in ranking order that hold the same results are the same list.
proof fn lemma_sorted_lists_agree(first: Seq<RankedView>, second: Seq<RankedView>)
    requires
        is_sorted(first),
        is_sorted(second),
        forall|k: int| 0 <= k < first.len() ==> second.contains(#[trigger] first[k]),
        forall|k: int| 0 <= k < second.len() ==> first.contains(#[trigger] second[k]),
    ensures
        first == second,
    decreases first.len(),
{
    if first.len() == 0 {
        if second.len() > 0 {
            assert(first.contains(second[0]));
        }
        assert(first =~= second);
    } else {
        assert(second.contains(first[0]));
        let j = choose|j: int| 0 <= j < second.len() && second[j] == first[0];
        assert(first.contains(second[0]));
        let i = choose|i: int| 0 <= i < first.len() && first[i] == second[0];
        if j > 0 {
            assert(precedes(second[0], second[j]));
            if i > 0 {
                assert(precedes(first[0], first[i]));
            }
        }
        assert(first[0] == second[0]);
        let first_rest = first.drop_first();
        let second_rest = second.drop_first();
        assert forall|k: int| 0 <= k < first_rest.len() implies second_rest.contains(
            #[trigger] first_rest[k],
        ) by {
            assert(first_rest[k] == first[k + 1]);
            assert(precedes(first[0], first[k + 1]));
            assert(second.contains(first[k + 1]));
            let m = choose|m: int| 0 <= m < second.len() && second[m] == first[k + 1];
            assert(second_rest[m - 1] == first_rest[k]);
        }
        assert forall|k: int| 0 <= k < second_rest.len() implies first_rest.contains(
            #[trigger] second_rest[k],
        ) by {
            assert(second_rest[k] == second[k + 1]);
            assert(precedes(second[0], second[k + 1]));
            assert(first.contains(second[k + 1]));
            let m = choose|m: int| 0 <= m < first.len() && first[m] == second[k + 1];
            assert(first_rest[m - 1] == second_rest[k]);
        }
        assert forall|a: int, b: int| 0 <= a < b < first_rest.len() implies precedes(
            #[trigger] first_rest[a],
            #[trigger] first_rest[b],
        ) by {
            assert(precedes(first[a + 1], first[b + 1]));
        }
        assert forall|a: int, b: int| 0 <= a < b < second_rest.len() implies precedes(
            #[trigger] second_rest[a],
            #[trigger] second_rest[b],
        ) by {
            assert(precedes(second[a + 1], second[b + 1]));
        }
        lemma_sorted_lists_agree(first_rest, second_rest);
        assert(first =~= seq![first[0]] + first_rest);
        assert(second =~= seq![second[0]] + second_rest);
    }
}

/// Evaluation is idempotent: two evaluations of one query against the same
/// caches, under the same bonus, give the same results in the same order.
pub proof fn lemma_ranking_is_unique(
    first: Seq<RankedView>,
    second: Seq<RankedView>,
    caches: Seq<Seq<EntryView>>,
    query: Seq<char>,
    bonus: int,
)
    requires
        is_ranking(first, caches, query, bonus),
        is_ranking(second, caches, query, bonus),
    ensures
        first == second,
{
    if query.len() == 0 {
        assert(first =~= second);
    } else {
        assert forall|k: int| 0 <= k < first.len() implies second.contains(
            #[trigger] first[k],
        ) by {
            assert(is_hit(first[k], caches, query, bonus));
            assert(hit_at(caches, query, bonus, first[k].shard as int, first[k].slot as int)
                is Some);
        }
        assert forall|k: int| 0 <= k < second.len() implies first.contains(
            #[trigger] second[k],
        ) by {
            assert(is_hit(second[k], caches, query, bonus));
            assert(hit_at(caches, query, bonus, second[k].shard as int, second[k].slot as int)
                is Some);
        }
        lemma_sorted_lists_agree(first, second);
    }
}

/// Of two results with the same raw score, one for a descriptor-backed entry
/// and one for a bare executable, the descriptor-backed one stands strictly
/// ahead in the ranking, whatever positive bonus is in force.
pub proof fn lemma_descriptor_ranks_first(
    out: Seq<RankedView>,
    caches: Seq<Seq<EntryView>>,
    query: Seq<char>,
    bonus: int,
    descriptor: int,
    executable: int,
)
    requires
        bonus > 0,
        is_ranking(out, caches, query, bonus),
        0 <= descriptor < out.len(),
        0 <= executable < out.len(),
        out[descriptor].entry.desktop_entry_path is Some,
        out[executable].entry.desktop_entry_path is None,
        out[descriptor].raw_score == out[executable].raw_score,
    ensures
        descriptor < executable,
        out[descriptor].score == out[executable].score + bonus,
{
    assert(is_hit(out[descriptor], caches, query, bonus));
    assert(is_hit(out[executable], caches, query, bonus));
    if executable < descriptor {
        assert(precedes(out[executable], out[descriptor]));
    }
}

/// Whether the caches `later` are the caches `earlier` after some appends:
/// the same shards, each cache beginning with what it held before.
pub open spec fn caches_grew(earlier: Seq<Seq<EntryView>>, later: Seq<Seq<EntryView>>) -> bool {
    &&& earlier.len() == later.len()
    &&& forall|shard: int, slot: int|
        0 <= shard < earlier.len() && 0 <= slot < earlier[shard].len() ==> slot
            < later[shard].len() && later[shard][slot] == #[trigger] earlier[shard][slot]
}

/// Discovery only adds to an answer: once the caches have grown, the same
/// query still gives every result that it gave before, unchanged.
pub proof fn lemma_growth_keeps_results(
    before: Seq<RankedView>,
    after: Seq<RankedView>,
    earlier: Seq<Seq<EntryView>>,
    later: Seq<Seq<EntryView>>,
    query: Seq<char>,
    bonus: int,
)
    requires
        caches_grew(earlier, later),
        is_ranking(before, earlier, query, bonus),
        is_ranking(after, later, query, bonus),
    ensures
        forall|k: int| 0 <= k < before.len() ==> after.contains(#[trigger] before[k]),
{
    if query.len() > 0 {
        assert forall|k: int| 0 <= k < before.len() implies after.contains(
            #[trigger] before[k],
        ) by {
            let shard = before[k].shard as int;
            let slot = before[k].slot as int;
            assert(is_hit(before[k], earlier, query, bonus));
            assert(later[shard][slot] == earlier[shard][slot]);
            assert(hit_at(later, query, bonus, shard, slot) == Some(before[k]));
        }
    }
}

} // verus!
