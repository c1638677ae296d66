//! The partitioner: a stable hash of a path's string form, modulo the number
//! of shards.

use std::collections::hash_map::DefaultHasher;
use std::hash::Hasher;
use vstd::prelude::*;
use vstd::std_specs::hash::DefaultHasherAdditionalSpecFns;
use vstd::utf8::encode_utf8;

verus! {

/// The hash of a path: what a fresh `DefaultHasher` makes of the bytes of the
/// path's string form, written in one piece.
pub open spec fn path_hash(path: Seq<char>) -> u64 {
    DefaultHasher::spec_finish(seq![encode_utf8(path)])
}

/// The shard that a path goes to among `shards` shards.
pub open spec fn shard_of(path: Seq<char>, shards: nat) -> nat
    recommends
        shards > 0,
{
    (path_hash(path) as nat) % shards
}

/// Hashes the string form of a path.
pub fn hash_pathbuf(t: &str) -> (h: u64)
    ensures
        h == path_hash(t@),
{
    let mut s = DefaultHasher::new();
    s.write(t.as_bytes());
    s.finish()
}

/// Assigns a path to one of `shards` shards.
pub fn partition(path: &str, shards: usize) -> (shard: usize)
    requires
        shards > 0,
    ensures
        shard == shard_of(path@, shards as nat),
        shard < shards,
{
    let h: u64 = hash_pathbuf(path);
    let shard: u64 = h % (shards as u64);
    shard as usize
}

/// The partitioner is a function of the path and the number of shards alone:
/// equal paths are routed to the same shard, whenever they are routed.
pub proof fn lemma_partition_deterministic(first: Seq<char>, second: Seq<char>, shards: nat)
    requires
        first == second,
    ensures
        shard_of(first, shards) == shard_of(second, shards),
{
}

/// Every path goes to exactly one of the shards.
pub proof fn lemma_partition_in_range(path: Seq<char>, shards: nat)
    requires
        shards > 0,
    ensures
        shard_of(path, shards) < shards,
{
}

} // verus!
