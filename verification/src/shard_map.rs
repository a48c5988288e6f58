//! Key-to-shard resolution.
//!
//! The key space is partitioned into `num_shard` independent lock domains.
//! A key's shard is a pure function of a stable hash of the key modulo the
//! shard count, so every operation on one key always lands on the same
//! shard, in every process and on every run.

use vstd::prelude::*;

verus! {

/// The stable 64-bit hash of a key: the key shifted into the non-negative
/// range and stirred by three xor-shift rounds.
pub closed spec fn spec_hash_key(k: i32) -> u64 {
    let x = ((k as int) + 0x8000_0000) as u64;
    let a = x ^ (x << 13);
    let b = a ^ (a >> 7);
    b ^ (b << 17)
}

/// The shard a key belongs to, for a given shard count.
pub open spec fn spec_shard_of(k: i32, num_shard: int) -> int
    recommends
        num_shard > 0,
{
    spec_hash_key(k) as int % num_shard
}

/// Computes the stable hash of a key.
pub fn hash_key(k: i32) -> (r: u64)
    ensures
        r == spec_hash_key(k),
{
    let x: u64 = ((k as i64) + 0x8000_0000i64) as u64;
    let a: u64 = x ^ (x << 13);
    let b: u64 = a ^ (a >> 7);
    b ^ (b << 17)
}

/// Resolves a key to its shard index, always within `[0, num_shard)`.
pub fn shard_of(k: i32, num_shard: usize) -> (r: usize)
    requires
        num_shard > 0,
    ensures
        r as int == spec_shard_of(k, num_shard as int),
        r < num_shard,
{
    let h = hash_key(k);
    (h % (num_shard as u64)) as usize
}

} // verus!
