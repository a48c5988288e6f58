//! A sharded, single-flight, read-through cache engine.
//!
//! The engine partitions the key space into independently updated shards,
//! guarantees at most one underlying load per missing key, coalesces batch
//! lookups into one multi-key load, caches confirmed-missing keys durably,
//! and purges failed loads so that errors are never sticky.

use vstd::prelude::*;

pub mod cell;
pub mod dto;
pub mod engine;
pub mod laws;
pub mod model;
pub mod mq_consumer;
pub mod repo;
pub mod shard_map;

verus! {

/// Returns its argument when it is positive, and `None` otherwise.
#[allow(non_snake_case)]
pub fn getP(x: usize) -> (r: Option<usize>)
    ensures
        r == if x > 0 { Some(x) } else { None::<usize> },
{
    if x > 0 {
        return Some(x);
    }
    None
}

} // verus!
