//! The engine under concurrency: an operation-level model.
//!
//! Every method of [`crate::engine::GlobalCache`] is one atomic transition
//! of the shard state — in the deployed engine, one critical section under
//! a shard's lock. An arbitrary interleaving of any number of concurrent
//! lookups, batch entries, load completions, error purges and invalidations
//! is therefore a sequence of such operations applied one at a time. This
//! module defines those operations over the engine's state map, together
//! with which of them issue a load for a key; the laws proved in
//! [`crate::laws`] quantify over such sequences.

use vstd::prelude::*;

use crate::cell::cell_outcome;
use crate::cell::CellState;
use crate::dto::Outcome;

verus! {

/// One atomic engine transition, named after the method that performs it.
pub ghost enum Op {
    /// A single-key lookup's entry: probe the key and create its cell when
    /// it has none ([`crate::engine::GlobalCache::insert_pending_if_absent`]
    /// after a miss). Issues a single-key load exactly when it creates.
    GetEnter(i32),
    /// A batch lookup's entry: create a cell for every requested key that
    /// has none (the creation pass of
    /// [`crate::engine::GlobalCache::find_values_from_repo`]). Issues one
    /// multi-key load covering exactly the keys it created cells for.
    BatchEnter(Seq<i32>),
    /// A load completion settling its key's cell with its outcome
    /// ([`crate::engine::GlobalCache::resolve`]).
    Resolve(i32, Outcome),
    /// A reader purging the settled error outcome it has just observed
    /// (the error policy of both read paths).
    ReadPurge(i32),
    /// An explicit invalidation ([`crate::engine::GlobalCache::invalid`]).
    Invalidate(i32),
}

/// The key's cell is settled to the error outcome in `m`.
pub open spec fn cell_is_error(m: Map<i32, CellState>, k: i32) -> bool {
    m.contains_key(k) && m[k] is Resolved && cell_outcome(m[k]) is Error
}

/// The state one operation steps the engine to.
pub open spec fn op_step(m: Map<i32, CellState>, op: Op) -> Map<i32, CellState> {
    match op {
        Op::GetEnter(k) => if m.contains_key(k) {
            m
        } else {
            m.insert(k, CellState::Pending)
        },
        Op::BatchEnter(keys) => Map::new(
            |x: i32| m.contains_key(x) || keys.contains(x),
            |x: i32|
                if keys.contains(x) && !m.contains_key(x) {
                    CellState::Pending
                } else {
                    m[x]
                },
        ),
        Op::Resolve(k, o) => if m.contains_key(k) && m[k] is Pending {
            m.insert(k, CellState::Resolved(o))
        } else {
            m
        },
        Op::ReadPurge(k) => if cell_is_error(m, k) {
            m.remove(k)
        } else {
            m
        },
        Op::Invalidate(k) => m.remove(k),
    }
}

/// Whether the operation, taken in state `m`, issues a load that covers
/// key `k`: only the two entry operations load, and only for a key that
/// has no cell at that moment.
pub open spec fn op_loads(m: Map<i32, CellState>, op: Op, k: i32) -> bool {
    match op {
        Op::GetEnter(k2) => k2 == k && !m.contains_key(k),
        Op::BatchEnter(keys) => keys.contains(k) && !m.contains_key(k),
        Op::Resolve(_, _) => false,
        Op::ReadPurge(_) => false,
        Op::Invalidate(_) => false,
    }
}

/// The state after a whole sequence of operations.
pub open spec fn trace_state(m: Map<i32, CellState>, ops: Seq<Op>) -> Map<i32, CellState>
    decreases ops.len(),
{
    if ops.len() == 0 {
        m
    } else {
        trace_state(op_step(m, ops[0]), ops.drop_first())
    }
}

/// How many loads covering key `k` a sequence of operations issues.
pub open spec fn count_loads(m: Map<i32, CellState>, ops: Seq<Op>, k: i32) -> nat
    decreases ops.len(),
{
    if ops.len() == 0 {
        0
    } else {
        (if op_loads(m, ops[0], k) {
            1nat
        } else {
            0nat
        }) + count_loads(op_step(m, ops[0]), ops.drop_first(), k)
    }
}

/// The operation removes key `k`'s cell, directly or by settling it to the
/// error outcome that a reader will purge.
pub open spec fn removes_key(op: Op, k: i32) -> bool {
    ||| (op is Invalidate && op->Invalidate_0 == k)
    ||| (op is Resolve && op->Resolve_0 == k && op->Resolve_1 is Error)
}

/// No operation of the sequence removes key `k`'s cell.
pub open spec fn keeps_key(ops: Seq<Op>, k: i32) -> bool {
    forall|i: int| 0 <= i < ops.len() ==> !removes_key(#[trigger] ops[i], k)
}

/// The key a single-key operation acts on.
pub open spec fn op_key(op: Op) -> i32 {
    match op {
        Op::GetEnter(k) => k,
        Op::BatchEnter(_) => 0,
        Op::Resolve(k, _) => k,
        Op::ReadPurge(k) => k,
        Op::Invalidate(k) => k,
    }
}

/// Every operation but a batch entry acts on a single key.
pub open spec fn is_single_key(op: Op) -> bool {
    !(op is BatchEnter)
}

} // verus!
