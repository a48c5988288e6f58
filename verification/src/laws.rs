//! The engine's guarantees, stated and proved.
//!
//! The concurrency laws quantify over arbitrary interleavings of atomic
//! engine operations, as modelled in [`crate::model`]; the lookup laws are
//! stated over the exact functions that the contracts of
//! [`crate::engine::GlobalCache::find_by_key`] pin the implementation to.

use vstd::prelude::*;

use crate::cell::cell_outcome;
use crate::cell::CellState;
use crate::dto::spec_empty_data;
use crate::dto::spec_error_data;
use crate::dto::Outcome;
use crate::dto::UserData;
use crate::engine::spec_get_loads;
use crate::engine::spec_get_result;
use crate::engine::spec_get_state;
use crate::model::cell_is_error;
use crate::model::count_loads;
use crate::model::is_single_key;
use crate::model::keeps_key;
use crate::model::op_key;
use crate::model::op_loads;
use crate::model::op_step;
use crate::model::removes_key;
use crate::model::Op;
use crate::repo::spec_load_one;
use crate::shard_map::spec_shard_of;

verus! {

/// One step neither removes key `k`'s cell nor settles it to an error,
/// provided the step is not an invalidation of `k` and not an error
/// resolution of `k`.
proof fn lemma_step_keeps_key(m: Map<i32, CellState>, op: Op, k: i32)
    requires
        !cell_is_error(m, k),
        !removes_key(op, k),
    ensures
        !cell_is_error(op_step(m, op), k),
        m.contains_key(k) ==> op_step(m, op).contains_key(k),
{
    match op {
        Op::GetEnter(k2) => {},
        Op::BatchEnter(keys) => {},
        Op::Resolve(k2, o) => {},
        Op::ReadPurge(k2) => {},
        Op::Invalidate(k2) => {},
    }
}

/// **Single-flight, at most once**: over any interleaving of engine
/// operations in which key `k` is neither invalidated nor settled to an
/// error, at most one load covering `k` is issued — and none at all when
/// `k` already has a cell.
pub proof fn lemma_at_most_one_load(m: Map<i32, CellState>, ops: Seq<Op>, k: i32)
    requires
        !cell_is_error(m, k),
        keeps_key(ops, k),
    ensures
        count_loads(m, ops, k) <= 1,
        m.contains_key(k) ==> count_loads(m, ops, k) == 0,
    decreases ops.len(),
{
    if ops.len() == 0 {
    } else {
        let op = ops[0];
        let m2 = op_step(m, op);
        let rest = ops.drop_first();
        assert(!removes_key(op, k));
        assert forall|i: int| 0 <= i < rest.len() implies !removes_key(#[trigger] rest[i], k) by {
            assert(rest[i] == ops[i + 1]);
        }
        lemma_step_keeps_key(m, op, k);
        lemma_at_most_one_load(m2, rest, k);
        if op_loads(m, op, k) {
            // the entry that loads also creates the cell, so nothing later loads
            assert(m2.contains_key(k));
        }
    }
}

/// **Single-flight property**: any number of concurrent single-key lookups
/// of one absent key, serialized by the key's shard in any order, issue
/// exactly one load for it.
pub proof fn lemma_single_flight(m: Map<i32, CellState>, ops: Seq<Op>, k: i32)
    requires
        !m.contains_key(k),
        ops.len() > 0,
        forall|i: int| 0 <= i < ops.len() ==> ops[i] == Op::GetEnter(k),
    ensures
        count_loads(m, ops, k) == 1,
{
    let m2 = op_step(m, ops[0]);
    let rest = ops.drop_first();
    assert(op_loads(m, ops[0], k));
    assert(m2.contains_key(k));
    assert forall|i: int| 0 <= i < rest.len() implies !removes_key(#[trigger] rest[i], k) by {
        assert(rest[i] == ops[i + 1]);
    }
    lemma_at_most_one_load(m2, rest, k);
}

/// **Cross-path coalescing**: a single-key lookup of an absent key and a
/// batch lookup requesting the same key, in either order, issue exactly
/// one load covering that key — whichever of the two created its cell.
pub proof fn lemma_cross_path_coalescing(m: Map<i32, CellState>, k: i32, keys: Seq<i32>)
    requires
        !m.contains_key(k),
        keys.contains(k),
    ensures
        count_loads(m, seq![Op::GetEnter(k), Op::BatchEnter(keys)], k) == 1,
        count_loads(m, seq![Op::BatchEnter(keys), Op::GetEnter(k)], k) == 1,
{
    let g = Op::GetEnter(k);
    let b = Op::BatchEnter(keys);

    let s1 = seq![g, b];
    let m1 = op_step(m, g);
    assert(s1[0] == g);
    assert(s1.drop_first() =~= seq![b]);
    assert(seq![b][0] == b);
    assert(seq![b].drop_first() =~= Seq::<Op>::empty());
    assert(op_loads(m, g, k));
    assert(m1.contains_key(k));
    assert(!op_loads(m1, b, k));
    assert(count_loads(op_step(m1, b), Seq::<Op>::empty(), k) == 0);
    assert(count_loads(m1, seq![b], k) == 0);
    assert(count_loads(m, s1, k) == 1 + count_loads(m1, seq![b], k));

    let s2 = seq![b, g];
    let m2 = op_step(m, b);
    assert(s2[0] == b);
    assert(s2.drop_first() =~= seq![g]);
    assert(seq![g][0] == g);
    assert(seq![g].drop_first() =~= Seq::<Op>::empty());
    assert(op_loads(m, b, k));
    assert(m2.contains_key(k));
    assert(!op_loads(m2, g, k));
    assert(count_loads(op_step(m2, g), Seq::<Op>::empty(), k) == 0);
    assert(count_loads(m2, seq![g], k) == 0);
    assert(count_loads(m, s2, k) == 1 + count_loads(m2, seq![g], k));
}

/// A single-key operation touches nothing outside its own key.
proof fn lemma_single_key_frame(m: Map<i32, CellState>, op: Op, x: i32)
    requires
        is_single_key(op),
        x != op_key(op),
    ensures
        op_step(m, op).contains_key(x) == m.contains_key(x),
        m.contains_key(x) ==> op_step(m, op)[x] == m[x],
{
}

/// A single-key operation reads nothing outside its own key: two states
/// that agree on the key are stepped to states that agree on it.
proof fn lemma_single_key_local(m1: Map<i32, CellState>, m2: Map<i32, CellState>, op: Op)
    requires
        is_single_key(op),
        m1.contains_key(op_key(op)) == m2.contains_key(op_key(op)),
        m1.contains_key(op_key(op)) ==> m1[op_key(op)] == m2[op_key(op)],
    ensures
        op_step(m1, op).contains_key(op_key(op)) == op_step(m2, op).contains_key(op_key(op)),
        op_step(m1, op).contains_key(op_key(op)) ==> op_step(m1, op)[op_key(op)] == op_step(
            m2,
            op,
        )[op_key(op)],
{
}

/// **Shard independence**: operations on keys of different shards never
/// contend — they commute, so the engine's state does not depend on the
/// order in which different shards serialize them. (Keys of different
/// shards are necessarily different keys.)
pub proof fn lemma_shard_independence(
    m: Map<i32, CellState>,
    op1: Op,
    op2: Op,
    num_shard: int,
)
    requires
        is_single_key(op1),
        is_single_key(op2),
        num_shard > 0,
        spec_shard_of(op_key(op1), num_shard) != spec_shard_of(op_key(op2), num_shard),
    ensures
        op_step(op_step(m, op1), op2) == op_step(op_step(m, op2), op1),
{
    let k1 = op_key(op1);
    let k2 = op_key(op2);
    assert(k1 != k2);
    let a = op_step(op_step(m, op1), op2);
    let b = op_step(op_step(m, op2), op1);
    assert forall|x: i32| (a.dom().contains(x) <==> b.dom().contains(x)) by {
        if x != k1 && x != k2 {
            lemma_single_key_frame(m, op1, x);
            lemma_single_key_frame(op_step(m, op1), op2, x);
            lemma_single_key_frame(m, op2, x);
            lemma_single_key_frame(op_step(m, op2), op1, x);
        } else if x == k1 {
            lemma_single_key_frame(m, op2, k1);
            lemma_single_key_frame(op_step(m, op1), op2, k1);
            lemma_single_key_local(m, op_step(m, op2), op1);
        } else {
            lemma_single_key_frame(m, op1, k2);
            lemma_single_key_frame(op_step(m, op2), op1, k2);
            lemma_single_key_local(m, op_step(m, op1), op2);
        }
    }
    assert forall|x: i32| a.dom().contains(x) implies a[x] == b[x] by {
        if x != k1 && x != k2 {
            lemma_single_key_frame(m, op1, x);
            lemma_single_key_frame(op_step(m, op1), op2, x);
            lemma_single_key_frame(m, op2, x);
            lemma_single_key_frame(op_step(m, op2), op1, x);
        } else if x == k1 {
            lemma_single_key_frame(m, op2, k1);
            lemma_single_key_frame(op_step(m, op1), op2, k1);
            lemma_single_key_local(m, op_step(m, op2), op1);
        } else {
            lemma_single_key_frame(m, op1, k2);
            lemma_single_key_frame(op_step(m, op2), op1, k2);
            lemma_single_key_local(m, op_step(m, op1), op2);
        }
    }
    assert(a =~= b);
}

/// **Negative cache idempotence**: once the empty outcome is cached for a
/// key, every lookup of it returns the empty record, issues no load, and
/// leaves the engine's state exactly as it was — so any number of repeated
/// lookups behave the same, until an explicit invalidation removes the
/// cell.
pub proof fn lemma_negative_cache_idempotent(
    m: Map<i32, CellState>,
    rows: Seq<UserData>,
    fail: bool,
    k: i32,
)
    requires
        m.contains_key(k),
        m[k] == CellState::Resolved(Outcome::Empty),
    ensures
        spec_get_result(m, rows, fail, k) == spec_empty_data(),
        spec_get_state(m, rows, fail, k) == m,
        !spec_get_loads(m, k),
{
}

/// **Error non-stickiness, read side**: a settled error is purged by the
/// very lookup that observes it; the key is absent afterwards, so the next
/// lookup issues a fresh load.
pub proof fn lemma_error_purged_on_read(
    m: Map<i32, CellState>,
    rows: Seq<UserData>,
    fail: bool,
    k: i32,
)
    requires
        m.contains_key(k),
        m[k] is Resolved,
        cell_outcome(m[k]) is Error,
    ensures
        spec_get_result(m, rows, fail, k) == spec_error_data(),
        spec_get_state(m, rows, fail, k) == m.remove(k),
        spec_get_loads(m.remove(k), k),
{
}

/// **Error non-stickiness**: a lookup of an absent key against a failing
/// source returns the error record and leaves the key absent, and the very
/// next lookup of it loads afresh — against a healthy source it returns
/// exactly what that fresh load finds.
pub proof fn lemma_error_not_sticky(
    m: Map<i32, CellState>,
    rows: Seq<UserData>,
    k: i32,
    rows2: Seq<UserData>,
    fail2: bool,
)
    requires
        !m.contains_key(k),
    ensures
        spec_get_result(m, rows, true, k) == spec_error_data(),
        spec_get_state(m, rows, true, k) == m,
        spec_get_loads(spec_get_state(m, rows, true, k), k),
        spec_get_result(spec_get_state(m, rows, true, k), rows2, fail2, k) == spec_load_one(
            rows2,
            fail2,
            k,
        ).spec_record(),
{
}

} // verus!
