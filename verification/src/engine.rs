//! The single-flight cache engine.
//!
//! [`GlobalCache`] owns an array of shards, each an independent mapping from
//! key to promise cell. In the deployed engine every shard is guarded by its
//! own reader/writer lock and the methods below are the critical sections
//! executed under those locks; here each method is one atomic transition of
//! the engine's state, specified exactly over the map [`contents`] of all
//! shards together.
//!
//! The discipline the contracts capture:
//! - a cell is created only for a key that has no cell — creation rechecks
//!   under the exclusive step, so at most one cell ever exists per key;
//! - a cell settles at most once, from in-flight to one outcome;
//! - invalidation removes the cell entirely and never rewrites a live cell;
//! - a settled error is purged by the read path itself, so a failure is
//!   never served from the cache to a later caller.
//!
//! [`contents`]: GlobalCache::contents

use std::collections::HashMap;

use vstd::prelude::*;

use crate::cell::cell_outcome;
use crate::cell::CellState;
use crate::dto::KeyValue;
use crate::dto::Outcome;
use crate::dto::UserData;
use crate::repo::find_row_by_id;
use crate::repo::lemma_find_row_in_selection;
use crate::repo::spec_load_one;
use crate::repo::spec_rows_for;
use crate::repo::BatchReply;
use crate::repo::MemoryDataRepo;
use crate::shard_map::shard_of;
use crate::shard_map::spec_shard_of;

verus! {

broadcast use vstd::std_specs::hash::group_hash_axioms, vstd::seq_lib::lemma_seq_contains_after_push, vstd::seq_lib::lemma_seq_take_contains;

/// The requested keys that have no cell in `m`: each at most once, in
/// request order. This is the exact argument of the one multi-key load a
/// batch lookup issues.
pub open spec fn spec_missing(m: Map<i32, CellState>, keys: Seq<i32>) -> Seq<i32>
    decreases keys.len(),
{
    if keys.len() == 0 {
        Seq::empty()
    } else {
        let d = spec_missing(m, keys.drop_last());
        let k = keys.last();
        if m.contains_key(k) || d.contains(k) {
            d
        } else {
            d.push(k)
        }
    }
}

/// The missing subset holds each requested-and-absent key exactly once and
/// nothing else.
pub proof fn lemma_missing_props(m: Map<i32, CellState>, keys: Seq<i32>)
    ensures
        spec_missing(m, keys).no_duplicates(),
        forall|x: i32|
            #[trigger] spec_missing(m, keys).contains(x) <==> (keys.contains(x)
                && !m.contains_key(x)),
    decreases keys.len(),
{
    if keys.len() == 0 {
        assert(forall|x: i32| !spec_missing(m, keys).contains(x));
        assert(forall|x: i32| !keys.contains(x));
    } else {
        let prefix = keys.drop_last();
        let d = spec_missing(m, prefix);
        let k = keys.last();
        lemma_missing_props(m, prefix);
        assert(keys =~= prefix.push(k));
        if m.contains_key(k) || d.contains(k) {
        } else {
            assert forall|i: int, j: int|
                0 <= i < d.push(k).len() && 0 <= j < d.push(k).len() && i != j implies d.push(k)[i]
                != d.push(k)[j] by {
                if i < d.len() && j < d.len() {
                } else if j == d.len() && i < d.len() {
                    if d[i] == k {
                        assert(d.contains(k));
                    }
                } else if i == d.len() && j < d.len() {
                    if d[j] == k {
                        assert(d.contains(k));
                    }
                }
            }
        }
    }
}

/// Handing the batch loader only the missing subset of a request settles
/// the cache exactly as handing it the whole request would: a requested key
/// that already had a cell is untouched either way.
pub proof fn lemma_after_batch_missing(
    m: Map<i32, CellState>,
    rows: Seq<UserData>,
    fail: bool,
    keys: Seq<i32>,
)
    ensures
        spec_after_batch(m, rows, fail, spec_missing(m, keys)) == spec_after_batch(
            m,
            rows,
            fail,
            keys,
        ),
{
    lemma_missing_props(m, keys);
    let a = spec_after_batch(m, rows, fail, spec_missing(m, keys));
    let b = spec_after_batch(m, rows, fail, keys);
    assert forall|x: i32| (a.dom().contains(x) <==> b.dom().contains(x)) by {
        assert(spec_missing(m, keys).contains(x) <==> (keys.contains(x) && !m.contains_key(x)));
    }
    assert forall|x: i32| a.dom().contains(x) implies a[x] == b[x] by {
        assert(spec_missing(m, keys).contains(x) <==> (keys.contains(x) && !m.contains_key(x)));
    }
    assert(a =~= b);
}

/// The engine state after the batch loader has created and settled a cell
/// for every requested key that had none: such a key settles to exactly
/// what a single-key load of it would settle to; every other key keeps its
/// cell.
pub open spec fn spec_after_batch(
    m: Map<i32, CellState>,
    rows: Seq<UserData>,
    fail: bool,
    keys: Seq<i32>,
) -> Map<i32, CellState> {
    Map::new(
        |k: i32| m.contains_key(k) || keys.contains(k),
        |k: i32|
            if keys.contains(k) && !m.contains_key(k) {
                CellState::Resolved(spec_load_one(rows, fail, k))
            } else {
                m[k]
            },
    )
}

/// The outcome a batch lookup observes for one requested key: the settled
/// cell if the key had one, else what its load settles to.
pub open spec fn spec_outcome_for(
    m: Map<i32, CellState>,
    rows: Seq<UserData>,
    fail: bool,
    k: i32,
) -> Outcome {
    if m.contains_key(k) {
        cell_outcome(m[k])
    } else {
        spec_load_one(rows, fail, k)
    }
}

/// The record a single-key lookup of `k` returns, as a function of the
/// engine state and the source: the settled cell's record on a hit, else
/// the record of what a fresh load settles to.
pub open spec fn spec_get_result(
    m: Map<i32, CellState>,
    rows: Seq<UserData>,
    fail: bool,
    k: i32,
) -> UserData {
    spec_outcome_for(m, rows, fail, k).spec_record()
}

/// The engine state after a single-key lookup of `k`: an observed error
/// outcome is purged, an empty or found outcome stays cached, and a miss
/// settles the freshly created cell.
pub open spec fn spec_get_state(
    m: Map<i32, CellState>,
    rows: Seq<UserData>,
    fail: bool,
    k: i32,
) -> Map<i32, CellState> {
    let o = spec_outcome_for(m, rows, fail, k);
    if o is Error {
        if m.contains_key(k) {
            m.remove(k)
        } else {
            m
        }
    } else {
        if m.contains_key(k) {
            m
        } else {
            m.insert(k, CellState::Resolved(o))
        }
    }
}

/// Whether a single-key lookup of `k` issues a load: exactly when `k` has
/// no cell yet.
pub open spec fn spec_get_loads(m: Map<i32, CellState>, k: i32) -> bool {
    !m.contains_key(k)
}

/// The engine state after a whole batch lookup: every requested key is
/// settled to its outcome, except that a key whose observed outcome was the
/// error outcome has been purged; unrequested keys are untouched.
pub open spec fn spec_after_get_many(
    m: Map<i32, CellState>,
    rows: Seq<UserData>,
    fail: bool,
    keys: Seq<i32>,
) -> Map<i32, CellState> {
    Map::new(
        |k: i32|
            if keys.contains(k) {
                !(spec_outcome_for(m, rows, fail, k) is Error)
            } else {
                m.contains_key(k)
            },
        |k: i32|
            if keys.contains(k) && !m.contains_key(k) {
                CellState::Resolved(spec_load_one(rows, fail, k))
            } else {
                m[k]
            },
    )
}

/// Batch creation in progress: the first `i` of the (absent, pairwise
/// distinct) keys hold cells in flight.
spec fn spec_batch_pending(m: Map<i32, CellState>, keys: Seq<i32>, i: int) -> Map<
    i32,
    CellState,
> {
    Map::new(
        |k: i32| m.contains_key(k) || keys.take(i).contains(k),
        |k: i32|
            if keys.take(i).contains(k) && !m.contains_key(k) {
                CellState::Pending
            } else {
                m[k]
            },
    )
}

/// Batch fan-out in progress: every key holds a cell, the first `i` of them
/// settled.
spec fn spec_batch_mid(
    m: Map<i32, CellState>,
    rows: Seq<UserData>,
    fail: bool,
    keys: Seq<i32>,
    i: int,
) -> Map<i32, CellState> {
    Map::new(
        |k: i32| m.contains_key(k) || keys.contains(k),
        |k: i32|
            if keys.contains(k) && !m.contains_key(k) {
                if keys.take(i).contains(k) {
                    CellState::Resolved(spec_load_one(rows, fail, k))
                } else {
                    CellState::Pending
                }
            } else {
                m[k]
            },
    )
}

/// Error purge in progress after a batch read: the first `i` requested keys
/// whose observed outcome was the error outcome are removed.
spec fn spec_purged(
    m: Map<i32, CellState>,
    rows: Seq<UserData>,
    fail: bool,
    keys: Seq<i32>,
    i: int,
) -> Map<i32, CellState> {
    Map::new(
        |k: i32| (m.contains_key(k) || keys.contains(k)) && !(keys.take(i).contains(k)
            && spec_outcome_for(m, rows, fail, k) is Error),
        |k: i32|
            if keys.contains(k) && !m.contains_key(k) {
                CellState::Resolved(spec_load_one(rows, fail, k))
            } else {
                m[k]
            },
    )
}

/// Why the engine could not be constructed.
#[derive(Debug, PartialEq)]
pub enum CacheError {
    /// A zero shard count or a zero per-shard capacity was requested.
    InvalidConfig,
}

/// The sharded single-flight cache engine.
pub struct GlobalCache {
    num_shard: usize,
    shard_max_capacity: usize,
    shards: Vec<HashMap<i32, CellState>>,
}

impl GlobalCache {
    /// The number of shards, fixed at construction.
    pub closed spec fn num_shards(&self) -> int {
        self.num_shard as int
    }

    /// The accepted per-shard capacity, fixed at construction.
    pub closed spec fn capacity(&self) -> int {
        self.shard_max_capacity as int
    }

    /// One shard's mapping from key to cell.
    pub closed spec fn shard_view(&self, i: int) -> Map<i32, CellState> {
        self.shards@[i]@
    }

    /// The engine's whole state: the union of all shards, as one map from
    /// key to cell. Well-formedness keeps every key in the shard the hash
    /// assigns it, so the union is the map below.
    pub closed spec fn contents(&self) -> Map<i32, CellState> {
        Map::new(
            |k: i32| self.shards@[spec_shard_of(k, self.num_shard as int)]@.contains_key(k),
            |k: i32| self.shards@[spec_shard_of(k, self.num_shard as int)]@[k],
        )
    }

    /// Structural invariant: a positive shard count and capacity, one map
    /// per shard, and every key stored in the shard the hash assigns it.
    pub closed spec fn wf(&self) -> bool {
        &&& 0 < self.num_shard
        &&& 0 < self.shard_max_capacity
        &&& self.shards@.len() == self.num_shard
        &&& forall|i: int, k: i32|
            0 <= i < self.shards@.len() && #[trigger] self.shards@[i]@.contains_key(k)
                ==> spec_shard_of(k, self.num_shard as int) == i
    }

    /// The key has no cell still in flight: absent, or settled.
    pub open spec fn key_settled(&self, k: i32) -> bool {
        self.contents().contains_key(k) ==> !(self.contents()[k] is Pending)
    }

    /// Builds an engine with the given shard count and per-shard capacity,
    /// all shards empty. Rejects a zero shard count or a zero capacity.
    pub fn new(num_shard: usize, shard_max_capacity: usize) -> (r: Result<GlobalCache, CacheError>)
        ensures
            match r {
                Ok(c) => {
                    &&& num_shard != 0
                    &&& shard_max_capacity != 0
                    &&& c.wf()
                    &&& c.num_shards() == num_shard
                    &&& c.capacity() == shard_max_capacity
                    &&& c.contents() == Map::<i32, CellState>::empty()
                },
                Err(e) => (num_shard == 0 || shard_max_capacity == 0) && e is InvalidConfig,
            },
    {
        if num_shard == 0 {
            return Err(CacheError::InvalidConfig);
        }
        if shard_max_capacity == 0 {
            return Err(CacheError::InvalidConfig);
        }
        let mut shards: Vec<HashMap<i32, CellState>> = Vec::new();
        let mut i: usize = 0;
        while i < num_shard
            invariant
                i <= num_shard,
                shards@.len() == i,
                forall|j: int| 0 <= j < i ==> #[trigger] shards@[j]@ == Map::<i32, CellState>::empty(),
            decreases num_shard - i,
        {
            shards.push(HashMap::new());
            i = i + 1;
        }
        let c = GlobalCache { num_shard, shard_max_capacity, shards };
        proof {
            assert(c.contents() =~= Map::<i32, CellState>::empty());
        }
        Ok(c)
    }

    /// The number of shards.
    pub fn shard_count(&self) -> (r: usize)
        ensures
            r as int == self.num_shards(),
    {
        self.num_shard
    }

    /// Resolves a key to the index of the shard that holds it.
    pub fn get_shard(&self, k: i32) -> (r: usize)
        requires
            self.wf(),
        ensures
            r as int == spec_shard_of(k, self.num_shards()),
            (r as int) < self.num_shards(),
    {
        shard_of(k, self.num_shard)
    }

    /// Reads the cell for a key, if one exists — the step a reader performs
    /// under the shard's read lock.
    pub fn probe(&self, k: i32) -> (r: Option<CellState>)
        requires
            self.wf(),
        ensures
            r == if self.contents().contains_key(k) {
                Some(self.contents()[k])
            } else {
                None::<CellState>
            },
    {
        let s = self.get_shard(k);
        let shard = &self.shards[s];
        match shard.get(&k) {
            Some(c) => Some(c.clone()),
            None => None,
        }
    }

    /// Creates the cell for a key unless one already exists — the step the
    /// writer performs under the shard's write lock, rechecking existence
    /// before inserting so that at most one cell per key is ever created.
    /// Returns whether this caller created the cell, and therefore owes the
    /// load that will settle it.
    pub fn insert_pending_if_absent(&mut self, k: i32) -> (inserted: bool)
        requires
            old(self).wf(),
        ensures
            final(self).wf(),
            final(self).num_shards() == old(self).num_shards(),
            final(self).capacity() == old(self).capacity(),
            inserted == !old(self).contents().contains_key(k),
            inserted ==> final(self).contents() == old(self).contents().insert(
                k,
                CellState::Pending,
            ),
            !inserted ==> final(self).contents() == old(self).contents(),
            forall|j: int|
                0 <= j < old(self).num_shards() && j != spec_shard_of(k, old(self).num_shards())
                    ==> final(self).shard_view(j) == old(self).shard_view(j),
    {
        let s = self.get_shard(k);
        let shard = &mut self.shards[s];
        if shard.contains_key(&k) {
            proof {
                assert(self.contents() =~= old(self).contents());
            }
            false
        } else {
            shard.insert(k, CellState::Pending);
            proof {
                assert(self.contents() =~= old(self).contents().insert(k, CellState::Pending));
            }
            true
        }
    }

    /// Settles the cell for a key with the outcome of its load — the step
    /// the producer performs when the load completes. Only a cell still in
    /// flight settles; a key whose cell was invalidated meanwhile, or is
    /// already settled, is left untouched and the outcome is discarded.
    pub fn resolve(&mut self, k: i32, outcome: Outcome) -> (r: bool)
        requires
            old(self).wf(),
        ensures
            final(self).wf(),
            final(self).num_shards() == old(self).num_shards(),
            final(self).capacity() == old(self).capacity(),
            r == (old(self).contents().contains_key(k) && old(self).contents()[k] is Pending),
            r ==> final(self).contents() == old(self).contents().insert(
                k,
                CellState::Resolved(outcome),
            ),
            !r ==> final(self).contents() == old(self).contents(),
            forall|j: int|
                0 <= j < old(self).num_shards() && j != spec_shard_of(k, old(self).num_shards())
                    ==> final(self).shard_view(j) == old(self).shard_view(j),
    {
        let s = self.get_shard(k);
        let shard = &mut self.shards[s];
        let pending = match shard.get(&k) {
            Some(CellState::Pending) => true,
            _ => false,
        };
        if pending {
            shard.insert(k, CellState::Resolved(outcome));
            proof {
                assert(self.contents() =~= old(self).contents().insert(
                    k,
                    CellState::Resolved(outcome),
                ));
            }
            true
        } else {
            proof {
                assert(self.contents() =~= old(self).contents());
            }
            false
        }
    }

    /// Reads the settled outcome of a key known to hold a settled cell.
    fn get_resolved(&self, k: i32) -> (o: Outcome)
        requires
            self.wf(),
            self.contents().contains_key(k),
            self.contents()[k] is Resolved,
        ensures
            o == cell_outcome(self.contents()[k]),
    {
        match self.probe(k) {
            Some(CellState::Resolved(o)) => o,
            _ => {
                // a settled cell can be nothing else
                proof {
                    assert(false);
                }
                Outcome::Error
            },
        }
    }

    /// Performs one single-key load against the source and classifies the
    /// reply into the outcome the key's cell settles to: a found row, the
    /// durable empty outcome, or the error outcome.
    pub fn find_value_repo(&self, repo: &mut MemoryDataRepo, k: i32) -> (o: Outcome)
        ensures
            o == spec_load_one(old(repo).rows_view(), old(repo).fails(), k),
            final(repo).rows_view() == old(repo).rows_view(),
            final(repo).fails() == old(repo).fails(),
            final(repo).one_log_view() == old(repo).one_log_view().push(k),
            final(repo).many_log_view() == old(repo).many_log_view(),
    {
        let reply = repo.find_by_key(k);
        crate::repo::classify(reply)
    }

    /// Looks one key up through the cache.
    ///
    /// A key with a settled cell is answered from the cache and the source
    /// is not consulted at all; a durable empty cell keeps answering the
    /// empty record without further loads until it is invalidated. A missing
    /// key gets a cell created for it, exactly one single-key load, and the
    /// cell settles to the load's outcome. In both paths, an error outcome
    /// is purged from the cache before the error record is returned, so the
    /// very next lookup of the key issues a fresh load.
    ///
    /// In the deployed engine a lookup that meets a cell still in flight
    /// suspends on it; this engine runs each load within the lookup itself,
    /// so it asks its caller for a key that is not mid-flight. How lookups
    /// that overlap in time coalesce is stated over the atomic steps in
    /// [`crate::laws`].
    pub fn find_by_key(&mut self, repo: &mut MemoryDataRepo, k: i32) -> (r: UserData)
        requires
            old(self).wf(),
            old(self).key_settled(k),
        ensures
            final(self).wf(),
            final(self).num_shards() == old(self).num_shards(),
            final(self).capacity() == old(self).capacity(),
            final(repo).rows_view() == old(repo).rows_view(),
            final(repo).fails() == old(repo).fails(),
            final(repo).many_log_view() == old(repo).many_log_view(),
            r == spec_get_result(
                old(self).contents(),
                old(repo).rows_view(),
                old(repo).fails(),
                k,
            ),
            final(self).contents() == spec_get_state(
                old(self).contents(),
                old(repo).rows_view(),
                old(repo).fails(),
                k,
            ),
            final(repo).one_log_view() == if spec_get_loads(old(self).contents(), k) {
                old(repo).one_log_view().push(k)
            } else {
                old(repo).one_log_view()
            },
            final(self).key_settled(k),
            forall|k2: i32| old(self).key_settled(k2) ==> final(self).key_settled(k2),
            forall|j: int|
                0 <= j < old(self).num_shards() && j != spec_shard_of(k, old(self).num_shards())
                    ==> final(self).shard_view(j) == old(self).shard_view(j),
    {
        let ghost m = old(self).contents();
        let probed = self.probe(k);
        match probed {
            Some(cell) => {
                // hit under the read step: every waiter observes the settled
                // outcome; a settled error is purged before it is returned
                let o = match cell {
                    CellState::Resolved(o) => o,
                    CellState::Pending => {
                        proof {
                            assert(false);
                        }
                        Outcome::Error
                    },
                };
                if o.is_error() {
                    self.invalid(k);
                }
                o.to_record()
            },
            None => {
                // miss: create the cell under the exclusive step (with its
                // recheck), then load, settle, and apply the error policy
                self.insert_pending_if_absent(k);
                let o = self.find_value_repo(repo, k);
                self.resolve(k, o.clone());
                if o.is_error() {
                    self.invalid(k);
                    proof {
                        assert(self.contents() =~= m);
                    }
                } else {
                    proof {
                        assert(self.contents() =~= m.insert(k, CellState::Resolved(o)));
                    }
                }
                o.to_record()
            },
        }
    }

    /// The batch loader: creates a cell for every given key, issues exactly
    /// one multi-key load for all of them together, and settles each cell
    /// with its row, the empty outcome when the source has no row for it,
    /// or — when the batch load fails as a whole — the error outcome for
    /// every key in the batch.
    ///
    /// Every cell is created and made visible before the load is issued, so
    /// a concurrent single-key lookup of any of these keys coalesces onto
    /// the batch's cell instead of loading on its own.
    pub fn find_values_from_repo(&mut self, repo: &mut MemoryDataRepo, list_keys: &Vec<i32>)
        requires
            old(self).wf(),
            list_keys@.no_duplicates(),
            forall|i: int|
                0 <= i < list_keys@.len() ==> !old(self).contents().contains_key(
                    #[trigger] list_keys@[i],
                ),
        ensures
            final(self).wf(),
            final(self).num_shards() == old(self).num_shards(),
            final(self).capacity() == old(self).capacity(),
            final(repo).rows_view() == old(repo).rows_view(),
            final(repo).fails() == old(repo).fails(),
            final(repo).one_log_view() == old(repo).one_log_view(),
            final(repo).many_log_view() == old(repo).many_log_view().push(list_keys@),
            final(self).contents() == spec_after_batch(
                old(self).contents(),
                old(repo).rows_view(),
                old(repo).fails(),
                list_keys@,
            ),
    {
        let ghost m = old(self).contents();
        let ghost table = old(repo).rows_view();
        let ghost fl = old(repo).fails();

        let mut i: usize = 0;
        proof {
            assert(self.contents() =~= spec_batch_pending(m, list_keys@, 0));
        }
        while i < list_keys.len()
            invariant
                self.wf(),
                self.num_shards() == old(self).num_shards(),
                self.capacity() == old(self).capacity(),
                i <= list_keys@.len(),
                list_keys@.no_duplicates(),
                forall|j: int|
                    0 <= j < list_keys@.len() ==> !m.contains_key(#[trigger] list_keys@[j]),
                self.contents() == spec_batch_pending(m, list_keys@, i as int),
            decreases list_keys@.len() - i,
        {
            let k = list_keys[i];
            proof {
                if list_keys@.take(i as int).contains(k) {
                    let j = choose|j: int| 0 <= j < i && list_keys@[j] == k;
                    assert(list_keys@[j] == list_keys@[i as int]);
                    assert(false);
                }
            }
            self.insert_pending_if_absent(k);
            proof {
                assert(self.contents() =~= spec_batch_pending(m, list_keys@, i + 1));
            }
            i = i + 1;
        }
        proof {
            assert(list_keys@.take(list_keys@.len() as int) =~= list_keys@);
        }

        let reply = repo.find_by_mul_key(list_keys);
        match reply {
            BatchReply::Rows(rows) => {
                let mut i: usize = 0;
                proof {
                    assert(spec_batch_pending(m, list_keys@, list_keys@.len() as int)
                        =~= spec_batch_mid(m, table, fl, list_keys@, 0));
                }
                while i < list_keys.len()
                    invariant
                        self.wf(),
                        self.num_shards() == old(self).num_shards(),
                        self.capacity() == old(self).capacity(),
                        i <= list_keys@.len(),
                        list_keys@.no_duplicates(),
                        forall|j: int|
                            0 <= j < list_keys@.len() ==> !m.contains_key(#[trigger] list_keys@[j]),
                        !fl,
                        rows@ == spec_rows_for(table, list_keys@),
                        self.contents() == spec_batch_mid(m, table, fl, list_keys@, i as int),
                    decreases list_keys@.len() - i,
                {
                    let k = list_keys[i];
                    let o = match find_row_by_id(&rows, k) {
                        Some(u) => Outcome::Value(u),
                        None => Outcome::Empty,
                    };
                    proof {
                        assert(list_keys@[i as int] == k);
                        assert(list_keys@.contains(k));
                        lemma_find_row_in_selection(table, list_keys@, k);
                        assert(o == spec_load_one(table, fl, k));
                        if list_keys@.take(i as int).contains(k) {
                            let j = choose|j: int| 0 <= j < i && list_keys@[j] == k;
                            assert(list_keys@[j] == list_keys@[i as int]);
                            assert(false);
                        }
                    }
                    self.resolve(k, o);
                    proof {
                        assert(self.contents() =~= spec_batch_mid(m, table, fl, list_keys@, i + 1));
                    }
                    i = i + 1;
                }
                proof {
                    assert(list_keys@.take(list_keys@.len() as int) =~= list_keys@);
                    assert(self.contents() =~= spec_after_batch(m, table, fl, list_keys@));
                }
            },
            BatchReply::Failed => {
                // a batch failure is total, not partial: every cell in the
                // batch settles to the error outcome
                let mut i: usize = 0;
                proof {
                    assert(spec_batch_pending(m, list_keys@, list_keys@.len() as int)
                        =~= spec_batch_mid(m, table, fl, list_keys@, 0));
                }
                while i < list_keys.len()
                    invariant
                        self.wf(),
                        self.num_shards() == old(self).num_shards(),
                        self.capacity() == old(self).capacity(),
                        i <= list_keys@.len(),
                        list_keys@.no_duplicates(),
                        forall|j: int|
                            0 <= j < list_keys@.len() ==> !m.contains_key(#[trigger] list_keys@[j]),
                        fl,
                        self.contents() == spec_batch_mid(m, table, fl, list_keys@, i as int),
                    decreases list_keys@.len() - i,
                {
                    let k = list_keys[i];
                    proof {
                        assert(list_keys@[i as int] == k);
                        assert(list_keys@.contains(k));
                        if list_keys@.take(i as int).contains(k) {
                            let j = choose|j: int| 0 <= j < i && list_keys@[j] == k;
                            assert(list_keys@[j] == list_keys@[i as int]);
                            assert(false);
                        }
                    }
                    self.resolve(k, Outcome::Error);
                    proof {
                        assert(self.contents() =~= spec_batch_mid(m, table, fl, list_keys@, i + 1));
                    }
                    i = i + 1;
                }
                proof {
                    assert(list_keys@.take(list_keys@.len() as int) =~= list_keys@);
                    assert(self.contents() =~= spec_after_batch(m, table, fl, list_keys@));
                }
            },
        }
    }

    /// Looks a list of keys up through the cache, returning one result per
    /// requested position, in request order.
    ///
    /// The keys are partitioned into hits and misses by per-shard probes;
    /// the misses — each missing key once, in request order — are handed to
    /// the batch loader, which issues exactly one multi-key load for them,
    /// or none at all when every key is already cached. Each key's observed
    /// outcome is flattened to its record; any key whose observed outcome is
    /// the error outcome is purged, exactly as the single-key path purges.
    pub fn find_by_keys(&mut self, repo: &mut MemoryDataRepo, list_key: &Vec<i32>) -> (out: Vec<
        KeyValue,
    >)
        requires
            old(self).wf(),
            forall|i: int|
                0 <= i < list_key@.len() ==> old(self).key_settled(#[trigger] list_key@[i]),
        ensures
            final(self).wf(),
            final(self).num_shards() == old(self).num_shards(),
            final(self).capacity() == old(self).capacity(),
            final(repo).rows_view() == old(repo).rows_view(),
            final(repo).fails() == old(repo).fails(),
            final(repo).one_log_view() == old(repo).one_log_view(),
            ({
                let missing = spec_missing(old(self).contents(), list_key@);
                &&& missing.len() == 0 ==> final(repo).many_log_view() == old(
                    repo,
                ).many_log_view()
                &&& missing.len() > 0 ==> final(repo).many_log_view() == old(
                    repo,
                ).many_log_view().push(missing)
            }),
            out@.len() == list_key@.len(),
            forall|i: int|
                0 <= i < list_key@.len() ==> #[trigger] out@[i] == (KeyValue {
                    key: list_key@[i],
                    value: Some(
                        spec_outcome_for(
                            old(self).contents(),
                            old(repo).rows_view(),
                            old(repo).fails(),
                            list_key@[i],
                        ).spec_record(),
                    ),
                }),
            final(self).contents() == spec_after_get_many(
                old(self).contents(),
                old(repo).rows_view(),
                old(repo).fails(),
                list_key@,
            ),
            forall|k2: i32| old(self).key_settled(k2) ==> final(self).key_settled(k2),
    {
        let ghost m = old(self).contents();
        let ghost table = old(repo).rows_view();
        let ghost fl = old(repo).fails();

        // probe every key under its shard's read step, collecting each
        // missing key once, in request order
        let mut miss: Vec<i32> = Vec::new();
        let mut i: usize = 0;
        while i < list_key.len()
            invariant
                self == old(self),
                self.wf(),
                m == old(self).contents(),
                i <= list_key@.len(),
                miss@ == spec_missing(m, list_key@.take(i as int)),
            decreases list_key@.len() - i,
        {
            let k = list_key[i];
            let present = match self.probe(k) {
                Some(_) => true,
                None => false,
            };
            let dup = crate::repo::vec_contains_i32(&miss, k);
            if !present && !dup {
                miss.push(k);
            }
            proof {
                let t0 = list_key@.take(i as int);
                let t1 = list_key@.take(i + 1);
                assert(t1.len() == i + 1);
                assert(t1.drop_last() =~= t0);
                assert(t1.last() == k);
                assert(spec_missing(m, t1) == if m.contains_key(k) || spec_missing(m, t0).contains(
                    k,
                ) {
                    spec_missing(m, t0)
                } else {
                    spec_missing(m, t0).push(k)
                });
            }
            i = i + 1;
        }
        proof {
            assert(list_key@.take(list_key@.len() as int) =~= list_key@);
            lemma_missing_props(m, list_key@);
        }

        // delegate every miss to the batch loader; nothing to load otherwise
        let ghost mb = spec_after_batch(m, table, fl, list_key@);
        if miss.len() > 0 {
            proof {
                assert forall|j: int| 0 <= j < miss@.len() implies !m.contains_key(
                    #[trigger] miss@[j],
                ) by {
                    assert(miss@[j] == miss@[j]);
                    assert(miss@.contains(miss@[j]));
                }
            }
            self.find_values_from_repo(repo, &miss);
            proof {
                lemma_after_batch_missing(m, table, fl, list_key@);
                assert(self.contents() == mb);
            }
        } else {
            proof {
                lemma_after_batch_missing(m, table, fl, list_key@);
                assert(spec_after_batch(m, table, fl, miss@) =~= m);
                assert(self.contents() == mb);
            }
        }

        // read every position's outcome while the whole batch is settled
        let mut outcomes: Vec<Outcome> = Vec::new();
        let mut i: usize = 0;
        while i < list_key.len()
            invariant
                self.wf(),
                self.num_shards() == old(self).num_shards(),
                self.capacity() == old(self).capacity(),
                self.contents() == mb,
                m == old(self).contents(),
                mb == spec_after_batch(m, table, fl, list_key@),
                forall|j: int|
                    0 <= j < list_key@.len() ==> old(self).key_settled(#[trigger] list_key@[j]),
                i <= list_key@.len(),
                outcomes@.len() == i,
                forall|j: int|
                    0 <= j < i ==> #[trigger] outcomes@[j] == spec_outcome_for(
                        m,
                        table,
                        fl,
                        list_key@[j],
                    ),
            decreases list_key@.len() - i,
        {
            let k = list_key[i];
            proof {
                assert(list_key@[i as int] == k);
                assert(list_key@.contains(k));
                assert(old(self).key_settled(k));
                // every requested key is present and settled after the batch
                assert(mb.dom().contains(k));
                assert(self.contents().contains_key(k));
                assert(mb[k] is Resolved) by {
                    if m.contains_key(k) {
                        assert(mb[k] == m[k]);
                        assert(!(m[k] is Pending));
                    } else {
                        assert(mb[k] == CellState::Resolved(spec_load_one(table, fl, k)));
                    }
                }
                assert(self.contents()[k] is Resolved);
            }
            let o = self.get_resolved(k);
            proof {
                assert(o == spec_outcome_for(m, table, fl, k)) by {
                    if m.contains_key(k) {
                        assert(mb[k] == m[k]);
                    }
                }
            }
            outcomes.push(o);
            i = i + 1;
        }

        // purge every observed error, exactly as the single-key path does
        let mut i: usize = 0;
        proof {
            assert(mb =~= spec_purged(m, table, fl, list_key@, 0));
        }
        while i < list_key.len()
            invariant
                self.wf(),
                self.num_shards() == old(self).num_shards(),
                self.capacity() == old(self).capacity(),
                i <= list_key@.len(),
                outcomes@.len() == list_key@.len(),
                forall|j: int|
                    0 <= j < list_key@.len() ==> #[trigger] outcomes@[j] == spec_outcome_for(
                        m,
                        table,
                        fl,
                        list_key@[j],
                    ),
                self.contents() == spec_purged(m, table, fl, list_key@, i as int),
            decreases list_key@.len() - i,
        {
            let k = list_key[i];
            let err = outcomes[i].is_error();
            if err {
                self.invalid(k);
            }
            proof {
                assert(list_key@[i as int] == k);
                assert(list_key@.contains(k));
                assert(self.contents() =~= spec_purged(m, table, fl, list_key@, i + 1));
            }
            i = i + 1;
        }
        proof {
            assert(list_key@.take(list_key@.len() as int) =~= list_key@);
            assert(self.contents() =~= spec_after_get_many(m, table, fl, list_key@));
        }

        // flatten the outcomes to records, in request order
        let mut out: Vec<KeyValue> = Vec::new();
        let mut i: usize = 0;
        while i < list_key.len()
            invariant
                i <= list_key@.len(),
                outcomes@.len() == list_key@.len(),
                forall|j: int|
                    0 <= j < list_key@.len() ==> #[trigger] outcomes@[j] == spec_outcome_for(
                        m,
                        table,
                        fl,
                        list_key@[j],
                    ),
                out@.len() == i,
                forall|j: int|
                    0 <= j < i ==> #[trigger] out@[j] == (KeyValue {
                        key: list_key@[j],
                        value: Some(spec_outcome_for(m, table, fl, list_key@[j]).spec_record()),
                    }),
            decreases list_key@.len() - i,
        {
            let record = outcomes[i].to_record();
            out.push(KeyValue { key: list_key[i], value: Some(record) });
            i = i + 1;
        }
        out
    }

    /// Removes the cell for a key, dropping whatever it held — the step an
    /// invalidation performs under the shard's write lock. Returns whether
    /// something was removed. Removing a cell whose load is still in flight
    /// does not stop that load; its outcome is simply discarded when the
    /// producer finds the cell gone (see [`Self::resolve`]).
    pub fn invalid(&mut self, k: i32) -> (r: bool)
        requires
            old(self).wf(),
        ensures
            final(self).wf(),
            final(self).num_shards() == old(self).num_shards(),
            final(self).capacity() == old(self).capacity(),
            r == old(self).contents().contains_key(k),
            final(self).contents() == old(self).contents().remove(k),
            forall|j: int|
                0 <= j < old(self).num_shards() && j != spec_shard_of(k, old(self).num_shards())
                    ==> final(self).shard_view(j) == old(self).shard_view(j),
    {
        let s = self.get_shard(k);
        let shard = &mut self.shards[s];
        let removed = shard.remove(&k);
        proof {
            assert(self.contents() =~= old(self).contents().remove(k));
        }
        removed.is_some()
    }
}

} // verus!
