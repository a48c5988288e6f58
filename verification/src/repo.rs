//! A deterministic data source for the verified engine.
//!
//! The deployed engine reads from a relational store; the verified engine is
//! specified against this in-memory source, which answers lookups from a
//! fixed table, can be switched into a failing mode, and records every call
//! it receives. The call logs are what the engine's contracts use to state
//! that a load happened exactly once, or not at all.

use vstd::prelude::*;

use crate::dto::Outcome;
use crate::dto::UserData;

verus! {

/// What the source reports for a single-key load.
#[derive(Debug, PartialEq)]
pub enum LoadReply {
    /// The row with the requested identity.
    Found(UserData),
    /// The source confirmed there is no such row.
    NotFound,
    /// The load failed (transport or query failure).
    Failed,
}

/// What the source reports for a multi-key load: the rows found, or a
/// failure affecting the whole batch.
#[derive(Debug, PartialEq)]
pub enum BatchReply {
    Rows(Vec<UserData>),
    Failed,
}

/// The first row of `rows` whose identity is `k`, if any.
pub open spec fn spec_find_row(rows: Seq<UserData>, k: i32) -> Option<UserData>
    decreases rows.len(),
{
    if rows.len() == 0 {
        None
    } else if rows[0].id == Some(k) {
        Some(rows[0])
    } else {
        spec_find_row(rows.drop_first(), k)
    }
}

/// The rows of `rows` whose identity is one of `keys`, in table order.
pub open spec fn spec_rows_for(rows: Seq<UserData>, keys: Seq<i32>) -> Seq<UserData>
    decreases rows.len(),
{
    if rows.len() == 0 {
        Seq::empty()
    } else {
        let rest = spec_rows_for(rows.drop_first(), keys);
        let head = rows[0];
        if head.id is Some && keys.contains(head.id->0) {
            seq![head] + rest
        } else {
            rest
        }
    }
}

/// A key requested from a batch is found among the returned rows exactly as
/// it would be found in the table itself: the selection keeps table order
/// and drops only rows whose identity was not requested.
pub proof fn lemma_find_row_in_selection(rows: Seq<UserData>, keys: Seq<i32>, k: i32)
    requires
        keys.contains(k),
    ensures
        spec_find_row(spec_rows_for(rows, keys), k) == spec_find_row(rows, k),
    decreases rows.len(),
{
    if rows.len() == 0 {
    } else {
        let head = rows[0];
        let rest = spec_rows_for(rows.drop_first(), keys);
        lemma_find_row_in_selection(rows.drop_first(), keys, k);
        if head.id is Some && keys.contains(head.id->0) {
            let sel = seq![head] + rest;
            assert(sel[0] == head);
            assert(sel.drop_first() =~= rest);
        } else {
            assert(head.id != Some(k));
        }
    }
}

/// The outcome a single-key reply classifies to: a found row, the durable
/// empty outcome for a confirmed-missing row, or the error outcome for a
/// failed load.
pub open spec fn spec_classify(r: LoadReply) -> Outcome {
    match r {
        LoadReply::Found(u) => Outcome::Value(u),
        LoadReply::NotFound => Outcome::Empty,
        LoadReply::Failed => Outcome::Error,
    }
}

/// Classifies one single-key source reply into the outcome the key's cell
/// settles to.
pub fn classify(reply: LoadReply) -> (o: Outcome)
    ensures
        o == spec_classify(reply),
{
    match reply {
        LoadReply::Found(u) => Outcome::Value(u),
        LoadReply::NotFound => Outcome::Empty,
        LoadReply::Failed => Outcome::Error,
    }
}

/// What one single-key load settles to, as a function of the source's table
/// and failure mode.
pub open spec fn spec_load_one(rows: Seq<UserData>, fail: bool, k: i32) -> crate::dto::Outcome {
    if fail {
        crate::dto::Outcome::Error
    } else {
        match spec_find_row(rows, k) {
            Some(u) => crate::dto::Outcome::Value(u),
            None => crate::dto::Outcome::Empty,
        }
    }
}

/// The in-memory data source: a fixed table, a failure switch, and a log of
/// every load issued against it.
pub struct MemoryDataRepo {
    rows: Vec<UserData>,
    fail: bool,
    one_log: Vec<i32>,
    many_log: Vec<Vec<i32>>,
}

impl MemoryDataRepo {
    /// The source's table.
    pub closed spec fn rows_view(&self) -> Seq<UserData> {
        self.rows@
    }

    /// Whether the source currently fails every load.
    pub closed spec fn fails(&self) -> bool {
        self.fail
    }

    /// Every single-key load issued so far, in order.
    pub closed spec fn one_log_view(&self) -> Seq<i32> {
        self.one_log@
    }

    /// Every multi-key load issued so far, in order.
    pub closed spec fn many_log_view(&self) -> Seq<Seq<i32>> {
        self.many_log@.map_values(|v: Vec<i32>| v@)
    }

    /// Builds a healthy source over the given table, with empty logs.
    pub fn new(rows: Vec<UserData>) -> (r: MemoryDataRepo)
        ensures
            r.rows_view() == rows@,
            !r.fails(),
            r.one_log_view() == Seq::<i32>::empty(),
            r.many_log_view() == Seq::<Seq<i32>>::empty(),
    {
        let r = MemoryDataRepo { rows, fail: false, one_log: Vec::new(), many_log: Vec::new() };
        proof {
            assert(r.many_log_view() =~= Seq::<Seq<i32>>::empty());
        }
        r
    }

    /// Switches the source's failure mode.
    pub fn set_fail(&mut self, fail: bool)
        ensures
            final(self).rows_view() == old(self).rows_view(),
            final(self).fails() == fail,
            final(self).one_log_view() == old(self).one_log_view(),
            final(self).many_log_view() == old(self).many_log_view(),
    {
        self.fail = fail;
    }

    /// How many single-key loads have been issued against this source.
    pub fn loads_issued(&self) -> (n: usize)
        ensures
            n == self.one_log_view().len(),
    {
        self.one_log.len()
    }

    /// How many multi-key loads have been issued against this source.
    pub fn batch_loads_issued(&self) -> (n: usize)
        ensures
            n == self.many_log_view().len(),
    {
        self.many_log.len()
    }

    /// The most recent single-key load, if any was issued.
    pub fn last_load(&self) -> (r: Option<i32>)
        ensures
            match r {
                Some(k) => self.one_log_view().len() > 0 && k == self.one_log_view().last(),
                None => self.one_log_view().len() == 0,
            },
    {
        if self.one_log.len() == 0 {
            None
        } else {
            Some(self.one_log[self.one_log.len() - 1])
        }
    }

    /// The keys of the most recent multi-key load, if any was issued.
    pub fn last_batch(&self) -> (r: Option<Vec<i32>>)
        ensures
            match r {
                Some(v) => self.many_log_view().len() > 0 && v@ == self.many_log_view().last(),
                None => self.many_log_view().len() == 0,
            },
    {
        if self.many_log.len() == 0 {
            None
        } else {
            let src = &self.many_log[self.many_log.len() - 1];
            let mut copy: Vec<i32> = Vec::new();
            let mut i: usize = 0;
            while i < src.len()
                invariant
                    i <= src.len(),
                    src == &self.many_log[self.many_log@.len() - 1],
                    copy@ == src@.take(i as int),
                decreases src.len() - i,
            {
                copy.push(src[i]);
                i = i + 1;
            }
            proof {
                assert(copy@ =~= src@);
                assert(self.many_log_view().last() == src@);
            }
            Some(copy)
        }
    }

    /// Loads one key: logs the call, then answers from the table, or fails
    /// as a whole when the failure switch is on.
    pub fn find_by_key(&mut self, key: i32) -> (r: LoadReply)
        ensures
            final(self).rows_view() == old(self).rows_view(),
            final(self).fails() == old(self).fails(),
            final(self).one_log_view() == old(self).one_log_view().push(key),
            final(self).many_log_view() == old(self).many_log_view(),
            r == spec_load_reply(old(self).rows_view(), old(self).fails(), key),
    {
        self.one_log.push(key);
        if self.fail {
            return LoadReply::Failed;
        }
        match find_row_by_id(&self.rows, key) {
            Some(u) => LoadReply::Found(u),
            None => LoadReply::NotFound,
        }
    }

    /// Loads a batch of keys: logs the call, then returns exactly the rows
    /// whose identity is one of the keys, or fails as a whole.
    pub fn find_by_mul_key(&mut self, keys: &Vec<i32>) -> (r: BatchReply)
        ensures
            final(self).rows_view() == old(self).rows_view(),
            final(self).fails() == old(self).fails(),
            final(self).one_log_view() == old(self).one_log_view(),
            final(self).many_log_view() == old(self).many_log_view().push(keys@),
            old(self).fails() ==> r is Failed,
            !old(self).fails() ==> r is Rows && r->Rows_0@ == spec_rows_for(
                old(self).rows_view(),
                keys@,
            ),
    {
        let mut copy: Vec<i32> = Vec::new();
        let mut i: usize = 0;
        while i < keys.len()
            invariant
                i <= keys.len(),
                copy@ == keys@.take(i as int),
            decreases keys.len() - i,
        {
            copy.push(keys[i]);
            i = i + 1;
        }
        proof {
            assert(copy@ =~= keys@);
        }
        self.many_log.push(copy);
        proof {
            assert(self.many_log_view() =~= old(self).many_log_view().push(keys@));
        }
        if self.fail {
            return BatchReply::Failed;
        }
        let mut out: Vec<UserData> = Vec::new();
        let mut j: usize = 0;
        proof {
            assert(self.rows@.skip(0) =~= self.rows@);
        }
        while j < self.rows.len()
            invariant
                j <= self.rows.len(),
                self.rows@ == old(self).rows@,
                out@ + spec_rows_for(self.rows@.skip(j as int), keys@) == spec_rows_for(
                    self.rows@,
                    keys@,
                ),
            decreases self.rows.len() - j,
        {
            proof {
                assert(self.rows@.skip(j as int)[0] == self.rows@[j as int]);
                assert(self.rows@.skip(j as int).drop_first() =~= self.rows@.skip(j + 1 as int));
            }
            let row = &self.rows[j];
            let keep = match row.id {
                Some(id) => vec_contains_i32(keys, id),
                None => false,
            };
            if keep {
                out.push(self.rows[j].clone());
                proof {
                    assert(out@ + spec_rows_for(self.rows@.skip(j + 1 as int), keys@) =~= spec_rows_for(
                        self.rows@,
                        keys@,
                    ));
                }
            } else {
                proof {
                    assert(out@ + spec_rows_for(self.rows@.skip(j + 1 as int), keys@) =~= spec_rows_for(
                        self.rows@,
                        keys@,
                    ));
                }
            }
            j = j + 1;
        }
        proof {
            assert(self.rows@.skip(self.rows@.len() as int).len() == 0);
            assert(out@ =~= spec_rows_for(self.rows@, keys@));
        }
        BatchReply::Rows(out)
    }
}

/// The reply a single-key load yields, as a function of table and failure
/// mode; agrees with [`spec_load_one`] through the engine's classification.
pub open spec fn spec_load_reply(rows: Seq<UserData>, fail: bool, k: i32) -> LoadReply {
    if fail {
        LoadReply::Failed
    } else {
        match spec_find_row(rows, k) {
            Some(u) => LoadReply::Found(u),
            None => LoadReply::NotFound,
        }
    }
}

/// Scans a table for the first row with the given identity.
pub(crate) fn find_row_by_id(rows: &Vec<UserData>, k: i32) -> (r: Option<UserData>)
    ensures
        r == spec_find_row(rows@, k),
{
    let mut i: usize = 0;
    proof {
        assert(rows@.skip(0) =~= rows@);
    }
    while i < rows.len()
        invariant
            i <= rows.len(),
            spec_find_row(rows@, k) == spec_find_row(rows@.skip(i as int), k),
        decreases rows.len() - i,
    {
        proof {
            assert(rows@.skip(i as int)[0] == rows@[i as int]);
            assert(rows@.skip(i as int).drop_first() =~= rows@.skip(i + 1 as int));
        }
        let row = &rows[i];
        let hit = match row.id {
            Some(id) => id == k,
            None => false,
        };
        if hit {
            return Some(rows[i].clone());
        }
        i = i + 1;
    }
    proof {
        assert(rows@.skip(rows@.len() as int).len() == 0);
    }
    None
}

/// True exactly when `v` holds `x`.
pub(crate) fn vec_contains_i32(v: &Vec<i32>, x: i32) -> (r: bool)
    ensures
        r == v@.contains(x),
{
    let mut i: usize = 0;
    while i < v.len()
        invariant
            i <= v.len(),
            forall|j: int| 0 <= j < i ==> v@[j] != x,
        decreases v.len() - i,
    {
        if v[i] == x {
            return true;
        }
        i = i + 1;
    }
    false
}

} // verus!
