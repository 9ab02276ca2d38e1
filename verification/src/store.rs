//! The Dataset Store: a single slot holding either nothing or the current
//! materialized dataset. A published dataset is never mutated in place; the
//! slot's contents are only ever replaced wholesale.
//!
//! The store itself is a sequential value; the service boundary wraps it in
//! an exclusive-access lock and holds that lock only for the swap or the
//! snapshot handoff, never for query work.

use vstd::prelude::*;
use crate::errors::ApiError;
use crate::record::Record;

verus! {

/// The slot: empty at process start, then holding each successive dataset.
pub struct DatasetStore {
    pub slot: Option<Vec<Record>>,
}

/// The rows a snapshot of the store observes, if any.
pub open spec fn snapshot_model(s: DatasetStore) -> Option<Seq<Record>> {
    match s.slot {
        Some(v) => Some(v@),
        None => None,
    }
}

/// A copy of a dataset, row for row.
fn clone_rows(rows: &Vec<Record>) -> (r: Vec<Record>)
    ensures
        r@ == rows@,
{
    let mut r: Vec<Record> = Vec::new();
    let n = rows.len();
    for i in 0..n
        invariant
            n == rows.len(),
            r@ =~= rows@.take(i as int),
    {
        r.push(rows[i].clone());
        proof {
            assert(r@ =~= rows@.take(i + 1 as int));
        }
    }
    proof {
        assert(rows@.take(n as int) =~= rows@);
    }
    r
}

impl DatasetStore {
    /// An empty store, as at process start.
    pub fn new() -> (s: Self)
        ensures
            s.slot is None,
    {
        DatasetStore { slot: None }
    }

    /// Swaps the slot's contents for the new dataset in a single step:
    /// afterwards the store holds the new rows in their entirety, never a
    /// mix of old and new.
    pub fn replace(&mut self, rows: Vec<Record>)
        ensures
            final(self).slot == Some(rows),
    {
        self.slot = Some(rows);
    }

    /// A point-in-time copy of the current dataset, safe to compute against
    /// without further access to the store; `NotLoaded` when the slot is
    /// empty.
    pub fn snapshot(&self) -> (r: Result<Vec<Record>, ApiError>)
        ensures
            match r {
                Ok(rows) => snapshot_model(*self) == Some(rows@),
                Err(e) => e is NotLoaded && snapshot_model(*self) is None,
            },
    {
        match &self.slot {
            Some(rows) => Ok(clone_rows(rows)),
            None => Err(ApiError::NotLoaded),
        }
    }

    /// Whether any dataset has been published.
    pub fn is_loaded(&self) -> (b: bool)
        ensures
            b == (self.slot is Some),
    {
        match &self.slot {
            Some(_) => true,
            None => false,
        }
    }

    /// The number of rows currently held; zero while the slot is empty.
    pub fn row_count(&self) -> (n: usize)
        ensures
            n == match snapshot_model(*self) {
                Some(rows) => rows.len(),
                None => 0,
            },
    {
        match &self.slot {
            Some(rows) => rows.len(),
            None => 0,
        }
    }
}

/// Law: a snapshot taken around a wholesale replacement observes one
/// dataset in full. With `after` being the state `replace(rows)` leaves, a
/// snapshot against `after` is exactly the new rows and one against
/// `before` is exactly the prior slot's rows — there is no state in which a
/// snapshot could combine rows of both. The service boundary's exclusive
/// lock serializes the swap against each handoff, so every concurrent
/// reader lands on one of these two states.
pub proof fn lemma_snapshot_whole(
    before: DatasetStore,
    rows: Vec<Record>,
    after: DatasetStore,
    snap: Seq<Record>,
)
    requires
        after.slot == Some(rows),
        snapshot_model(before) == Some(snap) || snapshot_model(after) == Some(snap),
    ensures
        snap == rows@ || (before.slot is Some && snap == before.slot.unwrap()@),
{
}

} // verus!
