//! The state of one promise cell.
//!
//! In the deployed engine a cell is a one-shot, multi-waiter future: produced
//! once, cloned and awaited by arbitrarily many callers, each observing the
//! same eventual record. The verified engine models a cell by what every
//! waiter can observe of it: either the load it stands for is still in
//! flight, or it has settled to one [`Outcome`], once and for all. A cell
//! never moves back from settled to in flight; the only way a key loses its
//! settled value is removal of the whole cell from the shard.

use vstd::prelude::*;

use crate::dto::Outcome;

verus! {

/// What a waiter can observe of one promise cell.
#[derive(Debug, PartialEq)]
pub enum CellState {
    /// The cell is created and visible, its load still in flight.
    Pending,
    /// The cell settled to this outcome; every waiter observes this value.
    Resolved(Outcome),
}

/// The outcome a settled cell carries. Meaningful only on settled cells;
/// the engine never reads it from a cell still in flight.
pub open spec fn cell_outcome(c: CellState) -> Outcome {
    match c {
        CellState::Resolved(o) => o,
        CellState::Pending => Outcome::Error,
    }
}

impl Clone for CellState {
    fn clone(&self) -> (r: CellState)
        ensures
            r == *self,
    {
        match self {
            CellState::Pending => CellState::Pending,
            CellState::Resolved(o) => CellState::Resolved(o.clone()),
        }
    }
}

} // verus!
