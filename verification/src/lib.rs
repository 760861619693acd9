//! Observability state engine for a desktop operations console.
//!
//! The engine owns the bounded, time-ordered state behind the console's
//! monitoring views: a metrics history store, an alert ledger and a log
//! buffer, together with the two-state collection controller that feeds
//! the history store. Every store is specified by a mathematical model
//! (a sequence of entries) and its operations are verified against that
//! model, including the batch-eviction discipline that keeps each buffer
//! bounded.

use vstd::prelude::*;

pub mod alerts;
pub mod ansible;
pub mod backend;
pub mod containers;
pub mod engine;
pub mod extensions;
pub mod history;
pub mod kubernetes;
pub mod logs;
pub mod snapshot;
pub mod text;

verus! {

/// Capacity ceiling of the metrics history store.
pub const HISTORY_CAPACITY: usize = 1000;

/// Number of oldest snapshots dropped in one eviction step of the
/// metrics history store.
pub const HISTORY_EVICTION_BATCH: usize = 100;

/// Capacity ceiling of the log buffer.
pub const LOG_CAPACITY: usize = 10000;

/// Number of oldest entries dropped in one eviction step of the log
/// buffer.
pub const LOG_EVICTION_BATCH: usize = 1000;

/// One batch-eviction step on the model of a bounded buffer: if the
/// sequence has grown past `cap`, the oldest `batch` entries are dropped
/// in one step; otherwise the sequence is unchanged.
pub open spec fn evict_step<T>(s: Seq<T>, cap: int, batch: int) -> Seq<T> {
    if s.len() > cap {
        s.subrange(batch, s.len() as int)
    } else {
        s
    }
}

/// Eviction only ever discards from the front: what one eviction step
/// retains is a contiguous suffix of what was there, in unchanged
/// order.
pub proof fn lemma_evict_step_is_suffix<T>(s: Seq<T>, cap: int, batch: int)
    requires
        0 <= batch <= cap,
    ensures
        evict_step(s, cap, batch).is_suffix_of(s),
{
}

} // verus!
