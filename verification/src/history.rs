//! The metrics history store: a bounded, time-ordered sequence of
//! snapshots with batch eviction and time-windowed reads.
//!
//! The store keeps at most [`crate::HISTORY_CAPACITY`] snapshots. An
//! append that pushes the length past the ceiling drops the oldest
//! [`crate::HISTORY_EVICTION_BATCH`] snapshots in one atomic step, so
//! occupancy follows a sawtooth, not a sliding window.

use vstd::prelude::*;
use crate::evict_step;
use crate::HISTORY_CAPACITY;
use crate::HISTORY_EVICTION_BATCH;
use crate::snapshot::SystemMetrics;
use crate::snapshot::SystemMetricsModel;

verus! {

/// Whether a snapshot model falls inside the query window ending at
/// `now_ms`: its timestamp is strictly greater than `now_ms` minus the
/// window's length.
pub open spec fn in_window(m: SystemMetricsModel, now_ms: int, minutes: int) -> bool {
    m.timestamp > now_ms - minutes * 60000
}

/// The snapshots of `s` that fall inside the window of `minutes`
/// minutes ending at `now_ms`, in stored order. A window of zero
/// minutes selects nothing.
pub open spec fn window_of(s: Seq<SystemMetricsModel>, now_ms: int, minutes: int) -> Seq<
    SystemMetricsModel,
>
    decreases s.len(),
{
    if minutes <= 0 {
        Seq::empty()
    } else if s.len() == 0 {
        Seq::empty()
    } else if in_window(s.last(), now_ms, minutes) {
        window_of(s.drop_last(), now_ms, minutes).push(s.last())
    } else {
        window_of(s.drop_last(), now_ms, minutes)
    }
}

/// Whether the snapshots of `s` carry non-decreasing timestamps.
pub open spec fn timestamps_nondecreasing(s: Seq<SystemMetricsModel>) -> bool {
    forall|i: int, j: int| 0 <= i <= j < s.len() ==> s[i].timestamp <= s[j].timestamp
}

/// The store contents reached from an empty store by the given
/// sequence of appends: each append pushes one snapshot and applies
/// one batch-eviction step.
pub open spec fn history_after(appends: Seq<SystemMetricsModel>) -> Seq<SystemMetricsModel>
    decreases appends.len(),
{
    if appends.len() == 0 {
        Seq::empty()
    } else {
        evict_step(
            history_after(appends.drop_last()).push(appends.last()),
            HISTORY_CAPACITY as int,
            HISTORY_EVICTION_BATCH as int,
        )
    }
}

/// Order preservation and bounded occupancy of the history store:
/// after any sequence of appends from empty, the retained snapshots
/// are a contiguous suffix of the appended sequence in append order,
/// the store never exceeds its capacity ceiling, and appends made in
/// non-decreasing timestamp order leave every read in non-decreasing
/// timestamp order.
pub proof fn lemma_history_order_preservation(appends: Seq<SystemMetricsModel>)
    ensures
        history_after(appends).is_suffix_of(appends),
        history_after(appends).len() <= HISTORY_CAPACITY,
        timestamps_nondecreasing(appends) ==> timestamps_nondecreasing(history_after(appends)),
    decreases appends.len(),
{
    if appends.len() > 0 {
        let prefix = appends.drop_last();
        lemma_history_order_preservation(prefix);
        let grown = history_after(prefix).push(appends.last());
        assert(grown.is_suffix_of(appends)) by {
            assert(prefix =~= appends.subrange(0, appends.len() - 1));
            assert(grown =~= appends.subrange(appends.len() - grown.len(), appends.len() as int));
        }
        crate::lemma_evict_step_is_suffix(
            grown,
            HISTORY_CAPACITY as int,
            HISTORY_EVICTION_BATCH as int,
        );
        assert(history_after(appends) =~= appends.subrange(
            appends.len() - history_after(appends).len(),
            appends.len() as int,
        ));
    }
}

/// A time-window read of time-ordered contents is itself in
/// non-decreasing timestamp order: the window keeps stored order and
/// drops entries without reordering.
pub proof fn lemma_window_preserves_order(s: Seq<SystemMetricsModel>, now_ms: int, minutes: int)
    requires
        timestamps_nondecreasing(s),
    ensures
        timestamps_nondecreasing(window_of(s, now_ms, minutes)),
        forall|i: int|
            0 <= i < window_of(s, now_ms, minutes).len() ==> s.contains(
                #[trigger] window_of(s, now_ms, minutes)[i],
            ),
    decreases s.len(),
{
    if minutes <= 0 || s.len() == 0 {
    } else {
        assert(timestamps_nondecreasing(s.drop_last()));
        lemma_window_preserves_order(s.drop_last(), now_ms, minutes);
        let w = window_of(s, now_ms, minutes);
        let prev = window_of(s.drop_last(), now_ms, minutes);
        assert forall|i: int| 0 <= i < prev.len() implies s.contains(prev[i]) by {
            assert(s.drop_last().contains(prev[i]));
            let k = choose|k: int| 0 <= k < s.drop_last().len() && s.drop_last()[k] == prev[i];
            assert(s[k] == prev[i]);
        }
        if in_window(s.last(), now_ms, minutes) {
            assert(s.contains(s.last()));
            assert forall|i: int, j: int| 0 <= i <= j < w.len() implies w[i].timestamp
                <= w[j].timestamp by {
                if j < w.len() - 1 {
                } else {
                    assert(s.drop_last().contains(prev.push(s.last()).take(prev.len() as int)[i])
                        || i == prev.len());
                    if i < prev.len() {
                        let k = choose|k: int|
                            0 <= k < s.drop_last().len() && s.drop_last()[k] == prev[i];
                        assert(s[k].timestamp <= s.last().timestamp);
                    }
                }
            }
        }
    }
}

/// The bounded, time-ordered store of snapshots.
pub struct MetricsHistory {
    entries: Vec<SystemMetrics>,
}

impl View for MetricsHistory {
    type V = Seq<SystemMetricsModel>;

    closed spec fn view(&self) -> Seq<SystemMetricsModel> {
        self.entries@.map_values(|m: SystemMetrics| m@)
    }
}

impl MetricsHistory {
    /// The store never holds more than its capacity ceiling, and every
    /// retained snapshot is well formed.
    pub open spec fn inv(self) -> bool {
        &&& self@.len() <= HISTORY_CAPACITY
        &&& forall|i: int| 0 <= i < self@.len() ==> (#[trigger] self@[i]).wf()
    }

    /// An empty store.
    pub fn new() -> (r: Self)
        ensures
            r@ =~= Seq::<SystemMetricsModel>::empty(),
            r.inv(),
    {
        MetricsHistory { entries: Vec::new() }
    }

    /// How many snapshots the store holds.
    pub fn len(&self) -> (r: usize)
        ensures
            r == self@.len(),
    {
        self.entries.len()
    }

    /// Appends one snapshot, then applies the batch-eviction rule:
    /// if the store has grown past its capacity ceiling, the oldest
    /// eviction batch is dropped in the same step. Never fails.
    pub fn append(&mut self, m: SystemMetrics)
        requires
            old(self).inv(),
            m.wf(),
        ensures
            final(self)@ =~= evict_step(
                old(self)@.push(m@),
                HISTORY_CAPACITY as int,
                HISTORY_EVICTION_BATCH as int,
            ),
            final(self).inv(),
    {
        let ghost pushed = old(self)@.push(m@);
        self.entries.push(m);
        proof {
            assert(self@ =~= pushed);
        }
        if self.entries.len() > HISTORY_CAPACITY {
            let kept = self.entries.split_off(HISTORY_EVICTION_BATCH);
            self.entries = kept;
            proof {
                assert(self@ =~= pushed.subrange(
                    HISTORY_EVICTION_BATCH as int,
                    pushed.len() as int,
                ));
            }
        }
    }

    /// The most recently appended snapshot, or `None` while the store
    /// is empty. The caller receives a copy.
    pub fn latest(&self) -> (r: Option<SystemMetrics>)
        ensures
            match r {
                Some(m) => self@.len() > 0 && m@ == self@.last(),
                None => self@.len() == 0,
            },
    {
        if self.entries.len() == 0 {
            None
        } else {
            Some(self.entries[self.entries.len() - 1].clone())
        }
    }

    /// All snapshots whose timestamp lies strictly inside the window of
    /// `minutes` minutes ending at `now_ms`, in stored order. A window
    /// of zero minutes yields no results. The caller receives copies.
    pub fn window(&self, now_ms: i64, minutes: u32) -> (r: Vec<SystemMetrics>)
        ensures
            r@.map_values(|m: SystemMetrics| m@) =~= window_of(
                self@,
                now_ms as int,
                minutes as int,
            ),
    {
        let mut out: Vec<SystemMetrics> = Vec::new();
        if minutes == 0 {
            return out;
        }
        let cutoff: i128 = now_ms as i128 - minutes as i128 * 60000;
        let mut i: usize = 0;
        while i < self.entries.len()
            invariant
                i <= self.entries.len(),
                minutes > 0,
                cutoff == now_ms as int - minutes as int * 60000,
                out@.map_values(|m: SystemMetrics| m@) =~= window_of(
                    self@.take(i as int),
                    now_ms as int,
                    minutes as int,
                ),
            decreases self.entries.len() - i,
        {
            proof {
                assert(self@.take(i + 1 as int).drop_last() =~= self@.take(i as int));
                assert(self@.take(i + 1 as int).last() == self@[i as int]);
            }
            if self.entries[i].timestamp as i128 > cutoff {
                out.push(self.entries[i].clone());
            }
            i = i + 1;
        }
        proof {
            assert(self@.take(self@.len() as int) =~= self@);
        }
        out
    }
}

} // verus!
