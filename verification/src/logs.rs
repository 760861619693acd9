//! The log aggregator: a bounded, insertion-ordered buffer of log
//! entries with batch eviction and substring search.
//!
//! The buffer keeps at most [`crate::LOG_CAPACITY`] entries; an append
//! that pushes the length past the ceiling drops the oldest
//! [`crate::LOG_EVICTION_BATCH`] entries in one atomic step. Search
//! scans in stored order and stops at its limit, so results are always
//! the chronologically earliest matches still resident.

use vstd::prelude::*;
use crate::evict_step;
use crate::LOG_CAPACITY;
use crate::LOG_EVICTION_BATCH;
use crate::text::contains_seq;
use crate::text::str_contains;

verus! {

/// Logging severity, from most to least severe.
#[derive(Clone, Copy, PartialEq, Eq, Structural, Debug)]
pub enum LogLevel {
    Error,
    Warn,
    Info,
    Debug,
    Trace,
}

/// One log entry, immutable once appended. `timestamp` is in
/// milliseconds since the Unix epoch.
pub struct LogEntry {
    pub timestamp: i64,
    pub level: LogLevel,
    pub source: String,
    pub message: String,
    pub container_id: Option<String>,
    pub pod_name: Option<String>,
}

/// Mathematical model of one log entry.
pub ghost struct LogEntryModel {
    pub timestamp: i64,
    pub level: LogLevel,
    pub source: Seq<char>,
    pub message: Seq<char>,
    pub container_id: Option<Seq<char>>,
    pub pod_name: Option<Seq<char>>,
}

impl View for LogEntry {
    type V = LogEntryModel;

    open spec fn view(&self) -> LogEntryModel {
        LogEntryModel {
            timestamp: self.timestamp,
            level: self.level,
            source: self.source@,
            message: self.message@,
            container_id: match self.container_id {
                Some(s) => Some(s@),
                None => None,
            },
            pod_name: match self.pod_name {
                Some(s) => Some(s@),
                None => None,
            },
        }
    }
}

impl Clone for LogEntry {
    fn clone(&self) -> (r: Self)
        ensures
            r@ == self@,
    {
        LogEntry {
            timestamp: self.timestamp,
            level: self.level,
            source: self.source.clone(),
            message: self.message.clone(),
            container_id: match &self.container_id {
                Some(s) => Some(s.clone()),
                None => None,
            },
            pod_name: match &self.pod_name {
                Some(s) => Some(s.clone()),
                None => None,
            },
        }
    }
}

/// Whether a log entry matches a query: the query occurs as a
/// substring of its message or of its source, case-sensitively.
pub open spec fn entry_matches(e: LogEntryModel, q: Seq<char>) -> bool {
    contains_seq(e.message, q) || contains_seq(e.source, q)
}

/// The entries of `s` matching query `q`, in stored order.
pub open spec fn matches_of(s: Seq<LogEntryModel>, q: Seq<char>) -> Seq<LogEntryModel>
    decreases s.len(),
{
    if s.len() == 0 {
        Seq::empty()
    } else {
        let rest = matches_of(s.drop_last(), q);
        if entry_matches(s.last(), q) {
            rest.push(s.last())
        } else {
            rest
        }
    }
}

/// The first `limit` entries of `s` matching `q`, in stored order:
/// always the earliest matches still resident in the buffer.
pub open spec fn search_spec(s: Seq<LogEntryModel>, q: Seq<char>, limit: int) -> Seq<
    LogEntryModel,
> {
    let m = matches_of(s, q);
    if m.len() <= limit {
        m
    } else {
        m.take(limit)
    }
}

/// The matches of a prefix of `s` are a prefix of the matches of `s`.
pub proof fn lemma_matches_prefix(s: Seq<LogEntryModel>, q: Seq<char>, i: int)
    requires
        0 <= i <= s.len(),
    ensures
        matches_of(s.take(i), q).is_prefix_of(matches_of(s, q)),
    decreases s.len() - i,
{
    if i == s.len() {
        assert(s.take(i) =~= s);
    } else {
        assert(s.drop_last().take(i) =~= s.take(i));
        lemma_matches_prefix(s.drop_last(), q, i);
    }
}

/// Whether the entries of `s` carry non-decreasing timestamps.
pub open spec fn log_timestamps_nondecreasing(s: Seq<LogEntryModel>) -> bool {
    forall|i: int, j: int| 0 <= i <= j < s.len() ==> s[i].timestamp <= s[j].timestamp
}

/// The buffer contents reached from an empty buffer by the given
/// sequence of appends: each append pushes one entry and applies one
/// batch-eviction step.
pub open spec fn buffer_after(appends: Seq<LogEntryModel>) -> Seq<LogEntryModel>
    decreases appends.len(),
{
    if appends.len() == 0 {
        Seq::empty()
    } else {
        evict_step(
            buffer_after(appends.drop_last()).push(appends.last()),
            LOG_CAPACITY as int,
            LOG_EVICTION_BATCH as int,
        )
    }
}

/// Order preservation and bounded occupancy of the log buffer: after
/// any sequence of appends from empty, the retained entries are a
/// contiguous suffix of the appended sequence in append order, the
/// buffer never exceeds its capacity ceiling, and appends made in
/// non-decreasing timestamp order leave every read in non-decreasing
/// timestamp order.
pub proof fn lemma_log_order_preservation(appends: Seq<LogEntryModel>)
    ensures
        buffer_after(appends).is_suffix_of(appends),
        buffer_after(appends).len() <= LOG_CAPACITY,
        log_timestamps_nondecreasing(appends) ==> log_timestamps_nondecreasing(
            buffer_after(appends),
        ),
    decreases appends.len(),
{
    if appends.len() > 0 {
        let prefix = appends.drop_last();
        lemma_log_order_preservation(prefix);
        let grown = buffer_after(prefix).push(appends.last());
        assert(grown.is_suffix_of(appends)) by {
            assert(prefix =~= appends.subrange(0, appends.len() - 1));
            assert(grown =~= appends.subrange(appends.len() - grown.len(), appends.len() as int));
        }
        crate::lemma_evict_step_is_suffix(grown, LOG_CAPACITY as int, LOG_EVICTION_BATCH as int);
        assert(buffer_after(appends) =~= appends.subrange(
            appends.len() - buffer_after(appends).len(),
            appends.len() as int,
        ));
    }
}

/// A search over time-ordered contents returns entries in
/// non-decreasing timestamp order: the scan keeps stored order and
/// the limit only truncates the tail.
pub proof fn lemma_search_preserves_order(s: Seq<LogEntryModel>, q: Seq<char>, limit: int)
    requires
        log_timestamps_nondecreasing(s),
        0 <= limit,
    ensures
        log_timestamps_nondecreasing(search_spec(s, q, limit)),
{
    lemma_matches_order(s, q);
}

/// The matches of time-ordered contents are themselves time-ordered,
/// and each one occurs in the contents.
pub proof fn lemma_matches_order(s: Seq<LogEntryModel>, q: Seq<char>)
    requires
        log_timestamps_nondecreasing(s),
    ensures
        log_timestamps_nondecreasing(matches_of(s, q)),
        forall|i: int| 0 <= i < matches_of(s, q).len() ==> s.contains(#[trigger] matches_of(s, q)[i]),
    decreases s.len(),
{
    if s.len() > 0 {
        assert(log_timestamps_nondecreasing(s.drop_last()));
        lemma_matches_order(s.drop_last(), q);
        let m = matches_of(s, q);
        let prev = matches_of(s.drop_last(), q);
        assert forall|i: int| 0 <= i < prev.len() implies s.contains(prev[i]) by {
            assert(s.drop_last().contains(prev[i]));
            let k = choose|k: int| 0 <= k < s.drop_last().len() && s.drop_last()[k] == prev[i];
            assert(s[k] == prev[i]);
        }
        if entry_matches(s.last(), q) {
            assert(s.contains(s.last()));
            assert forall|i: int, j: int| 0 <= i <= j < m.len() implies m[i].timestamp
                <= m[j].timestamp by {
                if j < m.len() - 1 {
                } else if i < prev.len() {
                    let k = choose|k: int|
                        0 <= k < s.drop_last().len() && s.drop_last()[k] == prev[i];
                    assert(s[k].timestamp <= s.last().timestamp);
                }
            }
        }
    }
}

/// The bounded buffer of log entries.
pub struct LogBuffer {
    entries: Vec<LogEntry>,
}

impl View for LogBuffer {
    type V = Seq<LogEntryModel>;

    closed spec fn view(&self) -> Seq<LogEntryModel> {
        self.entries@.map_values(|e: LogEntry| e@)
    }
}

impl LogBuffer {
    /// The buffer never holds more than its capacity ceiling.
    pub open spec fn inv(self) -> bool {
        self@.len() <= LOG_CAPACITY
    }

    /// An empty buffer.
    pub fn new() -> (r: Self)
        ensures
            r@ =~= Seq::<LogEntryModel>::empty(),
            r.inv(),
    {
        LogBuffer { entries: Vec::new() }
    }

    /// How many entries the buffer holds.
    pub fn len(&self) -> (r: usize)
        ensures
            r == self@.len(),
    {
        self.entries.len()
    }

    /// Appends one entry at the tail, then applies the batch-eviction
    /// rule: if the buffer has grown past its capacity ceiling, the
    /// oldest eviction batch is dropped in the same step. Never fails.
    pub fn append(&mut self, e: LogEntry)
        requires
            old(self).inv(),
        ensures
            final(self)@ =~= evict_step(
                old(self)@.push(e@),
                LOG_CAPACITY as int,
                LOG_EVICTION_BATCH as int,
            ),
            final(self).inv(),
    {
        let ghost pushed = old(self)@.push(e@);
        self.entries.push(e);
        proof {
            assert(self@ =~= pushed);
        }
        if self.entries.len() > LOG_CAPACITY {
            let kept = self.entries.split_off(LOG_EVICTION_BATCH);
            self.entries = kept;
            proof {
                assert(self@ =~= pushed.subrange(LOG_EVICTION_BATCH as int, pushed.len() as int));
            }
        }
    }

    /// Scans the buffer in stored order, keeping entries whose message
    /// or source contains `query`, and stops once `limit` matches are
    /// found. A limit of zero yields no results without scanning. The
    /// caller receives copies.
    pub fn search(&self, query: &str, limit: usize) -> (r: Vec<LogEntry>)
        ensures
            r@.map_values(|e: LogEntry| e@) =~= search_spec(self@, query@, limit as int),
    {
        let mut out: Vec<LogEntry> = Vec::new();
        if limit == 0 {
            return out;
        }
        let mut i: usize = 0;
        while i < self.entries.len() && out.len() < limit
            invariant
                i <= self.entries.len(),
                out@.len() <= limit,
                out@.map_values(|e: LogEntry| e@) =~= matches_of(self@.take(i as int), query@),
            decreases self.entries.len() - i,
        {
            proof {
                assert(self@.take(i + 1 as int).drop_last() =~= self@.take(i as int));
                assert(self@.take(i + 1 as int).last() == self@[i as int]);
            }
            if str_contains(self.entries[i].message.as_str(), query) || str_contains(
                self.entries[i].source.as_str(),
                query,
            ) {
                out.push(self.entries[i].clone());
                proof {
                    assert(out@.map_values(|e: LogEntry| e@) =~= matches_of(
                        self@.take(i as int),
                        query@,
                    ).push(self@[i as int]));
                }
            }
            i = i + 1;
        }
        proof {
            let m = matches_of(self@, query@);
            let found = out@.map_values(|e: LogEntry| e@);
            lemma_matches_prefix(self@, query@, i as int);
            if i == self@.len() {
                assert(self@.take(i as int) =~= self@);
            } else {
                assert(found.len() == limit);
                assert(found =~= m.take(limit as int));
            }
        }
        out
    }
}

} // verus!
