//! The scheduler's tick transition.
//!
//! A tick for one source is: perform the upstream fetch (outside this
//! core), then settle its outcome here. On success the cache is written
//! through first and the history appended second; a failed append is
//! reported but does not roll the cache back, so cache and store may
//! diverge transiently. On failure nothing is written and the in-flight
//! marker is cleared, so the next tick retries at the original cadence.
use vstd::prelude::*;
use crate::cache::{Cache, clear_in_flight, publish_model};
use crate::history::{can_append, History, HistoryEntry, HistoryEntryModel, HistoryError};
use crate::record::{Record, RecordModel};
use crate::source::{SourceId, source_count};

verus! {

/// Why a schedule configuration was refused.
#[derive(Clone, Copy, PartialEq, Eq, Structural, Debug)]
pub enum ConfigError {
    /// Not one interval per source.
    WrongCount,
    /// An interval shorter than one second.
    IntervalTooShort,
}

/// Per-source refresh intervals in seconds, one per source in slot order;
/// loaded once at startup and immutable for the process lifetime. Every
/// interval is at least one second.
#[derive(Debug)]
pub struct ScheduleConfig {
    intervals: Vec<u64>,
}

impl View for ScheduleConfig {
    type V = Seq<u64>;

    closed spec fn view(&self) -> Seq<u64> {
        self.intervals@
    }
}

impl ScheduleConfig {
    pub open spec fn wf(self) -> bool {
        self@.len() == source_count() && forall|i: int|
            0 <= i < self@.len() ==> #[trigger] self@[i] >= 1
    }

    /// Accepts exactly one interval per source, each at least one second.
    pub fn new(intervals: Vec<u64>) -> (r: Result<ScheduleConfig, ConfigError>)
        ensures
            match r {
                Ok(c) => c@ == intervals@ && c.wf(),
                Err(ConfigError::WrongCount) => intervals@.len() != source_count(),
                Err(ConfigError::IntervalTooShort) => intervals@.len() == source_count()
                    && exists|i: int| 0 <= i < intervals@.len() && #[trigger] intervals@[i] < 1,
            },
    {
        if intervals.len() != 6 {
            return Err(ConfigError::WrongCount);
        }
        let mut i: usize = 0;
        while i < 6
            invariant
                i <= 6,
                intervals@.len() == 6,
                forall|j: int| 0 <= j < i ==> #[trigger] intervals@[j] >= 1,
            decreases 6 - i,
        {
            if intervals[i] < 1 {
                return Err(ConfigError::IntervalTooShort);
            }
            i += 1;
        }
        Ok(ScheduleConfig { intervals })
    }

    /// The refresh interval of one source, in seconds.
    pub fn interval_of(&self, s: SourceId) -> (r: u64)
        requires
            self.wf(),
        ensures
            r == self@[s.index_spec()],
            r >= 1,
    {
        self.intervals[s.index()]
    }
}

/// What the upstream fetch produced.
pub enum FetchOutcome {
    /// A normalized record.
    Success(Record),
    /// The source was unreachable or its payload unusable.
    Failure,
}

/// The history entry that a successful fetch of `s` persists.
pub open spec fn history_entry_of(s: SourceId, rec: RecordModel) -> HistoryEntryModel {
    HistoryEntryModel { source: s, observed_at: rec.observed_at, payload: rec.payload }
}

/// Settle one tick's fetch outcome for source `s` at time `now`.
///
/// Success publishes the record to the cache and then appends it to the
/// history; an append error is returned but the cache update stands.
/// Failure changes neither the cache entry nor the history.
pub fn apply_tick(
    cache: &mut Cache,
    store: &mut History,
    s: SourceId,
    outcome: FetchOutcome,
    now: u64,
) -> (r: Result<(), HistoryError>)
    requires
        old(cache).wf(),
        old(store).wf(),
        old(cache).in_flight(s),
        match old(cache).entry_of(s) {
            Some(e) => e.cached_at <= now,
            None => true,
        },
    ensures
        final(cache).wf(),
        final(store).wf(),
        match outcome {
            FetchOutcome::Success(rec) => final(cache)@ == publish_model(
                old(cache)@,
                s.index_spec(),
                rec@,
                now,
            ) && (r is Ok <==> can_append(old(store)@, history_entry_of(s, rec@))) && (r is Ok
                ==> final(store)@ == old(store)@.push(history_entry_of(s, rec@))) && (r is Err
                ==> final(store)@ == old(store)@),
            FetchOutcome::Failure => final(cache)@ == clear_in_flight(old(cache)@, s.index_spec())
                && final(store)@ == old(store)@ && r is Ok,
        },
{
    match outcome {
        FetchOutcome::Success(rec) => {
            let entry = HistoryEntry {
                source: s,
                observed_at: rec.observed_at,
                payload: rec.payload.clone(),
            };
            cache.publish(s, rec, now);
            store.append(entry)
        },
        FetchOutcome::Failure => {
            cache.fail_fetch(s);
            Ok(())
        },
    }
}

} // verus!
