//! Single-flight cache of the most recent record per source.
//!
//! The cache keeps exactly one slot per source: an optional entry (the last
//! published record with the time it was cached) and an in-flight marker.
//! A caller that misses either becomes the sole fetcher for that source or
//! is told to wait for the fetch already in flight, so at most one upstream
//! call per source is ever outstanding.
use vstd::prelude::*;
use crate::record::{Record, RecordModel};
use crate::source::{SourceId, source_count};

verus! {

/// Model of one published cache entry.
pub ghost struct EntryModel {
    pub value: RecordModel,
    pub cached_at: u64,
}

/// Model of one per-source slot.
pub ghost struct SlotModel {
    pub entry: Option<EntryModel>,
    pub in_flight: bool,
}

/// One published entry: the record and the time it was cached.
pub struct CacheEntry {
    pub value: Record,
    pub cached_at: u64,
}

impl View for CacheEntry {
    type V = EntryModel;

    open spec fn view(&self) -> EntryModel {
        EntryModel { value: self.value@, cached_at: self.cached_at }
    }
}

impl CacheEntry {
    pub fn duplicate(&self) -> (r: CacheEntry)
        ensures
            r@ == self@,
    {
        CacheEntry { value: self.value.duplicate(), cached_at: self.cached_at }
    }
}

struct Slot {
    entry: Option<CacheEntry>,
    in_flight: bool,
}

impl View for Slot {
    type V = SlotModel;

    closed spec fn view(&self) -> SlotModel {
        SlotModel {
            entry: match self.entry {
                Some(e) => Some(e@),
                None => None,
            },
            in_flight: self.in_flight,
        }
    }
}

/// What a caller racing on one source is told to do.
pub enum Decision {
    /// A value is cached: use it, no fetch happens.
    Hit(CacheEntry),
    /// The caller became the sole fetcher and must perform the upstream call.
    MustFetch,
    /// Another fetch is already in flight: wait for its result.
    Wait,
}

/// Model of a decision.
pub ghost enum DecisionModel {
    Hit(EntryModel),
    MustFetch,
    Wait,
}

impl View for Decision {
    type V = DecisionModel;

    open spec fn view(&self) -> DecisionModel {
        match self {
            Decision::Hit(e) => DecisionModel::Hit(e@),
            Decision::MustFetch => DecisionModel::MustFetch,
            Decision::Wait => DecisionModel::Wait,
        }
    }
}

/// What `get_or_begin` decides on a given cache state: a hit whenever an
/// entry is present, otherwise wait if a fetch is in flight, otherwise the
/// caller must fetch.
pub open spec fn decide(m: Seq<SlotModel>, i: int) -> DecisionModel {
    match m[i].entry {
        Some(e) => DecisionModel::Hit(e),
        None => if m[i].in_flight {
            DecisionModel::Wait
        } else {
            DecisionModel::MustFetch
        },
    }
}

/// The state after a caller becomes the sole fetcher for slot `i`.
pub open spec fn mark_in_flight(m: Seq<SlotModel>, i: int) -> Seq<SlotModel> {
    m.update(i, SlotModel { entry: m[i].entry, in_flight: true })
}

/// The state after the in-flight fetch for slot `i` publishes `value`.
pub open spec fn publish_model(m: Seq<SlotModel>, i: int, value: RecordModel, now: u64)
    -> Seq<SlotModel> {
    m.update(i, SlotModel { entry: Some(EntryModel { value, cached_at: now }), in_flight: false })
}

/// The state after the in-flight fetch for slot `i` fails: the marker is
/// cleared and the prior entry is kept.
pub open spec fn clear_in_flight(m: Seq<SlotModel>, i: int) -> Seq<SlotModel> {
    m.update(i, SlotModel { entry: m[i].entry, in_flight: false })
}

/// The in-memory cache: one slot per source.
pub struct Cache {
    slots: Vec<Slot>,
}

impl View for Cache {
    type V = Seq<SlotModel>;

    closed spec fn view(&self) -> Seq<SlotModel> {
        self.slots@.map_values(|s: Slot| s@)
    }
}

impl Cache {
    pub open spec fn wf(self) -> bool {
        self@.len() == source_count()
    }

    pub open spec fn slot_of(self, s: SourceId) -> SlotModel {
        self@[s.index_spec()]
    }

    pub open spec fn entry_of(self, s: SourceId) -> Option<EntryModel> {
        self.slot_of(s).entry
    }

    pub open spec fn in_flight(self, s: SourceId) -> bool {
        self.slot_of(s).in_flight
    }

    /// An empty cache: no entries, nothing in flight.
    pub fn new() -> (r: Cache)
        ensures
            r.wf(),
            forall|i: int| 0 <= i < source_count()
                ==> (#[trigger] r@[i]).entry is None && !r@[i].in_flight,
    {
        let mut slots: Vec<Slot> = Vec::new();
        let mut k: usize = 0;
        while k < 6
            invariant
                k <= 6,
                slots@.len() == k,
                forall|i: int| 0 <= i < k
                    ==> (#[trigger] slots@[i])@.entry is None && !slots@[i]@.in_flight,
            decreases 6 - k,
        {
            slots.push(Slot { entry: None, in_flight: false });
            k += 1;
        }
        Cache { slots }
    }

    /// The currently cached entry for `s`, if any.
    pub fn lookup(&self, s: SourceId) -> (r: Option<CacheEntry>)
        requires
            self.wf(),
        ensures
            match r {
                Some(e) => self.entry_of(s) == Some(e@),
                None => self.entry_of(s) is None,
            },
    {
        let i = s.index();
        match &self.slots[i].entry {
            Some(e) => Some(e.duplicate()),
            None => None,
        }
    }

    /// The read side of `getOrFetch`: return the cached entry if one is
    /// present (a hit never fetches and never changes state); otherwise make
    /// this caller the sole fetcher, or tell it to wait for the fetch already
    /// in flight.
    pub fn get_or_begin(&mut self, s: SourceId) -> (r: Decision)
        requires
            old(self).wf(),
        ensures
            final(self).wf(),
            r@ == decide(old(self)@, s.index_spec()),
            old(self).entry_of(s) is Some ==> final(self)@ == old(self)@,
            old(self).entry_of(s) is None && old(self).in_flight(s) ==> final(self)@ == old(self)@,
            old(self).entry_of(s) is None && !old(self).in_flight(s)
                ==> final(self)@ == mark_in_flight(old(self)@, s.index_spec()),
    {
        let i = s.index();
        match &self.slots[i].entry {
            Some(e) => {
                let d = Decision::Hit(e.duplicate());
                assert(self@ =~= old(self)@);
                d
            },
            None => {
                if self.slots[i].in_flight {
                    assert(self@ =~= old(self)@);
                    Decision::Wait
                } else {
                    self.slots.set(i, Slot { entry: None, in_flight: true });
                    assert(self@ =~= mark_in_flight(old(self)@, s.index_spec()));
                    Decision::MustFetch
                }
            },
        }
    }

    /// Whether a fetch for `s` is in flight right now.
    pub fn in_flight_now(&self, s: SourceId) -> (r: bool)
        requires
            self.wf(),
        ensures
            r == self.in_flight(s),
    {
        let i = s.index();
        self.slots[i].in_flight
    }

    /// Begin a forced refresh, as the on-demand refresh endpoints do: the
    /// cached entry is ignored, but the single-flight rule still holds. The
    /// caller becomes the sole fetcher exactly when no fetch is in flight;
    /// otherwise it must wait for the one already running.
    pub fn begin_refresh(&mut self, s: SourceId) -> (acquired: bool)
        requires
            old(self).wf(),
        ensures
            final(self).wf(),
            acquired <==> !old(self).in_flight(s),
            acquired ==> final(self)@ == mark_in_flight(old(self)@, s.index_spec()),
            !acquired ==> final(self)@ == old(self)@,
    {
        let i = s.index();
        if self.slots[i].in_flight {
            assert(self@ =~= old(self)@);
            false
        } else {
            let prior = match &self.slots[i].entry {
                Some(e) => Some(e.duplicate()),
                None => None,
            };
            self.slots.set(i, Slot { entry: prior, in_flight: true });
            assert(self@ =~= mark_in_flight(old(self)@, s.index_spec()));
            true
        }
    }

    /// Publish the result of a successful fetch: the entry is replaced
    /// atomically and the in-flight marker is cleared.
    pub fn publish(&mut self, s: SourceId, value: Record, now: u64)
        requires
            old(self).wf(),
            old(self).in_flight(s),
            // the clock handed in is monotone, so cached_at never decreases
            match old(self).entry_of(s) {
                Some(e) => e.cached_at <= now,
                None => true,
            },
        ensures
            final(self).wf(),
            final(self)@ == publish_model(old(self)@, s.index_spec(), value@, now),
    {
        let i = s.index();
        self.slots.set(i, Slot { entry: Some(CacheEntry { value, cached_at: now }), in_flight: false });
        assert(self@ =~= publish_model(old(self)@, s.index_spec(), value@, now));
    }

    /// Record that the in-flight fetch failed: the marker is cleared so a
    /// later caller may retry, and the prior entry is left untouched.
    pub fn fail_fetch(&mut self, s: SourceId)
        requires
            old(self).wf(),
            old(self).in_flight(s),
        ensures
            final(self).wf(),
            final(self)@ == clear_in_flight(old(self)@, s.index_spec()),
            final(self).entry_of(s) == old(self).entry_of(s),
    {
        let i = s.index();
        let prior = match &self.slots[i].entry {
            Some(e) => Some(e.duplicate()),
            None => None,
        };
        self.slots.set(i, Slot { entry: prior, in_flight: false });
        assert(self@ =~= clear_in_flight(old(self)@, s.index_spec()));
    }
}

/// Law: single flight. A caller is told to fetch only when no entry is
/// cached and nothing is in flight; once one caller has become the fetcher,
/// every further caller on that source is told to wait or served the cached
/// entry, never told to fetch — so concurrent cold-cache callers trigger
/// exactly one upstream fetch.
pub proof fn lemma_single_flight(m: Seq<SlotModel>, i: int)
    requires
        0 <= i < m.len(),
    ensures
        decide(m, i) is MustFetch ==> !m[i].in_flight && m[i].entry is None,
        m[i].in_flight ==> !(decide(m, i) is MustFetch),
        !(decide(mark_in_flight(m, i), i) is MustFetch),
{
}

/// The cache state after one caller's `get_or_begin` on slot `i`: a miss
/// with nothing in flight marks the slot; a hit or a wait changes nothing.
pub open spec fn step_of(m: Seq<SlotModel>, i: int) -> Seq<SlotModel> {
    if m[i].entry is None && !m[i].in_flight {
        mark_in_flight(m, i)
    } else {
        m
    }
}

/// How many of `n` callers arriving one after another at slot `i` are told
/// to fetch.
pub open spec fn fetches_among(m: Seq<SlotModel>, i: int, n: nat) -> int
    decreases n,
{
    if n == 0 {
        0
    } else {
        (if decide(m, i) is MustFetch {
            1int
        } else {
            0int
        }) + fetches_among(step_of(m, i), i, (n - 1) as nat)
    }
}

/// While a fetch is in flight and no entry is published, arriving callers
/// are all told to wait: none fetches.
pub proof fn lemma_no_fetch_while_in_flight(m: Seq<SlotModel>, i: int, n: nat)
    requires
        0 <= i < m.len(),
        m[i].in_flight,
    ensures
        fetches_among(m, i, n) == 0,
    decreases n,
{
    if n > 0 {
        lemma_no_fetch_while_in_flight(step_of(m, i), i, (n - 1) as nat);
    }
}

/// Once an entry is cached, arriving callers are all served it: none
/// fetches.
pub proof fn lemma_no_fetch_on_hit(m: Seq<SlotModel>, i: int, n: nat)
    requires
        0 <= i < m.len(),
        m[i].entry is Some,
    ensures
        fetches_among(m, i, n) == 0,
    decreases n,
{
    if n > 0 {
        lemma_no_fetch_on_hit(step_of(m, i), i, (n - 1) as nat);
    }
}

/// Law: a cold-cache race permits exactly one fetch. However many callers
/// arrive at a slot with no entry and nothing in flight, exactly one of
/// them is told to perform the upstream call.
pub proof fn lemma_cold_race_single_fetch(m: Seq<SlotModel>, i: int, n: nat)
    requires
        0 <= i < m.len(),
        m[i].entry is None,
        !m[i].in_flight,
        n >= 1,
    ensures
        fetches_among(m, i, n) == 1,
{
    assert(decide(m, i) is MustFetch);
    lemma_no_fetch_while_in_flight(mark_in_flight(m, i), i, (n - 1) as nat);
}

/// Law: every caller observes the published result. After the sole fetcher
/// publishes `value`, the decision for any further caller on that source is
/// a hit carrying exactly `value`, so all callers racing on a cold key end
/// with the same record.
pub proof fn lemma_shared_result(m: Seq<SlotModel>, i: int, value: RecordModel, now: u64)
    requires
        0 <= i < m.len(),
    ensures
        decide(publish_model(m, i, value, now), i)
            == DecisionModel::Hit(EntryModel { value, cached_at: now }),
{
}

/// Law: a cache hit never invokes the fetch function. Whenever an entry is
/// cached, the decision is a hit carrying it, and a hit changes no state.
pub proof fn lemma_hit_never_fetches(m: Seq<SlotModel>, i: int)
    requires
        0 <= i < m.len(),
    ensures
        forall|e: EntryModel| m[i].entry == Some(e) ==> decide(m, i) == DecisionModel::Hit(e),
        m[i].entry is Some ==> !(decide(m, i) is MustFetch) && !(decide(m, i) is Wait),
{
}

/// Law: a failed fetch leaves the prior entry unchanged; it only clears the
/// in-flight marker so a later caller may retry.
pub proof fn lemma_failed_fetch_preserves_entry(m: Seq<SlotModel>, i: int)
    requires
        0 <= i < m.len(),
    ensures
        clear_in_flight(m, i)[i].entry == m[i].entry,
        !clear_in_flight(m, i)[i].in_flight,
        forall|j: int| 0 <= j < m.len() && j != i ==> clear_in_flight(m, i)[j] == m[j],
{
}

} // verus!
