//! Append-only store of historical records, queryable by time range.
//!
//! Entries are never updated or deleted; per source the sequence of
//! `observed_at` times is non-decreasing, and an append that would break
//! that order is rejected and leaves the store unchanged.
use vstd::prelude::*;
use crate::source::SourceId;

verus! {

/// Model of one persisted entry.
pub ghost struct HistoryEntryModel {
    pub source: SourceId,
    pub observed_at: u64,
    pub payload: Seq<char>,
}

/// One persisted record.
pub struct HistoryEntry {
    pub source: SourceId,
    pub observed_at: u64,
    pub payload: String,
}

impl View for HistoryEntry {
    type V = HistoryEntryModel;

    open spec fn view(&self) -> HistoryEntryModel {
        HistoryEntryModel {
            source: self.source,
            observed_at: self.observed_at,
            payload: self.payload@,
        }
    }
}

impl HistoryEntry {
    pub fn duplicate(&self) -> (r: HistoryEntry)
        ensures
            r@ == self@,
    {
        HistoryEntry {
            source: self.source,
            observed_at: self.observed_at,
            payload: self.payload.clone(),
        }
    }
}

/// Why an append was refused.
#[derive(Clone, Copy, PartialEq, Eq, Structural, Debug)]
pub enum HistoryError {
    /// The entry is older than one already stored for the same source.
    OutOfOrder,
}

/// The models of a sequence of entries.
pub open spec fn models_of(q: Seq<HistoryEntry>) -> Seq<HistoryEntryModel> {
    q.map_values(|e: HistoryEntry| e@)
}

/// Per source, observation times never decrease along the store.
pub open spec fn rows_ordered(m: Seq<HistoryEntryModel>) -> bool {
    forall|i: int, j: int|
        0 <= i < j < m.len() && (#[trigger] m[i]).source == (#[trigger] m[j]).source
            ==> m[i].observed_at <= m[j].observed_at
}

/// `e` may be appended: it is no older than any stored entry of its source.
pub open spec fn can_append(m: Seq<HistoryEntryModel>, e: HistoryEntryModel) -> bool {
    forall|j: int|
        0 <= j < m.len() && (#[trigger] m[j]).source == e.source
            ==> m[j].observed_at <= e.observed_at
}

/// The entries of source `s` whose observation time lies in `[from, to]`,
/// in store order.
pub open spec fn range_of(m: Seq<HistoryEntryModel>, s: SourceId, from: u64, to: u64)
    -> Seq<HistoryEntryModel>
    decreases m.len(),
{
    if m.len() == 0 {
        Seq::empty()
    } else {
        let rest = range_of(m.drop_last(), s, from, to);
        let e = m.last();
        if e.source == s && from <= e.observed_at && e.observed_at <= to {
            rest.push(e)
        } else {
            rest
        }
    }
}

/// Ascending by observation time.
pub open spec fn sorted_by_time(q: Seq<HistoryEntryModel>) -> bool {
    forall|i: int, j: int|
        0 <= i < j < q.len() ==> (#[trigger] q[i]).observed_at <= (#[trigger] q[j]).observed_at
}

/// Law: a range query is sound and ordered. Every entry it returns belongs
/// to the queried source, its observation time lies within `[from, to]`,
/// and on an ordered store the result is ascending by observation time.
pub proof fn lemma_range_query_law(m: Seq<HistoryEntryModel>, s: SourceId, from: u64, to: u64)
    ensures
        forall|i: int| 0 <= i < range_of(m, s, from, to).len()
            ==> (#[trigger] range_of(m, s, from, to)[i]).source == s
                && from <= range_of(m, s, from, to)[i].observed_at
                && range_of(m, s, from, to)[i].observed_at <= to,
        forall|i: int| 0 <= i < range_of(m, s, from, to).len()
            ==> exists|j: int| 0 <= j < m.len() && #[trigger] range_of(m, s, from, to)[i] == m[j],
        rows_ordered(m) ==> sorted_by_time(range_of(m, s, from, to)),
    decreases m.len(),
{
    if m.len() == 0 {
    } else {
        let prefix = m.drop_last();
        lemma_range_query_law(prefix, s, from, to);
        let r = range_of(m, s, from, to);
        let rp = range_of(prefix, s, from, to);
        assert forall|i: int| 0 <= i < r.len()
            implies exists|j: int| 0 <= j < m.len() && #[trigger] r[i] == m[j] by {
            if i < rp.len() {
                let j = choose|j: int| 0 <= j < prefix.len() && rp[i] == prefix[j];
                assert(prefix[j] == m[j]);
                assert(r[i] == m[j]);
            } else {
                assert(r[i] == m[m.len() - 1]);
            }
        }
        if rows_ordered(m) {
            assert(rows_ordered(prefix));
            assert forall|i: int, j: int| 0 <= i < j < r.len()
                implies (#[trigger] r[i]).observed_at <= (#[trigger] r[j]).observed_at by {
                if j < rp.len() {
                } else if j == rp.len() && r.len() == rp.len() + 1 {
                    let e = m.last();
                    let k = choose|k: int| 0 <= k < prefix.len() && rp[i] == prefix[k];
                    assert(m[k].source == e.source);
                    assert(m[k].observed_at <= e.observed_at);
                }
            }
        }
    }
}

/// Append-only history store.
pub struct History {
    rows: Vec<HistoryEntry>,
}

impl View for History {
    type V = Seq<HistoryEntryModel>;

    closed spec fn view(&self) -> Seq<HistoryEntryModel> {
        models_of(self.rows@)
    }
}

impl History {
    pub open spec fn wf(self) -> bool {
        rows_ordered(self@)
    }

    /// An empty store. Creating the backing storage is idempotent: a fresh
    /// store is empty however often it is initialized.
    pub fn new() -> (r: History)
        ensures
            r@ == Seq::<HistoryEntryModel>::empty(),
            r.wf(),
    {
        let r = History { rows: Vec::new() };
        proof {
            assert(r@ =~= Seq::<HistoryEntryModel>::empty());
        }
        r
    }

    /// Durably record one entry. The append succeeds exactly when the entry
    /// is no older than everything already stored for its source; a refused
    /// append reports the error and leaves the store unchanged.
    pub fn append(&mut self, e: HistoryEntry) -> (r: Result<(), HistoryError>)
        requires
            old(self).wf(),
        ensures
            final(self).wf(),
            r is Ok <==> can_append(old(self)@, e@),
            r is Ok ==> final(self)@ == old(self)@.push(e@),
            r is Err ==> final(self)@ == old(self)@ && r == Err::<(), HistoryError>(
                HistoryError::OutOfOrder,
            ),
    {
        let ghost m = old(self)@;
        let n = self.rows.len();
        let mut i: usize = 0;
        while i < n
            invariant
                i <= n,
                n == self.rows@.len(),
                self@ == m,
                m == old(self)@,
                rows_ordered(m),
                forall|j: int|
                    0 <= j < i && (#[trigger] m[j]).source == e@.source
                        ==> m[j].observed_at <= e@.observed_at,
            decreases n - i,
        {
            let row = &self.rows[i];
            if row.source == e.source && row.observed_at > e.observed_at {
                proof {
                    assert(m[i as int] == row@);
                    assert(m[i as int].source == e@.source && m[i as int].observed_at
                        > e@.observed_at);
                    assert(!can_append(m, e@));
                }
                return Err(HistoryError::OutOfOrder);
            }
            i += 1;
        }
        proof {
            assert(can_append(m, e@));
        }
        self.rows.push(e);
        proof {
            assert(self@ =~= m.push(e@));
            assert forall|a: int, b: int|
                0 <= a < b < self@.len() && (#[trigger] self@[a]).source == (
                #[trigger] self@[b]).source implies self@[a].observed_at
                <= self@[b].observed_at by {
                if b < m.len() {
                } else {
                    assert(self@[b] == e@);
                }
            }
        }
        Ok(())
    }

    /// The entries of source `s` observed within `[from, to]`, ascending by
    /// observation time.
    pub fn query_range(&self, s: SourceId, from: u64, to: u64) -> (r: Vec<HistoryEntry>)
        requires
            self.wf(),
        ensures
            models_of(r@) == range_of(self@, s, from, to),
            sorted_by_time(models_of(r@)),
            forall|i: int| 0 <= i < r@.len()
                ==> (#[trigger] r@[i])@.source == s && from <= r@[i]@.observed_at
                    && r@[i]@.observed_at <= to,
    {
        let ghost m = self@;
        let n = self.rows.len();
        let mut out: Vec<HistoryEntry> = Vec::new();
        let mut i: usize = 0;
        proof {
            assert(m.take(0) =~= Seq::<HistoryEntryModel>::empty());
            assert(models_of(out@) =~= range_of(m.take(0), s, from, to));
        }
        while i < n
            invariant
                i <= n,
                n == self.rows@.len(),
                self@ == m,
                self.wf(),
                models_of(out@) == range_of(m.take(i as int), s, from, to),
            decreases n - i,
        {
            proof {
                assert(m.take(i + 1).drop_last() =~= m.take(i as int));
                assert(m.take(i + 1).last() == m[i as int]);
            }
            let row = &self.rows[i];
            if row.source == s && from <= row.observed_at && row.observed_at <= to {
                out.push(row.duplicate());
                proof {
                    assert(models_of(out@) =~= range_of(m.take(i + 1), s, from, to));
                }
            } else {
                proof {
                    assert(models_of(out@) =~= range_of(m.take(i + 1), s, from, to));
                }
            }
            i += 1;
        }
        proof {
            assert(m.take(n as int) =~= m);
            lemma_range_query_law(m, s, from, to);
            assert forall|k: int| 0 <= k < out@.len()
                implies (#[trigger] out@[k])@.source == s && from <= out@[k]@.observed_at
                    && out@[k]@.observed_at <= to by {
                assert(models_of(out@)[k] == out@[k]@);
            }
        }
        out
    }

    /// How many entries the store holds.
    pub fn len(&self) -> (r: usize)
        ensures
            r == self@.len(),
    {
        self.rows.len()
    }
}

} // verus!
