//! Read-side helpers of the query API: the per-source latest lookup and
//! the one-line status summary.
use vstd::prelude::*;
use crate::cache::{Cache, CacheEntry};
use crate::source::{all_sources, from_name, source_count, source_of_name, SourceId};

verus! {

/// Why a query was refused.
#[derive(Clone, Copy, PartialEq, Eq, Structural, Debug)]
pub enum QueryError {
    /// The request named a source outside the fixed enumeration.
    UnknownSource,
}

/// The latest cached record for a source given by its route name: a client
/// error exactly when the name is unknown, never a fault; a known source
/// with an empty slot yields `None`.
pub fn latest_for_name(cache: &Cache, name: &str) -> (r: Result<Option<CacheEntry>, QueryError>)
    requires
        cache.wf(),
    ensures
        match source_of_name(name@) {
            Some(src) => r is Ok && match r {
                Ok(v) => match v {
                    Some(e) => cache.entry_of(src) == Some(e@),
                    None => cache.entry_of(src) is None,
                },
                Err(_) => false,
            },
            None => r == Err::<Option<CacheEntry>, QueryError>(QueryError::UnknownSource),
        },
{
    match from_name(name) {
        Some(s) => Ok(cache.lookup(s)),
        None => Err(QueryError::UnknownSource),
    }
}

/// One line of the status summary: the source and when it was last cached,
/// if ever.
#[derive(Clone, Copy, Debug)]
pub struct SummaryLine {
    pub source: SourceId,
    pub cached_at: Option<u64>,
}

/// One line per source, in slot order: when each was last cached.
pub fn summary(cache: &Cache) -> (r: Vec<SummaryLine>)
    requires
        cache.wf(),
    ensures
        r@.len() == source_count(),
        forall|i: int| 0 <= i < source_count() ==> (#[trigger] r@[i]).source.index_spec() == i
            && r@[i].cached_at == (match cache@[i].entry {
                Some(e) => Some(e.cached_at),
                None => None::<u64>,
            }),
{
    let srcs = all_sources();
    let mut out: Vec<SummaryLine> = Vec::new();
    let mut i: usize = 0;
    while i < 6
        invariant
            i <= 6,
            cache.wf(),
            srcs@.len() == source_count(),
            forall|j: int| 0 <= j < source_count() ==> (#[trigger] srcs@[j]).index_spec() == j,
            out@.len() == i,
            forall|j: int| 0 <= j < i ==> (#[trigger] out@[j]).source.index_spec() == j
                && out@[j].cached_at == (match cache@[j].entry {
                    Some(e) => Some(e.cached_at),
                    None => None::<u64>,
                }),
        decreases 6 - i,
    {
        let s = srcs[i];
        let cached_at = match cache.lookup(s) {
            Some(e) => Some(e.cached_at),
            None => None,
        };
        out.push(SummaryLine { source: s, cached_at });
        i += 1;
    }
    out
}

} // verus!
