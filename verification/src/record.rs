//! The canonical normalized record: one opaque payload observed at one
//! point in time. Never mutated after creation.
use vstd::prelude::*;

verus! {

/// Mathematical model of a record.
pub ghost struct RecordModel {
    pub observed_at: u64,
    pub payload: Seq<char>,
}

/// One normalized observation from a source: the payload is carried opaquely
/// (its shape belongs to the upstream API, not to this core).
pub struct Record {
    pub observed_at: u64,
    pub payload: String,
}

impl View for Record {
    type V = RecordModel;

    open spec fn view(&self) -> RecordModel {
        RecordModel { observed_at: self.observed_at, payload: self.payload@ }
    }
}

impl Record {
    pub fn new(observed_at: u64, payload: String) -> (r: Record)
        ensures
            r@ == (RecordModel { observed_at, payload: payload@ }),
    {
        Record { observed_at, payload }
    }

    /// A value-equal copy of this record.
    pub fn duplicate(&self) -> (r: Record)
        ensures
            r@ == self@,
    {
        Record { observed_at: self.observed_at, payload: self.payload.clone() }
    }
}

} // verus!
