//! Position history and the derived movement trend.
//!
//! Position samples carry integer coordinates (microdegrees) and an
//! altitude; the trend over a time range pairs each sample with the
//! instantaneous speed derived from the great-circle distance to its
//! predecessor divided by the elapsed time.
use vstd::prelude::*;
use crate::geo::haversine_m;
use crate::geo::haversine_m_spec;

verus! {

/// One position sample: time, coordinates in microdegrees, altitude in
/// millimetres.
#[derive(Clone, Copy, PartialEq, Eq, Structural, Debug)]
pub struct PosPoint {
    pub observed_at: u64,
    pub lat_micro: i64,
    pub lon_micro: i64,
    pub alt_mm: i64,
}

/// Coordinates lie on the globe.
pub open spec fn coords_valid(p: PosPoint) -> bool {
    -90_000_000 <= p.lat_micro <= 90_000_000 && -180_000_000 <= p.lon_micro <= 180_000_000
}

/// Why a position sample was refused.
#[derive(Clone, Copy, PartialEq, Eq, Structural, Debug)]
pub enum PosLogError {
    /// The sample is older than the newest one already stored.
    OutOfOrder,
    /// The coordinates lie outside the globe.
    InvalidCoordinates,
}

/// Ascending by observation time.
pub open spec fn points_ordered(m: Seq<PosPoint>) -> bool {
    forall|i: int, j: int|
        0 <= i < j < m.len() ==> (#[trigger] m[i]).observed_at <= (#[trigger] m[j]).observed_at
}

/// The samples observed within `[from, to]`, in store order.
pub open spec fn pos_range_of(m: Seq<PosPoint>, from: u64, to: u64) -> Seq<PosPoint>
    decreases m.len(),
{
    if m.len() == 0 {
        Seq::empty()
    } else {
        let rest = pos_range_of(m.drop_last(), from, to);
        let p = m.last();
        if from <= p.observed_at && p.observed_at <= to {
            rest.push(p)
        } else {
            rest
        }
    }
}

/// Law: a position range query is sound and ordered, and keeps only
/// samples of the store, so their coordinates stay valid.
pub proof fn lemma_pos_range_law(m: Seq<PosPoint>, from: u64, to: u64)
    ensures
        forall|i: int| 0 <= i < pos_range_of(m, from, to).len()
            ==> from <= (#[trigger] pos_range_of(m, from, to)[i]).observed_at
                && pos_range_of(m, from, to)[i].observed_at <= to,
        forall|i: int| 0 <= i < pos_range_of(m, from, to).len()
            ==> exists|j: int| 0 <= j < m.len() && #[trigger] pos_range_of(m, from, to)[i] == m[j],
        points_ordered(m) ==> points_ordered(pos_range_of(m, from, to)),
        (forall|j: int| 0 <= j < m.len() ==> coords_valid(#[trigger] m[j])) ==> forall|i: int|
            0 <= i < pos_range_of(m, from, to).len() ==> coords_valid(
                #[trigger] pos_range_of(m, from, to)[i],
            ),
    decreases m.len(),
{
    if m.len() == 0 {
    } else {
        let prefix = m.drop_last();
        lemma_pos_range_law(prefix, from, to);
        let r = pos_range_of(m, from, to);
        let rp = pos_range_of(prefix, from, to);
        assert forall|i: int| 0 <= i < r.len()
            implies exists|j: int| 0 <= j < m.len() && #[trigger] r[i] == m[j] by {
            if i < rp.len() {
                let j = choose|j: int| 0 <= j < prefix.len() && rp[i] == prefix[j];
                assert(prefix[j] == m[j]);
                assert(r[i] == m[j]);
            } else {
                assert(r[i] == m[m.len() - 1]);
            }
        }
        if points_ordered(m) {
            assert(points_ordered(prefix));
            assert forall|i: int, j: int| 0 <= i < j < r.len()
                implies (#[trigger] r[i]).observed_at <= (#[trigger] r[j]).observed_at by {
                if j < rp.len() {
                } else if j == rp.len() && r.len() == rp.len() + 1 {
                    let k = choose|k: int| 0 <= k < prefix.len() && rp[i] == prefix[k];
                    assert(m[k].observed_at <= m.last().observed_at);
                }
            }
        }
        if forall|j: int| 0 <= j < m.len() ==> coords_valid(#[trigger] m[j]) {
            assert forall|i: int| 0 <= i < r.len() implies coords_valid(#[trigger] r[i]) by {
                let j = choose|j: int| 0 <= j < m.len() && r[i] == m[j];
                assert(coords_valid(m[j]));
            }
        }
    }
}

/// The speed, in metres per hour, covered from sample `a` to the later
/// sample `b`; none when no time elapsed.
pub open spec fn speed_mph_spec(a: PosPoint, b: PosPoint) -> Option<u64> {
    if b.observed_at <= a.observed_at {
        None
    } else {
        let d = haversine_m_spec(
            a.lat_micro as int,
            a.lon_micro as int,
            b.lat_micro as int,
            b.lon_micro as int,
        );
        Some((d * 3600 / (b.observed_at - a.observed_at)) as u64)
    }
}

/// One trend point: a position sample with the speed from its predecessor.
#[derive(Clone, Copy, Debug)]
pub struct TrendPoint {
    pub observed_at: u64,
    pub lat_micro: i64,
    pub lon_micro: i64,
    pub alt_mm: i64,
    pub speed_m_per_hr: Option<u64>,
}

/// The trend point at index `i` of a sample sequence: the sample itself,
/// with no speed at the first index.
pub open spec fn trend_point_spec(m: Seq<PosPoint>, i: int) -> TrendPoint {
    TrendPoint {
        observed_at: m[i].observed_at,
        lat_micro: m[i].lat_micro,
        lon_micro: m[i].lon_micro,
        alt_mm: m[i].alt_mm,
        speed_m_per_hr: if i == 0 {
            None
        } else {
            speed_mph_spec(m[i - 1], m[i])
        },
    }
}

/// The speed, in metres per hour, covered from sample `a` to sample `b`.
pub fn speed_mph(a: &PosPoint, b: &PosPoint) -> (r: Option<u64>)
    requires
        coords_valid(*a),
        coords_valid(*b),
    ensures
        r == speed_mph_spec(*a, *b),
{
    if b.observed_at <= a.observed_at {
        None
    } else {
        let d = haversine_m(a.lat_micro, a.lon_micro, b.lat_micro, b.lon_micro);
        let dt: u128 = (b.observed_at - a.observed_at) as u128;
        let q: u128 = (d as u128) * 3600 / dt;
        Some(q as u64)
    }
}

/// Pair each sample with the speed derived from its predecessor.
pub fn trend_points(points: &Vec<PosPoint>) -> (r: Vec<TrendPoint>)
    requires
        forall|j: int| 0 <= j < points@.len() ==> coords_valid(#[trigger] points@[j]),
    ensures
        r@.len() == points@.len(),
        forall|i: int| 0 <= i < r@.len() ==> #[trigger] r@[i] == trend_point_spec(points@, i),
{
    let n = points.len();
    let mut out: Vec<TrendPoint> = Vec::new();
    let mut i: usize = 0;
    while i < n
        invariant
            i <= n,
            n == points@.len(),
            out@.len() == i,
            forall|j: int| 0 <= j < points@.len() ==> coords_valid(#[trigger] points@[j]),
            forall|j: int| 0 <= j < i ==> #[trigger] out@[j] == trend_point_spec(points@, j),
        decreases n - i,
    {
        let p = points[i];
        let speed: Option<u64> = if i == 0 {
            None
        } else {
            let prev = points[i - 1];
            speed_mph(&prev, &p)
        };
        out.push(
            TrendPoint {
                observed_at: p.observed_at,
                lat_micro: p.lat_micro,
                lon_micro: p.lon_micro,
                alt_mm: p.alt_mm,
                speed_m_per_hr: speed,
            },
        );
        i += 1;
    }
    out
}

/// Append-only log of position samples.
pub struct PosLog {
    points: Vec<PosPoint>,
}

impl View for PosLog {
    type V = Seq<PosPoint>;

    closed spec fn view(&self) -> Seq<PosPoint> {
        self.points@
    }
}

impl PosLog {
    pub open spec fn wf(self) -> bool {
        points_ordered(self@) && forall|j: int|
            0 <= j < self@.len() ==> coords_valid(#[trigger] self@[j])
    }

    pub fn new() -> (r: PosLog)
        ensures
            r@ == Seq::<PosPoint>::empty(),
            r.wf(),
    {
        PosLog { points: Vec::new() }
    }

    /// Record one sample. It must carry valid coordinates and be no older
    /// than the newest sample stored; a refused sample reports why and
    /// leaves the log unchanged.
    pub fn append(&mut self, p: PosPoint) -> (r: Result<(), PosLogError>)
        requires
            old(self).wf(),
        ensures
            final(self).wf(),
            !coords_valid(p) ==> r == Err::<(), PosLogError>(PosLogError::InvalidCoordinates)
                && final(self)@ == old(self)@,
            coords_valid(p) && old(self)@.len() > 0 && old(self)@.last().observed_at
                > p.observed_at ==> r == Err::<(), PosLogError>(PosLogError::OutOfOrder)
                && final(self)@ == old(self)@,
            coords_valid(p) && (old(self)@.len() == 0 || old(self)@.last().observed_at
                <= p.observed_at) ==> r is Ok && final(self)@ == old(self)@.push(p),
    {
        if p.lat_micro < -90_000_000 || p.lat_micro > 90_000_000 || p.lon_micro < -180_000_000
            || p.lon_micro > 180_000_000 {
            return Err(PosLogError::InvalidCoordinates);
        }
        let n = self.points.len();
        if n > 0 && self.points[n - 1].observed_at > p.observed_at {
            return Err(PosLogError::OutOfOrder);
        }
        self.points.push(p);
        proof {
            assert forall|i: int, j: int| 0 <= i < j < self@.len()
                implies (#[trigger] self@[i]).observed_at <= (#[trigger] self@[j]).observed_at by {
                if j < self@.len() - 1 {
                } else {
                    assert(self@[j] == p);
                    if i < self@.len() - 1 && old(self)@.len() > 0 {
                        assert(old(self)@[i].observed_at <= old(self)@.last().observed_at);
                    }
                }
            }
        }
        Ok(())
    }

    /// The samples observed within `[from, to]`, ascending by time.
    pub fn query_range(&self, from: u64, to: u64) -> (r: Vec<PosPoint>)
        requires
            self.wf(),
        ensures
            r@ == pos_range_of(self@, from, to),
    {
        let ghost m = self@;
        let n = self.points.len();
        let mut out: Vec<PosPoint> = Vec::new();
        let mut i: usize = 0;
        proof {
            assert(m.take(0) =~= Seq::<PosPoint>::empty());
        }
        while i < n
            invariant
                i <= n,
                n == self@.len(),
                m == self@,
                out@ == pos_range_of(m.take(i as int), from, to),
            decreases n - i,
        {
            proof {
                assert(m.take(i + 1).drop_last() =~= m.take(i as int));
                assert(m.take(i + 1).last() == m[i as int]);
            }
            let p = self.points[i];
            if from <= p.observed_at && p.observed_at <= to {
                out.push(p);
            }
            i += 1;
        }
        proof {
            assert(m.take(n as int) =~= m);
        }
        out
    }

    /// The trend over `[from, to]`: the samples of the window ascending by
    /// time, each paired with the speed from its predecessor in the window.
    pub fn trend_range(&self, from: u64, to: u64) -> (r: Vec<TrendPoint>)
        requires
            self.wf(),
        ensures
            r@.len() == pos_range_of(self@, from, to).len(),
            forall|i: int| 0 <= i < r@.len() ==> #[trigger] r@[i] == trend_point_spec(
                pos_range_of(self@, from, to),
                i,
            ),
    {
        let rows = self.query_range(from, to);
        proof {
            lemma_pos_range_law(self@, from, to);
        }
        trend_points(&rows)
    }

    pub fn len(&self) -> (r: usize)
        ensures
            r == self@.len(),
    {
        self.points.len()
    }
}

} // verus!
