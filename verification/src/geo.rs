//! Great-circle distance on integer coordinates.
//!
//! Latitude and longitude are carried as microdegrees, angles and ratios as
//! fixed-point numbers scaled by 1_000_000_000 (one billion units to 1.0).
//! Distance follows the haversine form: the square of the half-chord is
//! taken from the sine of the half-differences and the cosines of the
//! latitudes, and the central angle is recovered through a square root and
//! an arcsine, all in integer arithmetic. Every step is mirrored by a spec
//! function, so the executable distance equals its mathematical model
//! exactly, and symmetry and zero-distance laws are proved of that model.
use vstd::prelude::*;

verus! {

/// Sine of an angle given in microdegrees, on [0, 90_000_000], as a
/// fixed-point ratio in [0, 1_000_000_000]: the odd Taylor terms through
/// the ninth power, truncated integer division throughout, clamped to one.
pub open spec fn sin_q_spec(micro: int) -> int {
    let x = micro * 17_453_292_520 / 1_000_000_000;
    let x2 = x * x / 1_000_000_000;
    let x3 = x2 * x / 1_000_000_000;
    let x5 = x3 * x2 / 1_000_000_000;
    let x7 = x5 * x2 / 1_000_000_000;
    let x9 = x7 * x2 / 1_000_000_000;
    let pos = x + x5 / 120 + x9 / 362_880;
    let neg = x3 / 6 + x7 / 5_040;
    let d = if pos >= neg { pos - neg } else { 0 };
    if d > 1_000_000_000 {
        1_000_000_000
    } else {
        d
    }
}

pub fn sin_q(micro: u64) -> (r: u64)
    requires
        micro <= 90_000_000,
    ensures
        r == sin_q_spec(micro as int),
        r <= 1_000_000_000,
{
    let m: u128 = micro as u128;
    let x: u128 = m * 17_453_292_520 / 1_000_000_000;
    assert(x <= 1_600_000_000);
    assert(x * x <= 1_600_000_000u128 * 1_600_000_000u128) by (nonlinear_arith)
        requires
            x <= 1_600_000_000u128,
    ;
    let x2: u128 = x * x / 1_000_000_000;
    assert(x2 <= 2_560_000_000);
    assert(x2 * x <= 2_560_000_000u128 * 1_600_000_000u128) by (nonlinear_arith)
        requires
            x <= 1_600_000_000u128,
            x2 <= 2_560_000_000u128,
    ;
    let x3: u128 = x2 * x / 1_000_000_000;
    assert(x3 <= 4_100_000_000);
    assert(x3 * x2 <= 4_100_000_000u128 * 2_560_000_000u128) by (nonlinear_arith)
        requires
            x3 <= 4_100_000_000u128,
            x2 <= 2_560_000_000u128,
    ;
    let x5: u128 = x3 * x2 / 1_000_000_000;
    assert(x5 <= 10_500_000_000);
    assert(x5 * x2 <= 10_500_000_000u128 * 2_560_000_000u128) by (nonlinear_arith)
        requires
            x5 <= 10_500_000_000u128,
            x2 <= 2_560_000_000u128,
    ;
    let x7: u128 = x5 * x2 / 1_000_000_000;
    assert(x7 <= 27_000_000_000);
    assert(x7 * x2 <= 27_000_000_000u128 * 2_560_000_000u128) by (nonlinear_arith)
        requires
            x7 <= 27_000_000_000u128,
            x2 <= 2_560_000_000u128,
    ;
    let x9: u128 = x7 * x2 / 1_000_000_000;
    let pos: u128 = x + x5 / 120 + x9 / 362_880;
    let neg: u128 = x3 / 6 + x7 / 5_040;
    let d: u128 = if pos >= neg {
        pos - neg
    } else {
        0
    };
    if d > 1_000_000_000 {
        1_000_000_000
    } else {
        d as u64
    }
}

/// The integer square root: the unique `r` with `r * r <= n < (r+1) * (r+1)`.
pub open spec fn isqrt_spec(n: int) -> int {
    choose|r: int| 0 <= r && #[trigger] (r * r) <= n && n < (r + 1) * (r + 1)
}

/// Pins `isqrt_spec` down on every admissible argument.
pub proof fn lemma_isqrt_unique(n: int, r: int)
    requires
        0 <= r,
        r * r <= n,
        n < (r + 1) * (r + 1),
    ensures
        isqrt_spec(n) == r,
{
    assert(0 <= r && r * r <= n && n < (r + 1) * (r + 1));
    let c = choose|c: int| 0 <= c && #[trigger] (c * c) <= n && n < (c + 1) * (c + 1);
    assert(0 <= c && c * c <= n && n < (c + 1) * (c + 1));
    assert(c == r) by (nonlinear_arith)
        requires
            0 <= c,
            0 <= r,
            c * c <= n,
            n < (c + 1) * (c + 1),
            r * r <= n,
            n < (r + 1) * (r + 1),
    ;
}

pub fn isqrt_u(n: u128) -> (r: u64)
    requires
        n <= 1_000_000_000_000_000_000u128,
    ensures
        r == isqrt_spec(n as int),
        (r as int) * (r as int) <= n as int,
        (n as int) < ((r as int) + 1) * ((r as int) + 1),
        r <= 1_000_000_000,
{
    let mut lo: u128 = 0;
    let mut hi: u128 = 1_000_000_001;
    assert(1_000_000_001u128 * 1_000_000_001u128 > n);
    while lo + 1 < hi
        invariant
            lo < hi,
            hi <= 1_000_000_001,
            lo * lo <= n,
            n < hi * hi,
        decreases hi - lo,
    {
        let mid: u128 = lo + (hi - lo) / 2;
        assert(mid * mid <= 1_000_000_001u128 * 1_000_000_001u128) by (nonlinear_arith)
            requires
                mid <= 1_000_000_001u128,
        ;
        if mid * mid <= n {
            lo = mid;
        } else {
            hi = mid;
        }
    }
    let r = lo as u64;
    proof {
        assert(hi == lo + 1);
        lemma_isqrt_unique(n as int, lo as int);
    }
    r
}

/// Arcsine by series, for ratios up to about 0.71: the odd terms through
/// the eleventh power with their closed-form coefficients.
pub open spec fn asin_series_spec(z: int) -> int {
    let z2 = z * z / 1_000_000_000;
    let z3 = z2 * z / 1_000_000_000;
    let z5 = z3 * z2 / 1_000_000_000;
    let z7 = z5 * z2 / 1_000_000_000;
    let z9 = z7 * z2 / 1_000_000_000;
    let z11 = z9 * z2 / 1_000_000_000;
    z + z3 / 6 + 3 * z5 / 40 + 15 * z7 / 336 + 105 * z9 / 3_456 + 945 * z11 / 42_240
}

pub fn asin_series(z: u64) -> (r: u64)
    requires
        z <= 710_000_000,
    ensures
        r == asin_series_spec(z as int),
        r <= 800_000_000,
{
    let zz: u128 = z as u128;
    assert(zz * zz <= 710_000_000u128 * 710_000_000u128) by (nonlinear_arith)
        requires
            zz <= 710_000_000u128,
    ;
    let z2: u128 = zz * zz / 1_000_000_000;
    assert(z2 <= 510_000_000);
    assert(z2 * zz <= 510_000_000u128 * 710_000_000u128) by (nonlinear_arith)
        requires
            zz <= 710_000_000u128,
            z2 <= 510_000_000u128,
    ;
    let z3: u128 = z2 * zz / 1_000_000_000;
    assert(z3 <= 370_000_000);
    assert(z3 * z2 <= 370_000_000u128 * 510_000_000u128) by (nonlinear_arith)
        requires
            z3 <= 370_000_000u128,
            z2 <= 510_000_000u128,
    ;
    let z5: u128 = z3 * z2 / 1_000_000_000;
    assert(z5 <= 190_000_000);
    assert(z5 * z2 <= 190_000_000u128 * 510_000_000u128) by (nonlinear_arith)
        requires
            z5 <= 190_000_000u128,
            z2 <= 510_000_000u128,
    ;
    let z7: u128 = z5 * z2 / 1_000_000_000;
    assert(z7 <= 97_000_000);
    assert(z7 * z2 <= 97_000_000u128 * 510_000_000u128) by (nonlinear_arith)
        requires
            z7 <= 97_000_000u128,
            z2 <= 510_000_000u128,
    ;
    let z9: u128 = z7 * z2 / 1_000_000_000;
    assert(z9 <= 50_000_000);
    assert(z9 * z2 <= 50_000_000u128 * 510_000_000u128) by (nonlinear_arith)
        requires
            z9 <= 50_000_000u128,
            z2 <= 510_000_000u128,
    ;
    let z11: u128 = z9 * z2 / 1_000_000_000;
    let total: u128 = zz + z3 / 6 + 3 * z5 / 40 + 15 * z7 / 336 + 105 * z9 / 3_456 + 945 * z11
        / 42_240;
    total as u64
}

/// Arcsine on the full range [0, 1]: the series directly below 0.707, and
/// the complementary identity through the cosine above it.
pub open spec fn asin_q_spec(z: int) -> int {
    if z <= 707_106_781 {
        asin_series_spec(z)
    } else {
        let w = isqrt_spec(1_000_000_000_000_000_000 - z * z);
        let s = asin_series_spec(w);
        if s <= 1_570_796_327 {
            1_570_796_327 - s
        } else {
            0
        }
    }
}

pub fn asin_q(z: u64) -> (r: u64)
    requires
        z <= 1_000_000_000,
    ensures
        r == asin_q_spec(z as int),
        r <= 1_600_000_000,
{
    if z <= 707_106_781 {
        asin_series(z)
    } else {
        let zz: u128 = z as u128;
        assert(zz * zz <= 1_000_000_000u128 * 1_000_000_000u128) by (nonlinear_arith)
            requires
                zz <= 1_000_000_000u128,
        ;
        assert(zz * zz >= 707_106_782u128 * 707_106_782u128) by (nonlinear_arith)
            requires
                zz >= 707_106_782u128,
        ;
        let diff: u128 = 1_000_000_000_000_000_000u128 - zz * zz;
        let w = isqrt_u(diff);
        proof {
            assert(diff < 710_000_000u128 * 710_000_000u128);
            assert((w as int) * (w as int) <= diff as int);
            assert(w < 710_000_000) by (nonlinear_arith)
                requires
                    (w as int) * (w as int) <= diff as int,
                    diff < 710_000_000u128 * 710_000_000u128,
            ;
        }
        let s = asin_series(w);
        if s <= 1_570_796_327 {
            1_570_796_327 - s
        } else {
            0
        }
    }
}

/// The distance between two values.
pub open spec fn abs_diff(a: int, b: int) -> int {
    if a >= b {
        a - b
    } else {
        b - a
    }
}

/// Complement of the absolute latitude, in microdegrees: the angle whose
/// sine is the cosine of the latitude.
pub open spec fn colat_of(lat: int) -> int {
    90_000_000 - (if lat >= 0 {
        lat
    } else {
        -lat
    })
}

/// The haversine sum: square of the sine of the half-difference in
/// latitude, plus the product of the latitude cosines with the square of
/// the sine of the half-difference in longitude, clamped to one.
pub open spec fn hav_sum_spec(lat1: int, lon1: int, lat2: int, lon2: int) -> int {
    let s1 = sin_q_spec(abs_diff(lat1, lat2) / 2);
    let c1 = sin_q_spec(colat_of(lat1));
    let c2 = sin_q_spec(colat_of(lat2));
    let dlh = abs_diff(lon1, lon2) / 2;
    let s2 = sin_q_spec(
        if dlh > 90_000_000 {
            180_000_000 - dlh
        } else {
            dlh
        },
    );
    let t1 = s1 * s1 / 1_000_000_000;
    let t2 = (c1 * c2 / 1_000_000_000) * (s2 * s2 / 1_000_000_000) / 1_000_000_000;
    let h = t1 + t2;
    if h > 1_000_000_000 {
        1_000_000_000
    } else {
        h
    }
}

/// Great-circle distance in metres between two points given in
/// microdegrees, on a sphere of Earth's mean radius.
pub open spec fn haversine_m_spec(lat1: int, lon1: int, lat2: int, lon2: int) -> int {
    let h = hav_sum_spec(lat1, lon1, lat2, lon2);
    let z = isqrt_spec(h * 1_000_000_000);
    let a = asin_q_spec(z);
    6_371_000 * (2 * a) / 1_000_000_000
}

pub fn haversine_m(lat1: i64, lon1: i64, lat2: i64, lon2: i64) -> (r: u64)
    requires
        -90_000_000 <= lat1 <= 90_000_000,
        -90_000_000 <= lat2 <= 90_000_000,
        -180_000_000 <= lon1 <= 180_000_000,
        -180_000_000 <= lon2 <= 180_000_000,
    ensures
        r == haversine_m_spec(lat1 as int, lon1 as int, lat2 as int, lon2 as int),
        r <= 21_000_000,
{
    let dphi_half: u64 = (if lat1 >= lat2 {
        lat1 - lat2
    } else {
        lat2 - lat1
    }) as u64 / 2;
    let colat1: u64 = (90_000_000 - (if lat1 >= 0 {
        lat1
    } else {
        -lat1
    })) as u64;
    let colat2: u64 = (90_000_000 - (if lat2 >= 0 {
        lat2
    } else {
        -lat2
    })) as u64;
    let dlh: u64 = (if lon1 >= lon2 {
        lon1 - lon2
    } else {
        lon2 - lon1
    }) as u64 / 2;
    let s2arg: u64 = if dlh > 90_000_000 {
        180_000_000 - dlh
    } else {
        dlh
    };
    let s1 = sin_q(dphi_half);
    let c1 = sin_q(colat1);
    let c2 = sin_q(colat2);
    let s2 = sin_q(s2arg);
    let s1w: u128 = s1 as u128;
    let c1w: u128 = c1 as u128;
    let c2w: u128 = c2 as u128;
    let s2w: u128 = s2 as u128;
    assert(s1w * s1w <= 1_000_000_000u128 * 1_000_000_000u128) by (nonlinear_arith)
        requires
            s1w <= 1_000_000_000u128,
    ;
    assert(c1w * c2w <= 1_000_000_000u128 * 1_000_000_000u128) by (nonlinear_arith)
        requires
            c1w <= 1_000_000_000u128,
            c2w <= 1_000_000_000u128,
    ;
    assert(s2w * s2w <= 1_000_000_000u128 * 1_000_000_000u128) by (nonlinear_arith)
        requires
            s2w <= 1_000_000_000u128,
    ;
    let t1: u128 = s1w * s1w / 1_000_000_000;
    let cc: u128 = c1w * c2w / 1_000_000_000;
    let ss: u128 = s2w * s2w / 1_000_000_000;
    assert(cc * ss <= 1_000_000_000u128 * 1_000_000_000u128) by (nonlinear_arith)
        requires
            cc <= 1_000_000_000u128,
            ss <= 1_000_000_000u128,
    ;
    let t2: u128 = cc * ss / 1_000_000_000;
    let hraw: u128 = t1 + t2;
    let h: u128 = if hraw > 1_000_000_000 {
        1_000_000_000
    } else {
        hraw
    };
    let z = isqrt_u(h * 1_000_000_000);
    let a = asin_q(z);
    let d: u128 = 6_371_000u128 * (2 * a as u128) / 1_000_000_000;
    d as u64
}

/// Law: the distance from any point to itself is zero.
pub proof fn lemma_haversine_zero(lat: int, lon: int)
    requires
        -90_000_000 <= lat <= 90_000_000,
        -180_000_000 <= lon <= 180_000_000,
    ensures
        haversine_m_spec(lat, lon, lat, lon) == 0,
{
    assert(abs_diff(lat, lat) == 0);
    assert(abs_diff(lon, lon) == 0);
    assert(sin_q_spec(0) == 0);
    let c1 = sin_q_spec(colat_of(lat));
    let cc = c1 * c1 / 1_000_000_000;
    assert(cc * (0 * 0 / 1_000_000_000) / 1_000_000_000 == 0) by (nonlinear_arith);
    assert(hav_sum_spec(lat, lon, lat, lon) == 0);
    lemma_isqrt_unique(0, 0);
    assert(asin_series_spec(0) == 0);
    assert(asin_q_spec(0) == 0);
}

/// Law: the distance is symmetric in its two points.
pub proof fn lemma_haversine_symmetric(lat1: int, lon1: int, lat2: int, lon2: int)
    ensures
        haversine_m_spec(lat1, lon1, lat2, lon2) == haversine_m_spec(lat2, lon2, lat1, lon1),
{
    assert(abs_diff(lat1, lat2) == abs_diff(lat2, lat1));
    assert(abs_diff(lon1, lon2) == abs_diff(lon2, lon1));
    let c1 = sin_q_spec(colat_of(lat1));
    let c2 = sin_q_spec(colat_of(lat2));
    assert(c1 * c2 == c2 * c1);
    assert(hav_sum_spec(lat1, lon1, lat2, lon2) == hav_sum_spec(lat2, lon2, lat1, lon1));
}

} // verus!
