use rust_iss::geo::haversine_m;

fn haversine_f64(lat1: f64, lon1: f64, lat2: f64, lon2: f64) -> f64 {
    let r = 6_371_000.0_f64;
    let p1 = lat1.to_radians();
    let p2 = lat2.to_radians();
    let dp = (lat2 - lat1).to_radians();
    let dl = (lon2 - lon1).to_radians();
    let a = (dp / 2.0).sin().powi(2) + p1.cos() * p2.cos() * (dl / 2.0).sin().powi(2);
    2.0 * r * a.sqrt().asin()
}

#[test]
fn test_haversine() {
    // a quarter of the equator away from the antimeridian on each side:
    // half the circumference, just over 20_000 km
    let d = haversine_m(0, 0, 0, 180_000_000);
    assert!(d > 20_000_000);
}

#[test]
fn haversine_zero_on_equal_points() {
    assert_eq!(haversine_m(51_500_000, -120_000, 51_500_000, -120_000), 0);
    assert_eq!(haversine_m(0, 0, 0, 0), 0);
    assert_eq!(haversine_m(-90_000_000, 180_000_000, -90_000_000, 180_000_000), 0);
}

#[test]
fn haversine_symmetric() {
    let a = (10_500_000, 20_250_000);
    let b = (-33_900_000, 151_200_000);
    assert_eq!(
        haversine_m(a.0, a.1, b.0, b.1),
        haversine_m(b.0, b.1, a.0, a.1)
    );
    let c = (51_500_000, -120_000);
    let d = (48_850_000, 2_350_000);
    assert_eq!(
        haversine_m(c.0, c.1, d.0, d.1),
        haversine_m(d.0, d.1, c.0, c.1)
    );
}

#[test]
fn haversine_matches_floating_point_within_tolerance() {
    let cases = [
        (10.5, 20.25, -33.9, 151.2),
        (51.5, -0.12, 48.85, 2.35),
        (89.0, 0.0, 89.0, 180.0),
    ];
    for (lat1, lon1, lat2, lon2) in cases {
        let got = haversine_m(
            (lat1 * 1e6) as i64,
            (lon1 * 1e6) as i64,
            (lat2 * 1e6) as i64,
            (lon2 * 1e6) as i64,
        ) as f64;
        let want = haversine_f64(lat1, lon1, lat2, lon2);
        assert!((got - want).abs() <= want * 0.01 + 2.0);
    }
}

#[test]
fn haversine_continuous_across_antimeridian() {
    // two points straddling the antimeridian are close, not half a world apart
    let d = haversine_m(0, 179_900_000, 0, -179_900_000);
    assert!(d < 30_000);
    assert!(d > 15_000);
}
