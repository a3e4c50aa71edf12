use rust_iss::trend::{PosLog, PosLogError, PosPoint};

fn haversine_f64(lat1: f64, lon1: f64, lat2: f64, lon2: f64) -> f64 {
    let r = 6_371_000.0_f64;
    let p1 = lat1.to_radians();
    let p2 = lat2.to_radians();
    let dp = (lat2 - lat1).to_radians();
    let dl = (lon2 - lon1).to_radians();
    let a = (dp / 2.0).sin().powi(2) + p1.cos() * p2.cos() * (dl / 2.0).sin().powi(2);
    2.0 * r * a.sqrt().asin()
}

fn point(observed_at: u64, lat_micro: i64, lon_micro: i64) -> PosPoint {
    PosPoint { observed_at, lat_micro, lon_micro, alt_mm: 420_000_000 }
}

#[test]
fn three_seeded_records_yield_two_speeds() {
    // seed three position records at t = 0, 60, 120 seconds with known
    // coordinates, query the whole window, and hold the two derived speeds
    // against a floating-point haversine computation
    let mut log = PosLog::new();
    assert!(log.append(point(0, 0, 0)).is_ok());
    assert!(log.append(point(60, 500_000, 500_000)).is_ok());
    assert!(log.append(point(120, 1_000_000, 1_000_000)).is_ok());

    let trend = log.trend_range(0, 120);
    assert_eq!(trend.len(), 3);
    assert_eq!(trend[0].observed_at, 0);
    assert_eq!(trend[1].observed_at, 60);
    assert_eq!(trend[2].observed_at, 120);
    assert!(trend[0].speed_m_per_hr.is_none());

    let coords = [(0.0, 0.0), (0.5, 0.5), (1.0, 1.0)];
    for k in 1..3 {
        let (la0, lo0) = coords[k - 1];
        let (la1, lo1) = coords[k];
        let want = haversine_f64(la0, lo0, la1, lo1) * 3600.0 / 60.0;
        let got = trend[k].speed_m_per_hr.unwrap() as f64;
        assert!((got - want).abs() <= want * 0.01);
    }
    for w in trend.windows(2) {
        assert!(w[0].observed_at <= w[1].observed_at);
    }
}

#[test]
fn trend_window_filters_by_time() {
    let mut log = PosLog::new();
    assert!(log.append(point(0, 0, 0)).is_ok());
    assert!(log.append(point(60, 500_000, 500_000)).is_ok());
    assert!(log.append(point(120, 1_000_000, 1_000_000)).is_ok());
    let trend = log.trend_range(50, 130);
    assert_eq!(trend.len(), 2);
    assert_eq!(trend[0].observed_at, 60);
    assert!(trend[0].speed_m_per_hr.is_none());
    assert!(trend[1].speed_m_per_hr.is_some());
}

#[test]
fn stationary_points_have_zero_speed() {
    let mut log = PosLog::new();
    assert!(log.append(point(0, 10_000_000, 20_000_000)).is_ok());
    assert!(log.append(point(60, 10_000_000, 20_000_000)).is_ok());
    let trend = log.trend_range(0, 60);
    assert_eq!(trend.len(), 2);
    assert_eq!(trend[1].speed_m_per_hr, Some(0));
}

#[test]
fn equal_timestamps_give_no_speed() {
    let mut log = PosLog::new();
    assert!(log.append(point(10, 0, 0)).is_ok());
    assert!(log.append(point(10, 500_000, 0)).is_ok());
    let trend = log.trend_range(0, 20);
    assert_eq!(trend.len(), 2);
    assert!(trend[1].speed_m_per_hr.is_none());
}

#[test]
fn invalid_coordinates_are_refused() {
    let mut log = PosLog::new();
    let r = log.append(point(0, 91_000_000, 0));
    assert_eq!(r, Err(PosLogError::InvalidCoordinates));
    let r2 = log.append(point(0, 0, -180_000_001));
    assert_eq!(r2, Err(PosLogError::InvalidCoordinates));
    assert_eq!(log.len(), 0);
}

#[test]
fn out_of_order_position_is_refused() {
    let mut log = PosLog::new();
    assert!(log.append(point(100, 0, 0)).is_ok());
    let r = log.append(point(99, 0, 0));
    assert_eq!(r, Err(PosLogError::OutOfOrder));
    assert_eq!(log.len(), 1);
}
