use rust_iss::api::{latest_for_name, summary, QueryError};
use rust_iss::cache::{Cache, Decision};
use rust_iss::record::Record;
use rust_iss::source::{from_name, SourceId};

#[test]
fn unknown_source_name_is_a_client_error() {
    let cache = Cache::new();
    let r = latest_for_name(&cache, "nope");
    assert!(matches!(r, Err(QueryError::UnknownSource)));
    let r2 = latest_for_name(&cache, "");
    assert!(matches!(r2, Err(QueryError::UnknownSource)));
    let r3 = latest_for_name(&cache, "ISS");
    assert!(matches!(r3, Err(QueryError::UnknownSource)));
}

#[test]
fn known_source_yields_cached_or_empty() {
    let mut cache = Cache::new();
    let cold = latest_for_name(&cache, "iss").unwrap();
    assert!(cold.is_none());
    assert!(matches!(cache.get_or_begin(SourceId::Position), Decision::MustFetch));
    cache.publish(SourceId::Position, Record::new(9, "here".to_string()), 90);
    let warm = latest_for_name(&cache, "iss").unwrap().unwrap();
    assert_eq!(warm.value.payload, "here".to_string());
    assert_eq!(warm.cached_at, 90);
}

#[test]
fn every_route_name_parses_to_its_source() {
    assert_eq!(from_name("iss"), Some(SourceId::Position));
    assert_eq!(from_name("osdr"), Some(SourceId::DatasetCatalog));
    assert_eq!(from_name("apod"), Some(SourceId::PictureOfDay));
    assert_eq!(from_name("neo"), Some(SourceId::NearEarthObjects));
    assert_eq!(from_name("donki"), Some(SourceId::SpaceWeather));
    assert_eq!(from_name("spacex"), Some(SourceId::LaunchSchedule));
    assert_eq!(from_name("issx"), None);
    assert_eq!(from_name("is"), None);
}

#[test]
fn summary_reports_one_line_per_source() {
    let mut cache = Cache::new();
    assert!(matches!(cache.get_or_begin(SourceId::PictureOfDay), Decision::MustFetch));
    cache.publish(SourceId::PictureOfDay, Record::new(2, "pic".to_string()), 77);
    let lines = summary(&cache);
    assert_eq!(lines.len(), 6);
    for line in &lines {
        if line.source == SourceId::PictureOfDay {
            assert_eq!(line.cached_at, Some(77));
        } else {
            assert_eq!(line.cached_at, None);
        }
    }
}

#[test]
fn source_names_round_trip() {
    let all = [
        SourceId::Position,
        SourceId::DatasetCatalog,
        SourceId::PictureOfDay,
        SourceId::NearEarthObjects,
        SourceId::SpaceWeather,
        SourceId::LaunchSchedule,
    ];
    for s in all {
        assert_eq!(from_name(s.name()), Some(s));
    }
}
