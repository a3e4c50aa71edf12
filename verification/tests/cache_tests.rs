use rust_iss::cache::{Cache, Decision};
use rust_iss::record::Record;
use rust_iss::sched::{apply_tick, FetchOutcome};
use rust_iss::history::History;
use rust_iss::source::SourceId;

#[test]
fn cold_cache_single_flight() {
    // two callers race on a cold key: the first must fetch, the second waits,
    // and no second fetch is started
    let mut cache = Cache::new();
    let first = cache.get_or_begin(SourceId::Position);
    assert!(matches!(first, Decision::MustFetch));
    let second = cache.get_or_begin(SourceId::Position);
    assert!(matches!(second, Decision::Wait));
    let third = cache.get_or_begin(SourceId::Position);
    assert!(matches!(third, Decision::Wait));
}

#[test]
fn all_callers_see_published_result() {
    let mut cache = Cache::new();
    assert!(matches!(cache.get_or_begin(SourceId::Position), Decision::MustFetch));
    cache.publish(SourceId::Position, Record::new(7, "p1".to_string()), 100);
    // every caller from now on gets the same record without fetching
    match cache.get_or_begin(SourceId::Position) {
        Decision::Hit(e) => {
            assert_eq!(e.value.observed_at, 7);
            assert_eq!(e.value.payload, "p1".to_string());
            assert_eq!(e.cached_at, 100);
        },
        _ => panic!("expected a hit"),
    }
    let looked = cache.lookup(SourceId::Position).unwrap();
    assert_eq!(looked.value.payload, "p1".to_string());
}

#[test]
fn cache_hit_never_fetches() {
    let mut cache = Cache::new();
    assert!(matches!(cache.get_or_begin(SourceId::DatasetCatalog), Decision::MustFetch));
    cache.publish(SourceId::DatasetCatalog, Record::new(1, "d".to_string()), 10);
    // a hit decision stands in for the fetch function never being called:
    // the decision is the only path that leads to an upstream call
    for _ in 0..5 {
        assert!(matches!(cache.get_or_begin(SourceId::DatasetCatalog), Decision::Hit(_)));
    }
}

#[test]
fn failed_fetch_preserves_prior_entry() {
    let mut cache = Cache::new();
    let mut store = History::new();
    assert!(matches!(cache.get_or_begin(SourceId::SpaceWeather), Decision::MustFetch));
    cache.publish(SourceId::SpaceWeather, Record::new(5, "good".to_string()), 50);
    // an on-demand refresh begins and its fetch fails: the prior entry must
    // stay, not be replaced by an empty value, and nothing is persisted
    assert!(cache.begin_refresh(SourceId::SpaceWeather));
    let r = apply_tick(&mut cache, &mut store, SourceId::SpaceWeather, FetchOutcome::Failure, 60);
    assert!(r.is_ok());
    let e = cache.lookup(SourceId::SpaceWeather).unwrap();
    assert_eq!(e.value.payload, "good".to_string());
    assert_eq!(e.cached_at, 50);
    assert_eq!(store.len(), 0);
}

#[test]
fn forced_refresh_is_still_single_flight() {
    let mut cache = Cache::new();
    assert!(matches!(cache.get_or_begin(SourceId::Position), Decision::MustFetch));
    cache.publish(SourceId::Position, Record::new(1, "v".to_string()), 10);
    // the first forced refresh acquires the marker; a second one must wait
    assert!(cache.begin_refresh(SourceId::Position));
    assert!(!cache.begin_refresh(SourceId::Position));
}

#[test]
fn sources_are_independent() {
    let mut cache = Cache::new();
    assert!(matches!(cache.get_or_begin(SourceId::Position), Decision::MustFetch));
    // another source is unaffected by the in-flight fetch of the first
    assert!(matches!(cache.get_or_begin(SourceId::LaunchSchedule), Decision::MustFetch));
    cache.publish(SourceId::LaunchSchedule, Record::new(3, "ls".to_string()), 30);
    assert!(matches!(cache.get_or_begin(SourceId::Position), Decision::Wait));
    assert!(matches!(cache.get_or_begin(SourceId::LaunchSchedule), Decision::Hit(_)));
}

#[test]
fn tick_success_writes_cache_then_history() {
    let mut cache = Cache::new();
    let mut store = History::new();
    assert!(matches!(cache.get_or_begin(SourceId::Position), Decision::MustFetch));
    let rec = Record::new(42, "pos".to_string());
    let r = apply_tick(&mut cache, &mut store, SourceId::Position, FetchOutcome::Success(rec), 100);
    assert!(r.is_ok());
    let e = cache.lookup(SourceId::Position).unwrap();
    assert_eq!(e.value.observed_at, 42);
    assert_eq!(e.cached_at, 100);
    assert_eq!(store.len(), 1);
    let rows = store.query_range(SourceId::Position, 0, 1000);
    assert_eq!(rows.len(), 1);
    assert_eq!(rows[0].observed_at, 42);
    assert_eq!(rows[0].payload, "pos".to_string());
}
