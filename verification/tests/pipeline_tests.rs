use chrono::TimeZone;
use chrono::Utc;
use storage_forecast::analyze;
use storage_forecast::estimate;
use storage_forecast::group;
use storage_forecast::statistics;
use storage_forecast::Duration;
use storage_forecast::Error;
use storage_forecast::File;
use storage_forecast::Timestamp;
use storage_forecast::HOUR_NANOS;
use storage_forecast::YEAR_NANOS;

fn at(year: i32, month: u32, day: u32, h: u32, m: u32, s: u32) -> Timestamp {
    let t = Utc.with_ymd_and_hms(year, month, day, h, m, s).unwrap();
    Timestamp::from_nanos(t.timestamp() as u128 * 1_000_000_000)
}

#[test]
fn round_trip_test() {
    let now = at(2023, 5, 1, 21, 5, 6);
    let files = vec![
        File::new(at(2019, 6, 1, 21, 5, 6), 5),
        File::new(at(2019, 7, 2, 20, 1, 1), 600),
        File::new(at(2022, 10, 1, 21, 5, 6), 7),
        File::new(at(2022, 11, 2, 20, 1, 1), 801),
    ];

    let actual = analyze(&files, now).unwrap();

    assert_eq!(actual.stats.created_min, at(2019, 6, 1, 21, 5, 6));
    assert_eq!(actual.stats.created_max, now);
    assert_eq!(actual.stats.duration, Duration::from_secs(123552000));
    assert_eq!(actual.stats.total_size, 1413);
    assert_eq!(actual.stats.total_count, 4);
    assert_eq!(actual.interval, Duration::from_nanos(YEAR_NANOS));
    assert_eq!(actual.history.len(), 4);
    assert_eq!(actual.history[0].size, 605);
    assert_eq!(actual.history[1].size, 605);
    assert_eq!(actual.history[2].size, 605);
    assert_eq!(actual.history[3].size, 1413);
    assert_eq!(actual.history[3].until, now);

    let points: Vec<(f64, f64)> = actual
        .history
        .iter()
        .map(|g| ((g.until.as_nanos() / 1_000_000_000) as f64, g.size as f64))
        .collect();
    let slope: f64 = linreg::linear_regression_of(&points).unwrap().0;
    assert_eq!(slope, 7.681192486120618e-6);

    let increment = (slope * (YEAR_NANOS / 1_000_000_000) as f64) as i64;
    assert_eq!(increment, 242);

    let forecast = estimate(increment, actual.interval, now, actual.stats.total_size);
    assert_eq!(forecast.len(), 36);
    for i in 0..36 {
        assert_eq!(forecast[i].size, 1413 + (i as u64 + 1) * 242);
        assert_eq!(
            forecast[i].until,
            Timestamp::from_nanos(now.as_nanos() + (i as u128 + 1) * YEAR_NANOS)
        );
    }
}

#[test]
fn degenerate_single_file_test() {
    let now = at(2023, 5, 1, 21, 5, 6);
    let files = vec![File::new(now, 10)];
    let stats = statistics(&files, now).unwrap();
    assert_eq!(stats.duration, Duration::from_secs(0));
    match analyze(&files, now) {
        Err(Error::UnsupportedSpan { duration }) => {
            assert_eq!(duration, Duration::from_secs(0));
        },
        other => panic!("expected an unsupported-span error, got {:?}", other),
    }
}

#[test]
fn empty_record_set_test() {
    let now = at(2023, 5, 1, 21, 5, 6);
    let files: Vec<File> = Vec::new();
    assert_eq!(statistics(&files, now), Err(Error::EmptyRecordSet));
    assert!(matches!(analyze(&files, now), Err(Error::EmptyRecordSet)));
}

#[test]
fn time_inconsistency_test() {
    let now = at(2020, 1, 1, 0, 0, 0);
    let late = at(2021, 1, 1, 0, 0, 0);
    let files = vec![File::new(late, 10)];
    match statistics(&files, now) {
        Err(Error::TimeInconsistency { created, now: n }) => {
            assert_eq!(created, late);
            assert_eq!(n, now);
        },
        other => panic!("expected a time-inconsistency error, got {:?}", other),
    }
    // one late record among early ones is caught by the bucketing engine
    let mixed = vec![File::new(at(2015, 1, 1, 0, 0, 0), 4), File::new(late, 10)];
    match group(&mixed, Duration::from_nanos(YEAR_NANOS), now) {
        Err(Error::TimeInconsistency { created, now: n }) => {
            assert_eq!(created, late);
            assert_eq!(n, now);
        },
        other => panic!("expected a time-inconsistency error, got {:?}", other),
    }
}

#[test]
fn interval_boundary_failure_test() {
    let now = at(2023, 5, 1, 12, 0, 0);
    // span of exactly three hours less one second: the selector must refuse
    let files = vec![File::new(
        Timestamp::from_nanos(now.as_nanos() - (3 * HOUR_NANOS - 1_000_000_000)),
        7,
    )];
    assert!(matches!(analyze(&files, now), Err(Error::UnsupportedSpan { .. })));
}

#[test]
fn bucket_boundary_test() {
    // a record created exactly on a bucket edge lands in the bucket whose
    // right edge is that instant, not the one before it
    let now = at(2023, 5, 1, 12, 0, 0);
    let hour = Duration::from_nanos(HOUR_NANOS);
    let files = vec![
        File::new(Timestamp::from_nanos(now.as_nanos() - HOUR_NANOS), 10),
        File::new(now, 1),
    ];
    let buckets = group(&files, hour, now).unwrap();
    assert_eq!(buckets.len(), 2);
    assert_eq!(buckets[0].until, Timestamp::from_nanos(now.as_nanos() - HOUR_NANOS));
    assert_eq!(buckets[0].size, 10);
    assert_eq!(buckets[1].until, now);
    assert_eq!(buckets[1].size, 1);
}

#[test]
fn negative_slope_test() {
    // a decreasing series still yields a (negative) slope from the fit,
    // and a negative increment yields a shrinking forecast
    let base: f64 = 1_000_000_000.0;
    let points: Vec<(f64, f64)> = vec![
        (base, 100.0),
        (base + 3600.0, 80.0),
        (base + 7200.0, 70.0),
        (base + 10800.0, 40.0),
    ];
    let slope: f64 = linreg::linear_regression_of(&points).unwrap().0;
    assert!(slope < 0.0);

    let now = at(2023, 5, 1, 12, 0, 0);
    let forecast = estimate(-5, Duration::from_nanos(HOUR_NANOS), now, 1000);
    assert_eq!(forecast.len(), 36);
    assert_eq!(forecast[0].size, 995);
    assert_eq!(forecast[35].size, 1000 - 36 * 5);
    for i in 1..36 {
        assert!(forecast[i].size < forecast[i - 1].size);
    }
}
