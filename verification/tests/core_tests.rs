use chrono::TimeZone;
use chrono::Utc;
use storage_forecast::acc;
use storage_forecast::derive_interval;
use storage_forecast::estimate;
use storage_forecast::group;
use storage_forecast::statistics;
use storage_forecast::Duration;
use storage_forecast::File;
use storage_forecast::Group;
use storage_forecast::Timestamp;
use storage_forecast::YEAR_NANOS;

fn init_system_time(year: i32, month: u32, day: u32) -> Timestamp {
    let day_time = Utc.with_ymd_and_hms(year, month, day, 0, 0, 0).unwrap();
    Timestamp::from_nanos(day_time.timestamp() as u128 * 1_000_000_000)
}

fn years(n: u128) -> Duration {
    Duration::from_nanos(YEAR_NANOS * n)
}

#[test]
fn statistics_test() {
    let files = vec![
        File::new(init_system_time(2023, 2, 13), 10058),
        File::new(init_system_time(2018, 12, 31), 105),
        File::new(init_system_time(2020, 10, 1), 132),
        File::new(init_system_time(2020, 10, 1), 5068),
        File::new(init_system_time(2021, 7, 27), 9892),
    ];
    let now = init_system_time(2023, 2, 28);
    let actual = statistics(&files, now).unwrap();
    assert_eq!(actual.created_min, init_system_time(2018, 12, 31));
    assert_eq!(actual.created_max, now);
    assert_eq!(actual.duration, Duration::from_nanos(131328000000000000));
    assert_eq!(actual.total_size, 25255);
    assert_eq!(actual.total_count, 5);
}

#[test]
fn group_test() {
    let now = init_system_time(2023, 2, 28);
    let files = vec![
        File::new(init_system_time(2019, 1, 26), 10),
        File::new(init_system_time(2021, 1, 26), 10),
        File::new(init_system_time(2022, 1, 26), 10),
        File::new(init_system_time(2022, 3, 1), 10),
        File::new(init_system_time(2023, 2, 13), 10058),
    ];
    let expected = vec![
        Group::new(now.checked_sub(years(4)).unwrap(), 10),
        Group::new(now.checked_sub(years(3)).unwrap(), 0),
        Group::new(now.checked_sub(years(2)).unwrap(), 10),
        Group::new(now.checked_sub(years(1)).unwrap(), 10),
        Group::new(now, 10068),
    ];
    let actual = group(&files, years(1), now).unwrap();
    assert_eq!(actual, expected);
}

#[test]
fn acc_test() {
    let now = init_system_time(2023, 2, 28);
    let input = vec![
        Group::new(now.checked_sub(years(4)).unwrap(), 40),
        Group::new(now.checked_sub(years(3)).unwrap(), 0),
        Group::new(now.checked_sub(years(2)).unwrap(), 30),
        Group::new(now.checked_sub(years(1)).unwrap(), 20),
        Group::new(now, 10),
    ];
    let expected = vec![
        Group::new(now.checked_sub(years(4)).unwrap(), 40),
        Group::new(now.checked_sub(years(3)).unwrap(), 40),
        Group::new(now.checked_sub(years(2)).unwrap(), 70),
        Group::new(now.checked_sub(years(1)).unwrap(), 90),
        Group::new(now, 100),
    ];
    assert_eq!(expected, acc(input));
}

#[test]
fn derive_interval_test() {
    let year = Duration::from_secs(31557600);
    let month = Duration::from_secs(2629800);
    let day = Duration::from_secs(86400);
    let hour = Duration::from_secs(3600);
    assert_eq!(year, derive_interval(Duration::from_secs(31557600 * 3)).unwrap());
    assert_eq!(month, derive_interval(Duration::from_secs(31557600 * 3 - 1)).unwrap());
    assert_eq!(month, derive_interval(Duration::from_secs(2629800 * 3)).unwrap());
    assert_eq!(day, derive_interval(Duration::from_secs(2629800 * 3 - 1)).unwrap());
    assert_eq!(day, derive_interval(Duration::from_secs(86400 * 3)).unwrap());
    assert_eq!(hour, derive_interval(Duration::from_secs(86400 * 3 - 1)).unwrap());
    assert_eq!(hour, derive_interval(Duration::from_secs(3600 * 3)).unwrap());
}

#[test]
#[should_panic]
fn derive_interval_errors() {
    derive_interval(Duration::from_secs(3600 * 3 - 1)).unwrap();
}

#[test]
fn regression_test() {
    let now = init_system_time(2023, 2, 28);
    let input = vec![
        Group::new(now.checked_sub(years(4)).unwrap(), 1),
        Group::new(now.checked_sub(years(3)).unwrap(), 2),
        Group::new(now.checked_sub(years(2)).unwrap(), 4),
        Group::new(now.checked_sub(years(1)).unwrap(), 8),
        Group::new(now, 16),
    ];
    let points: Vec<(f64, f64)> = input
        .iter()
        .map(|g| ((g.until.as_nanos() / 1_000_000_000) as f64, g.size as f64))
        .collect();
    let actual: (f64, f64) = linreg::linear_regression_of(&points).unwrap();
    assert_eq!(actual.0, 0.00000011407711613050423);
}

#[test]
fn estimate_test() {
    let now = init_system_time(2023, 2, 28);
    let slope = 0.68;
    let inerval_inc: u64 = (slope * (31557600 as f64)) as u64;
    let expected: Vec<Group> = (1..37)
        .map(|i| Group::new(now.checked_add(years(i)).unwrap(), 1 + inerval_inc * i as u64))
        .collect();
    let actual = estimate(inerval_inc as i64, years(1), now, 1);
    assert_eq!(actual, expected);
}
