use chrono::NaiveDateTime;
use format_distance::format_distance::{
    distance_string, naive_format_distance, naive_format_distance_from_now, Timestamp,
};

fn seconds_of(dt: NaiveDateTime) -> Timestamp {
    Timestamp::from_seconds(dt.and_utc().timestamp())
}

fn moon_landing() -> Timestamp {
    let date = NaiveDateTime::parse_from_str("1969-07-20T00:00:00Z", "%Y-%m-%dT%H:%M:%SZ")
        .expect("Invalid NaiveDateTime for date");
    seconds_of(date)
}

#[test]
#[allow(deprecated)]
fn test_naive_format_distance() {
    let date = NaiveDateTime::from_timestamp_opt(9600, 0).expect("Invalid NaiveDateTime for date");
    let base_date =
        NaiveDateTime::from_timestamp_opt(0, 0).expect("Invalid NaiveDateTime for base_date");

    assert_eq!(
        "about 2 hours",
        naive_format_distance(seconds_of(date), seconds_of(base_date), false, false)
    );
}

#[test]
#[allow(deprecated)]
fn test_naive_format_distance_with_suffix() {
    let date = NaiveDateTime::from_timestamp_opt(9600, 0).expect("Invalid NaiveDateTime for date");
    let base_date =
        NaiveDateTime::from_timestamp_opt(0, 0).expect("Invalid NaiveDateTime for base_date");

    assert_eq!(
        "about 2 hours from now",
        naive_format_distance(seconds_of(date), seconds_of(base_date), false, true)
    );
}

// The phrase depends on the day the test runs: it was "over 54 years ago"
// through 2024. The fixed-clock case is `moon_landing_seen_from_2024`; here the
// live clock is compared with a reading taken around the call.
#[test]
fn test_naive_format_distance_from_now() {
    let date = moon_landing();
    let before = seconds_of(chrono::Local::now().naive_local());
    let text = naive_format_distance_from_now(date, false, true);
    let after = seconds_of(chrono::Local::now().naive_local());

    let earlier = naive_format_distance(date, before, false, true);
    let later = naive_format_distance(date, after, false, true);
    assert!(text == earlier || text == later);
    assert!(text.ends_with(" years ago"));
}

#[test]
fn moon_landing_seen_from_2024() {
    let now = NaiveDateTime::parse_from_str("2024-01-01T00:00:00Z", "%Y-%m-%dT%H:%M:%SZ")
        .expect("Invalid NaiveDateTime for base_date");
    assert_eq!(
        "over 54 years ago",
        naive_format_distance(moon_landing(), seconds_of(now), false, true)
    );
}

#[test]
fn test_naive_format_distance_string() {
    assert_eq!(distance_string(3, false, false), "less than a minute");
    assert_eq!(distance_string(7, false, false), "less than a minute");
    assert_eq!(distance_string(13, false, false), "less than a minute");
    assert_eq!(distance_string(21, false, false), "less than a minute");
    assert_eq!(distance_string(45, false, false), "1 minute");
    assert_eq!(distance_string(61, false, false), "1 minute");
    assert_eq!(distance_string(1920, false, false), "32 minutes");
    assert_eq!(distance_string(3902, false, false), "about 1 hour");
    assert_eq!(distance_string(18002, false, false), "about 5 hours");
    assert_eq!(distance_string(86470, false, false), "1 day");
    assert_eq!(distance_string(345880, false, false), "4 days");
    assert_eq!(distance_string(2764800, false, false), "about 1 month");
    assert_eq!(distance_string(5184000, false, false), "about 2 months");
    assert_eq!(distance_string(10368000, false, false), "4 months");
    assert_eq!(distance_string(34694000, false, false), "about 1 year");
    assert_eq!(distance_string(47310000, false, false), "over 1 year");
    assert_eq!(distance_string(61503000, false, false), "almost 2 years");
    assert_eq!(distance_string(160854000, false, false), "about 5 years");
    assert_eq!(distance_string(236550000, false, false), "over 7 years");
    assert_eq!(distance_string(249166000, false, false), "almost 8 years");
}

#[test]
fn test_naive_format_distance_string_include_seconds() {
    assert_eq!(distance_string(3, true, false), "less than 5 seconds");
    assert_eq!(distance_string(7, true, false), "less than 10 seconds");
    assert_eq!(distance_string(13, true, false), "less than 20 seconds");
    assert_eq!(distance_string(21, true, false), "half a minute");
    assert_eq!(distance_string(45, true, false), "less than a minute");
    assert_eq!(distance_string(61, true, false), "1 minute");
}

#[test]
fn suffix_is_appended_by_sign() {
    for &(d, s) in &[(0i64, false), (1920, true), (-1920, false), (-86470, true), (249166000, false)] {
        let bare = distance_string(d, s, false);
        let direction = if d >= 0 { " ago" } else { " from now" };
        assert_eq!(distance_string(d, s, true), format!("{}{}", bare, direction));
    }
    assert_eq!(distance_string(0, true, true), "less than 5 seconds ago");
    assert_eq!(distance_string(-61, false, true), "1 minute from now");
}

#[test]
fn sign_does_not_change_the_phrase() {
    for &d in &[3i64, 45, 1920, 18002, 345880, 10368000, 160854000] {
        assert_eq!(distance_string(d, false, false), distance_string(-d, false, false));
        assert_eq!(distance_string(d, true, false), distance_string(-d, true, false));
    }
}

#[test]
fn bucket_boundaries_without_seconds() {
    let cases: [(i64, &str); 24] = [
        (0, "less than a minute"),
        (29, "less than a minute"),
        (30, "1 minute"),
        (89, "1 minute"),
        (90, "1 minutes"),
        (2699, "44 minutes"),
        (2700, "about 1 hour"),
        (5399, "about 1 hour"),
        (5400, "about 1 hours"),
        (86399, "about 23 hours"),
        (86400, "1 day"),
        (172799, "1 day"),
        (172800, "2 days"),
        (2591999, "29 days"),
        (2592000, "about 1 month"),
        (5183999, "about 1 month"),
        (7775999, "about 2 months"),
        (7776000, "3 months"),
        (31539999, "12 months"),
        (31540000, "about 1 year"),
        (39425000, "over 1 year"),
        (55195000, "almost 2 years"),
        (63080000, "about 2 years"),
        (63079999, "almost 2 years"),
    ];
    for (d, want) in cases.iter() {
        assert_eq!(distance_string(*d, false, false), *want, "distance {}", d);
    }
}

#[test]
fn bucket_boundaries_with_seconds() {
    let cases: [(i64, &str); 12] = [
        (4, "less than 5 seconds"),
        (5, "less than 10 seconds"),
        (9, "less than 10 seconds"),
        (10, "less than 20 seconds"),
        (19, "less than 20 seconds"),
        (20, "half a minute"),
        (29, "half a minute"),
        (30, "half a minute"),
        (39, "half a minute"),
        (40, "less than a minute"),
        (60, "1 minute"),
        (90, "1 minutes"),
    ];
    for (d, want) in cases.iter() {
        assert_eq!(distance_string(*d, true, false), *want, "distance {}", d);
    }
}

#[test]
fn years_with_leftover_months() {
    // 2 years and 2, 3, 8 and 9 leftover months of 30 days.
    assert_eq!(distance_string(63072000 + 2 * 2592000, false, false), "about 2 years");
    assert_eq!(distance_string(63072000 + 3 * 2592000, false, false), "over 2 years");
    assert_eq!(distance_string(63072000 + 8 * 2592000, false, false), "over 2 years");
    assert_eq!(distance_string(63072000 + 9 * 2592000, false, false), "almost 3 years");
}

#[test]
fn extreme_distances() {
    assert_eq!(distance_string(i64::MAX, false, false), "over 292471208677 years");
    assert_eq!(distance_string(i64::MIN, false, true), "over 292471208677 years from now");
    let far = naive_format_distance(
        Timestamp::from_seconds(i64::MAX),
        Timestamp::from_seconds(i64::MIN),
        false,
        true,
    );
    assert_eq!(far, "about 584942417355 years from now");
}
