use cloud_sql_tracker::clock::{civil_from_days, format_rfc3339, Timestamp};

#[test]
fn dates_around_leap_days_are_exact() {
    assert_eq!(civil_from_days(0), (1970, 1, 1));
    assert_eq!(civil_from_days(-1), (1969, 12, 31));
    assert_eq!(civil_from_days(11_016), (2000, 2, 29));
    assert_eq!(civil_from_days(11_017), (2000, 3, 1));
    assert_eq!(civil_from_days(-25_509), (1900, 2, 28));
    assert_eq!(civil_from_days(-25_508), (1900, 3, 1));
    assert_eq!(civil_from_days(19_782), (2024, 2, 29));
    assert_eq!(civil_from_days(-719_468), (0, 3, 1));
    assert_eq!(civil_from_days(-719_469), (0, 2, 29));
}

#[test]
fn consecutive_days_are_consecutive_dates() {
    let (mut year, mut month, mut day) = civil_from_days(-200_000);
    for number in -199_999..=200_000 {
        let next = civil_from_days(number);
        let same_month = next == (year, month, day + 1);
        let new_month = next == (year, month + 1, 1);
        let new_year = month == 12 && day == 31 && next == (year + 1, 1, 1);
        assert!(same_month || new_month || new_year, "{number}");
        (year, month, day) = next;
    }
}

#[test]
fn instants_before_the_epoch_are_formatted_as_the_epoch() {
    assert_eq!(
        format_rfc3339(Timestamp::new(-1, 0)),
        "1970-01-01T00:00:00Z"
    );
    assert_eq!(
        format_rfc3339(Timestamp::new(0, 999_999_999)),
        "1970-01-01T00:00:00Z"
    );
    assert_eq!(
        format_rfc3339(Timestamp::new(253_402_300_800, 0)),
        "10000-01-01T00:00:00Z"
    );
}

#[test]
fn elapsed_time_never_runs_backwards() {
    let early = Timestamp::new(10, 5);
    let late = Timestamp::new(12, 4);
    assert_eq!(late.nanos_since(&early), 1_999_999_999);
    assert_eq!(early.nanos_since(&late), 0);
    assert_eq!(
        late.earlier_by_micros(2_000_000),
        Some(Timestamp::new(10, 4))
    );
    let earliest = Timestamp::new(i64::MIN, 0);
    assert_eq!(earliest.earlier_by_micros(1), None);
    assert_eq!(earliest.earlier_by_micros(0), Some(earliest));
}
