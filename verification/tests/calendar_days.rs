use geo4d::calendar::{civil_from_days, days_from_civil};
use geo4d::leap::SEC_PER_DAY;
use geo4d::time::GPS_EPOCH_UNIX;

#[test]
fn civil_day_algorithm_round_trips() {
    for (y, m, d) in [
        (1970, 1, 1),
        (2000, 1, 1),
        (2026, 9, 14),
        (1972, 6, 30),
        (1600, 12, 31),
        (2400, 2, 29),
    ] {
        let z = days_from_civil(y, m, d);
        assert_eq!(civil_from_days(z), (y, m, d), "{y}-{m}-{d}");
    }
    assert_eq!(days_from_civil(1970, 1, 1), 0);
    assert_eq!(days_from_civil(2000, 1, 1), 10_957);
    assert_eq!(days_from_civil(1980, 1, 6) * SEC_PER_DAY, GPS_EPOCH_UNIX);
}

#[test]
fn day_numbers_count_consecutive_days() {
    // The day after the last of a month, of February in leap and common years, and of a year.
    assert_eq!(days_from_civil(2000, 2, 29), days_from_civil(2000, 2, 28) + 1);
    assert_eq!(days_from_civil(2000, 3, 1), days_from_civil(2000, 2, 29) + 1);
    assert_eq!(days_from_civil(1900, 3, 1), days_from_civil(1900, 2, 28) + 1);
    assert_eq!(days_from_civil(2001, 1, 1), days_from_civil(2000, 12, 31) + 1);
    assert_eq!(days_from_civil(2024, 5, 1), days_from_civil(2024, 4, 30) + 1);
}

#[test]
fn days_before_the_epoch_are_negative() {
    assert_eq!(days_from_civil(1969, 12, 31), -1);
    assert_eq!(civil_from_days(-1), (1969, 12, 31));
    assert_eq!(civil_from_days(-719_468), (0, 3, 1));
    assert_eq!(civil_from_days(-719_469), (0, 2, 29)); // year 0 is a leap year
    let z = days_from_civil(-4713, 11, 24);
    assert_eq!(civil_from_days(z), (-4713, 11, 24));
}

#[test]
fn out_of_range_months_and_days_count_on() {
    // Day 0 of a month is the last day of the previous one; day 32 of January is 1 February.
    assert_eq!(days_from_civil(2020, 3, 0), days_from_civil(2020, 2, 29));
    assert_eq!(days_from_civil(2021, 1, 32), days_from_civil(2021, 2, 1));
}

#[test]
fn every_day_of_four_centuries_round_trips() {
    let first = days_from_civil(1600, 3, 1);
    let last = days_from_civil(2000, 3, 1);
    assert_eq!(last - first, 146_097);
    let mut prev = civil_from_days(first - 1);
    for z in first..=last {
        let (y, m, d) = civil_from_days(z);
        assert_eq!(days_from_civil(y, m, d), z);
        assert!((y, m, d) > prev);
        prev = (y, m, d);
    }
}
