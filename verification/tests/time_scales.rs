use geo4d::{Duration, Epoch, TimeScale, TimeWindow};

const NS: i128 = 1_000_000_000;

fn hours(h: i128) -> Duration {
    Duration::from_nanos(h * 3_600 * NS)
}

fn seconds(s: i128) -> Duration {
    Duration::from_nanos(s * NS)
}

fn utc(year: i64, month: i64, day: i64, hour: i64, minute: i64, second: i64) -> Epoch {
    Epoch::from_gregorian_nanos(TimeScale::Utc, year, month, day, hour, minute, second, 0)
}

#[test]
fn time_window_contains_clamp_and_intersect() {
    let t0 = Epoch::from_unix_nanos(1_000_000 * NS);
    let w = TimeWindow::for_duration(t0, hours(2));
    assert!(w.contains(t0) && w.contains(t0 + hours(1)));
    assert!(!w.contains(t0 + hours(2))); // end exclusive
    assert!(!w.contains(t0 - Duration::second()));
    assert_eq!(w.clamp(t0 - Duration::hour()), t0);
    assert_eq!(w.clamp(t0 + hours(5)), t0 + hours(2));
    assert_eq!(w.clamp(t0 + Duration::hour()), t0 + Duration::hour());
    // Intersection with an overlapping and a disjoint window.
    let later = TimeWindow::from(t0 + Duration::hour());
    assert_eq!(w.intersect(&later).unwrap().duration(), Some(Duration::hour()));
    assert!(w.intersect(&TimeWindow::from(t0 + hours(3))).is_none());
    assert!(TimeWindow::unbounded().contains(t0));
    assert_eq!(TimeWindow::unbounded().intersect(&w), Some(w));
}

#[test]
fn leap_seconds_step_correctly() {
    // Integer-valued and therefore exact.
    assert_eq!(utc(1971, 1, 1, 0, 0, 0).tai_minus_utc_seconds(), 10);
    assert_eq!(utc(1972, 1, 1, 0, 0, 0).tai_minus_utc_seconds(), 10);
    assert_eq!(utc(1972, 7, 1, 0, 0, 0).tai_minus_utc_seconds(), 11);
    assert_eq!(utc(2000, 1, 1, 0, 0, 0).tai_minus_utc_seconds(), 32);
    assert_eq!(utc(2017, 1, 1, 0, 0, 0).tai_minus_utc_seconds(), 37);
    assert_eq!(utc(2026, 1, 1, 0, 0, 0).tai_minus_utc_seconds(), 37);
    // One second before a step still reads the old value.
    assert_eq!(
        (utc(1972, 7, 1, 0, 0, 0) - Duration::second()).tai_minus_utc_seconds(),
        10
    );
}

#[test]
fn scale_offsets_are_exact_to_the_nanosecond() {
    let e = utc(2020, 6, 15, 12, 0, 0);
    // TT − TAI = 32.184 s, TAI − GPS = 19 s, TAI − UTC = 37 s (2020), GPS − UTC = 18 s.
    assert_eq!(
        e.to_scale_nanos(TimeScale::Tt) - e.to_scale_nanos(TimeScale::Tai),
        32_184_000_000
    );
    assert_eq!(
        e.to_scale_nanos(TimeScale::Tai) - e.to_scale_nanos(TimeScale::Gps),
        19_000_000_000
    );
    assert_eq!(
        e.to_scale_nanos(TimeScale::Tai) - e.to_scale_nanos(TimeScale::Utc),
        37_000_000_000
    );
    assert_eq!(
        e.to_scale_nanos(TimeScale::Gps) - e.to_scale_nanos(TimeScale::Utc),
        18_000_000_000
    );
}

#[test]
fn j2000_is_consistent_everywhere() {
    let j = Epoch::j2000();
    // Julian Date 2451545.0 (TT) is 10957.5 days after the Julian Date 2440587.5 of 1970-01-01.
    assert_eq!(j.to_scale_nanos(TimeScale::Tt), 946_728_000 * NS);
    // MJD 51544.5 (TT) is the same instant: 51544.5 − 40587 days after 1970-01-01.
    assert_eq!(j.to_scale_nanos(TimeScale::Tt), (51_544 - 40_587) * 86_400 * NS + 43_200 * NS);
    // J2000 in UTC is 11:58:55.816 (TT is ahead of UTC by 32.184 + 32 s = 64.184 s).
    let c = j.to_gregorian_nanos(TimeScale::Utc);
    assert_eq!((c.year, c.month, c.day, c.hour, c.minute), (2000, 1, 1, 11, 58));
    assert_eq!((c.second, c.nanosecond), (55, 816_000_000));
    assert_eq!(j, Epoch::from_gregorian_nanos(TimeScale::Tt, 2000, 1, 1, 12, 0, 0, 0));
}

#[test]
fn unix_and_gps_reference_values() {
    // 2000-01-01T12:00:00 UTC is Unix 946 728 000 and JD(UTC) 2451545.0.
    let noon2000 = utc(2000, 1, 1, 12, 0, 0);
    assert_eq!(noon2000.to_scale_nanos(TimeScale::Utc), 946_728_000 * NS);
    assert_eq!(Epoch::from_unix_nanos(0), Epoch::unix_epoch());
    // The GPS epoch: week 0, tow 0, GPS seconds 0.
    assert_eq!(Epoch::gps_epoch(), utc(1980, 1, 6, 0, 0, 0));
    assert_eq!(Epoch::gps_epoch().to_scale_nanos(TimeScale::Gps), 315_964_800 * NS);
    assert_eq!(Epoch::gps_epoch().gps_week_nanos(), (0, 0));
    // A known GPS week: 2020-06-15 is week 2110.
    let (w, _) = utc(2020, 6, 15, 0, 0, 0).gps_week_nanos();
    assert_eq!(w, 2110);
}

#[test]
fn round_trips_hold_to_the_nanosecond() {
    let e = Epoch::from_gregorian_nanos(TimeScale::Utc, 2026, 9, 14, 17, 33, 12, 123_456_789);
    let c = e.to_gregorian_nanos(TimeScale::Utc);
    assert_eq!((c.year, c.month, c.day, c.hour, c.minute), (2026, 9, 14, 17, 33));
    assert_eq!((c.second, c.nanosecond), (12, 123_456_789));
    // Nanosecond arithmetic is exact and Ord works.
    let later = e + Duration::from_nanos(1);
    assert!(later > e && (later - e) == Duration::from_nanos(1));
    // Scale and calendar round-trips.
    for scale in [TimeScale::Tai, TimeScale::Gps, TimeScale::Tt, TimeScale::Utc] {
        let c = e.to_gregorian_nanos(scale);
        let back = Epoch::from_gregorian_nanos(
            scale,
            c.year,
            c.month as i64,
            c.day as i64,
            c.hour as i64,
            c.minute as i64,
            c.second as i64,
            c.nanosecond as i128,
        );
        assert!((back - e).abs() <= Duration::from_nanos(1), "{scale:?}");
        assert_eq!(back, e);
    }
}

#[test]
fn durations_convert_and_compose() {
    assert_eq!(Duration::day(), Duration::from_nanos(Duration::hour().total_nanoseconds() * 24));
    assert_eq!(Duration::julian_year().total_nanoseconds(), 36_525 * 864 * NS);
    assert_eq!(seconds(1).total_nanoseconds(), 1_000_000_000);
    assert_eq!((-Duration::second()).signum(), -1);
    assert_eq!(Duration::from_millis(1_500).total_nanoseconds(), 1_500_000_000);
    assert_eq!(Duration::from_micros(-7).total_nanoseconds(), -7_000);
    assert_eq!(Duration::week(), Duration::day() + Duration::day() + Duration::day() + Duration::day()
        + Duration::day() + Duration::day() + Duration::day());
    assert_eq!(Duration::minute() - Duration::second(), seconds(59));
}

#[test]
fn duration_sign_and_size() {
    let d = Duration::from_nanos(-5);
    assert_eq!(d.abs(), Duration::from_nanos(5));
    assert_eq!(d.signum(), -1);
    assert_eq!(Duration::zero().signum(), 0);
    assert!(Duration::zero().is_zero());
    assert!(!d.is_zero());
    assert_eq!(Duration::from_nanos(7).signum(), 1);
    assert!(Duration::from_nanos(-5) < Duration::zero());
    assert_eq!(Duration::default(), Duration::zero());
}

#[test]
fn epoch_arithmetic_is_exact() {
    let e = utc(2026, 3, 14, 9, 30, 0);
    let f = utc(2031, 11, 2, 4, 5, 6);
    let d = Duration::from_nanos(123_456_789_012_345);
    assert_eq!((e + d) - e, d);
    assert_eq!((e + d) - d, e);
    assert_eq!(e + (f - e), f);
    assert_eq!(e.duration_since(f), e - f);
    assert!(e < f);
}

#[test]
fn utc_readings_round_trip_across_a_leap_second() {
    // Every UTC nanosecond count maps to an instant that reads back the same count, on both sides
    // of the 2016-12-31 leap second.
    let step = utc(2017, 1, 1, 0, 0, 0).to_scale_nanos(TimeScale::Utc);
    for n in [step - 2 * NS, step - 1, step, step + 1, step + NS] {
        let e = Epoch::from_scale_nanos(TimeScale::Utc, n);
        assert_eq!(e.to_scale_nanos(TimeScale::Utc), n);
    }
    // The inserted second is 23:59:60 on the calendar, one second after 23:59:59 and one before
    // midnight: across the leap UTC advanced one second while TAI advanced two.
    let before = utc(2016, 12, 31, 23, 59, 59);
    let inserted = utc(2016, 12, 31, 23, 59, 60);
    let midnight = utc(2017, 1, 1, 0, 0, 0);
    assert_eq!(inserted - before, seconds(1));
    assert_eq!(midnight - inserted, seconds(1));
    assert_eq!(midnight - before, seconds(2));
    // A count, like Unix time, has no label of its own for the inserted second.
    assert_eq!(inserted.to_scale_nanos(TimeScale::Utc), step);
}

#[test]
fn calendar_round_trips_through_a_leap_second() {
    let half = Duration::from_nanos(NS / 2);
    let inside = utc(2016, 12, 31, 23, 59, 60) + half;
    let c = inside.to_gregorian_nanos(TimeScale::Utc);
    assert_eq!(
        (c.year, c.month, c.day, c.hour, c.minute, c.second, c.nanosecond),
        (2016, 12, 31, 23, 59, 60, 500_000_000)
    );
    // Every instant around the leap reads back to itself through the calendar.
    for e in [
        utc(2016, 12, 31, 23, 59, 59) + half,
        inside,
        utc(2017, 1, 1, 0, 0, 0) + half,
        utc(2015, 6, 30, 23, 59, 60),
    ] {
        let c = e.to_gregorian_nanos(TimeScale::Utc);
        let back = Epoch::from_gregorian_nanos(
            TimeScale::Utc,
            c.year,
            c.month as i64,
            c.day as i64,
            c.hour as i64,
            c.minute as i64,
            c.second as i64,
            c.nanosecond as i128,
        );
        assert_eq!(back, e);
    }
    // Second 60 on a day without a leap second is the next minute, as before.
    assert_eq!(utc(2016, 6, 30, 23, 59, 60), utc(2016, 7, 1, 0, 0, 0));
    assert_eq!(utc(2016, 12, 31, 12, 30, 60), utc(2016, 12, 31, 12, 31, 0));
}

#[test]
fn window_duration_needs_both_ends() {
    let open = utc(2026, 7, 1, 19, 0, 0);
    let w = TimeWindow::for_duration(open, hours(3));
    assert_eq!(w.duration(), Some(hours(3)));
    assert_eq!(TimeWindow::from(open).duration(), None);
    assert_eq!(TimeWindow::until(open).duration(), None);
    assert_eq!(TimeWindow::unbounded().duration(), None);
}

#[test]
fn tai_minus_utc_never_decreases() {
    let mut last = 0;
    let mut t = utc(1970, 1, 1, 0, 0, 0);
    let stop = utc(2030, 1, 1, 0, 0, 0);
    while t < stop {
        let l = t.tai_minus_utc_seconds();
        assert!(l >= last);
        assert!((10..=37).contains(&l));
        last = l;
        t = t + Duration::from_nanos(30 * 86_400 * NS);
    }
    assert_eq!(last, 37);
}

#[test]
fn gps_week_round_trips() {
    let e = Epoch::from_gregorian_nanos(TimeScale::Utc, 2026, 3, 14, 9, 30, 0, 250);
    let (week, tow) = e.gps_week_nanos();
    assert_eq!(Epoch::from_gps_week_nanos(week, tow), e);
    let f = Epoch::from_gps_week_nanos(2_000, 12 * NS + 5);
    assert_eq!(f.gps_week_nanos(), (2_000, 12 * NS + 5));
    // Before the GPS epoch the week reads 0 and the time-of-week stays in range.
    let (w0, tow0) = (Epoch::gps_epoch() - Duration::second()).gps_week_nanos();
    assert_eq!((w0, tow0), (0, 604_799 * NS));
}

#[test]
fn window_overlap_holds_exactly_the_common_epochs() {
    let t0 = Epoch::from_unix_nanos(1_700_000_000 * NS);
    let a = TimeWindow::between(t0, t0 + hours(3));
    let b = TimeWindow::until(t0 + hours(2));
    let both = a.intersect(&b).unwrap();
    assert_eq!(both, TimeWindow::between(t0, t0 + hours(2)));
    for k in -2..6 {
        let e = t0 + hours(k);
        assert_eq!(both.contains(e), a.contains(e) && b.contains(e));
    }
    assert!(a.overlaps(&b));
    let c = TimeWindow::from(t0 + hours(3));
    assert!(!a.overlaps(&c)); // end exclusive: they only touch
    assert_eq!(a.duration(), Some(hours(3)));
    assert_eq!(b.duration(), None);
    assert_eq!(TimeWindow::new(None, None), TimeWindow::unbounded());
    assert_eq!(TimeWindow::default(), TimeWindow::unbounded());
}

#[test]
fn clamp_moves_an_epoch_to_the_nearer_bound() {
    let t0 = Epoch::from_unix_nanos(0);
    let w = TimeWindow::until(t0);
    assert_eq!(w.clamp(t0 + Duration::second()), t0);
    assert_eq!(w.clamp(t0 - Duration::second()), t0 - Duration::second());
    let from = TimeWindow::from(t0);
    assert_eq!(from.clamp(t0 - Duration::second()), t0);
    assert_eq!(TimeWindow::unbounded().clamp(t0), t0);
}
