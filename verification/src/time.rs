//! High-precision time: [`Duration`], [`Epoch`] and the [`TimeScale`]s.
//!
//! A [`Duration`] is a signed span of whole nanoseconds; an [`Epoch`] is one instant, stored as
//! nanoseconds from 1970-01-01T00:00:00 on the uniform **TAI** scale, so epoch arithmetic is plain
//! integer arithmetic. Leap seconds, scale offsets and calendars are applied only at the boundary:
//!
//! - `TT = TAI + 32.184 s`,
//! - `GPS = TAI − 19 s`,
//! - `UTC = TAI − (leap seconds)`, the IERS step function (see [`crate::leap`]).
use core::cmp::Ordering;
use core::ops::{Add, Neg, Sub};
use vstd::prelude::*;
use vstd::std_specs::cmp::PartialOrdSpecImpl;
use vstd::std_specs::ops::{AddSpecImpl, NegSpecImpl, SubSpecImpl};

use crate::calendar::{
    civil_day_number, civil_day_number_fits, civil_from_days, days_from_civil, fits_i64,
    is_valid_date,
};
use crate::leap::{
    in_inserted_leap_second, in_leap_second, leap_at_tai, leap_at_unix, leap_secs_at_tai,
    leap_secs_at_unix, NS_PER_SEC, SEC_PER_DAY,
};

verus! {

/// `TT − TAI`, nanoseconds (32.184 s exactly).
pub const TT_MINUS_TAI_NS: i128 = 32_184_000_000;

/// `TAI − GPS`, nanoseconds (19 s exactly).
pub const TAI_MINUS_GPS_NS: i128 = 19_000_000_000;

/// The GPS epoch (1980-01-06T00:00:00 UTC) as Unix seconds.
pub const GPS_EPOCH_UNIX: i64 = 315_964_800;

/// Seconds per week.
pub const SEC_PER_WEEK: i64 = 604_800;

pub open spec fn fits_i128(x: int) -> bool {
    i128::MIN <= x <= i128::MAX
}

/// A time scale that [`Epoch`]s convert to and from at the API. The internal storage is always TAI.
#[derive(Clone, Copy, Debug, Eq, PartialEq, Structural, Hash)]
pub enum TimeScale {
    /// International Atomic Time — the uniform reference; no leap seconds.
    Tai,
    /// GPS Time — `TAI − 19 s`; no leap seconds. Epoch 1980-01-06T00:00:00 UTC.
    Gps,
    /// Terrestrial Time — `TAI + 32.184 s`; the scale J2000 and planetary ephemerides use.
    Tt,
    /// Coordinated Universal Time — `TAI − (leap seconds)`. Unix time is UTC seconds since 1970.
    Utc,
}

// ── Duration ─────────────────────────────────────────────────────────────────────────────────────

/// A signed span of time, stored as whole nanoseconds: exact, `Ord`, and never drifting.
#[derive(Clone, Copy, Debug, Default, Eq, PartialEq, Structural, Ord, Hash)]
pub struct Duration {
    nanos: i128,
}

impl View for Duration {
    type V = int;

    /// The span in nanoseconds.
    closed spec fn view(&self) -> int {
        self.nanos as int
    }
}

impl Duration {
    /// The zero span.
    pub fn zero() -> (d: Duration)
        ensures
            d@ == 0,
    {
        Duration { nanos: 0 }
    }

    /// One second.
    pub fn second() -> (d: Duration)
        ensures
            d@ == NS_PER_SEC,
    {
        Duration { nanos: NS_PER_SEC }
    }

    /// One minute (60 s).
    pub fn minute() -> (d: Duration)
        ensures
            d@ == 60 * NS_PER_SEC,
    {
        Duration { nanos: 60 * NS_PER_SEC }
    }

    /// One hour (3600 s).
    pub fn hour() -> (d: Duration)
        ensures
            d@ == 3_600 * NS_PER_SEC,
    {
        Duration { nanos: 3_600 * NS_PER_SEC }
    }

    /// One day (86 400 s).
    pub fn day() -> (d: Duration)
        ensures
            d@ == SEC_PER_DAY * NS_PER_SEC,
    {
        Duration { nanos: SEC_PER_DAY as i128 * NS_PER_SEC }
    }

    /// One week (7 days).
    pub fn week() -> (d: Duration)
        ensures
            d@ == 7 * SEC_PER_DAY * NS_PER_SEC,
    {
        Duration { nanos: 7 * SEC_PER_DAY as i128 * NS_PER_SEC }
    }

    /// One Julian year — 365.25 days exactly, the year geodetic rates are quoted per.
    pub fn julian_year() -> (d: Duration)
        ensures
            d@ == 31_557_600 * NS_PER_SEC,
    {
        Duration { nanos: 31_557_600 * NS_PER_SEC }
    }

    /// From an exact number of nanoseconds.
    pub fn from_nanos(nanos: i128) -> (d: Duration)
        ensures
            d@ == nanos,
    {
        Duration { nanos }
    }

    /// From microseconds.
    pub fn from_micros(micros: i128) -> (d: Duration)
        requires
            fits_i128(micros * 1_000),
        ensures
            d@ == micros * 1_000,
    {
        Duration { nanos: micros * 1_000 }
    }

    /// From milliseconds.
    pub fn from_millis(millis: i128) -> (d: Duration)
        requires
            fits_i128(millis * 1_000_000),
        ensures
            d@ == millis * 1_000_000,
    {
        Duration { nanos: millis * 1_000_000 }
    }

    /// The exact whole-nanosecond count.
    pub fn total_nanoseconds(self) -> (n: i128)
        ensures
            n == self@,
    {
        self.nanos
    }

    /// The absolute value.
    pub fn abs(self) -> (d: Duration)
        requires
            self@ != i128::MIN,
        ensures
            d@ == if self@ < 0 { -self@ } else { self@ },
    {
        if self.nanos < 0 {
            Duration { nanos: -self.nanos }
        } else {
            self
        }
    }

    /// −1, 0 or 1 as the span is negative, zero or positive.
    pub fn signum(self) -> (s: i32)
        ensures
            s == if self@ < 0 { -1int } else if self@ == 0 { 0int } else { 1int },
    {
        if self.nanos < 0 {
            -1
        } else if self.nanos == 0 {
            0
        } else {
            1
        }
    }

    /// Whether the span is zero.
    pub fn is_zero(self) -> (z: bool)
        ensures
            z == (self@ == 0),
    {
        self.nanos == 0
    }
}

impl Add for Duration {
    type Output = Duration;

    fn add(self, o: Duration) -> (d: Duration)
        ensures
            d@ == self@ + o@,
    {
        Duration { nanos: self.nanos + o.nanos }
    }
}

impl AddSpecImpl for Duration {
    open spec fn obeys_add_spec() -> bool {
        true
    }

    open spec fn add_req(self, o: Duration) -> bool {
        fits_i128(self@ + o@)
    }

    closed spec fn add_spec(self, o: Duration) -> Duration {
        Duration { nanos: (self.nanos + o.nanos) as i128 }
    }
}

impl Sub for Duration {
    type Output = Duration;

    fn sub(self, o: Duration) -> (d: Duration)
        ensures
            d@ == self@ - o@,
    {
        Duration { nanos: self.nanos - o.nanos }
    }
}

impl SubSpecImpl for Duration {
    open spec fn obeys_sub_spec() -> bool {
        true
    }

    open spec fn sub_req(self, o: Duration) -> bool {
        fits_i128(self@ - o@)
    }

    closed spec fn sub_spec(self, o: Duration) -> Duration {
        Duration { nanos: (self.nanos - o.nanos) as i128 }
    }
}

impl Neg for Duration {
    type Output = Duration;

    fn neg(self) -> (d: Duration)
        ensures
            d@ == -self@,
    {
        Duration { nanos: -self.nanos }
    }
}

impl NegSpecImpl for Duration {
    open spec fn obeys_neg_spec() -> bool {
        true
    }

    open spec fn neg_req(self) -> bool {
        self@ != i128::MIN
    }

    closed spec fn neg_spec(self) -> Duration {
        Duration { nanos: (-self.nanos) as i128 }
    }
}


// ── Epoch ────────────────────────────────────────────────────────────────────────────────────────

/// One instant in time, to the nanosecond, stored on the uniform TAI scale so that comparisons and
/// differences are exact integer operations regardless of leap seconds.
///
/// `Epoch − Epoch` is a [`Duration`]; `Epoch ± Duration` is an [`Epoch`]; epochs are `Ord`.
#[derive(Clone, Copy, Debug, Eq, PartialEq, Structural, Ord, Hash)]
pub struct Epoch {
    /// Nanoseconds from 1970-01-01T00:00:00 TAI.
    tai_ns: i128,
}

impl Epoch {
    /// An epoch is its nanosecond count: two epochs are equal exactly when their counts are.
    pub proof fn lemma_view_determines(a: Epoch, b: Epoch)
        ensures
            (a@ == b@) == (a == b),
    {
    }

    /// The nanosecond count of an epoch fits in an `i128`.
    pub proof fn lemma_view_fits(e: Epoch)
        ensures
            fits_i128(e@),
    {
    }
}

impl Duration {
    /// A span is its nanosecond count: two spans are equal exactly when their counts are.
    pub proof fn lemma_view_determines(a: Duration, b: Duration)
        ensures
            (a@ == b@) == (a == b),
    {
    }

    /// The nanosecond count of a span fits in an `i128`.
    pub proof fn lemma_view_fits(d: Duration)
        ensures
            fits_i128(d@),
    {
    }
}

impl View for Epoch {
    type V = int;

    /// Nanoseconds from 1970-01-01T00:00:00 TAI.
    closed spec fn view(&self) -> int {
        self.tai_ns as int
    }
}

/// The whole second that nanosecond count `n` falls in, as the `i64` the conversions keep it in.
pub open spec fn whole_second_of(n: int) -> int {
    ((n / NS_PER_SEC as int) as i64) as int
}

/// The TAI nanosecond count of the instant that reads `n` nanoseconds on `scale` (counted from that
/// scale's 1970-01-01T00:00:00).
pub open spec fn tai_from_scale(scale: TimeScale, n: int) -> int {
    match scale {
        TimeScale::Tai => n,
        TimeScale::Tt => n - TT_MINUS_TAI_NS,
        TimeScale::Gps => n + TAI_MINUS_GPS_NS,
        TimeScale::Utc => n + leap_at_unix(whole_second_of(n)) * NS_PER_SEC,
    }
}

/// The reading, in nanoseconds on `scale`, of the instant `t` nanoseconds after the TAI origin.
pub open spec fn scale_from_tai(scale: TimeScale, t: int) -> int {
    match scale {
        TimeScale::Tai => t,
        TimeScale::Tt => t + TT_MINUS_TAI_NS,
        TimeScale::Gps => t - TAI_MINUS_GPS_NS,
        TimeScale::Utc => t - leap_at_tai(t) * NS_PER_SEC,
    }
}

/// Whether the reading of TAI instant `t` on `scale` is a UTC leap second, labelled `23:59:60`.
pub open spec fn labels_leap_second(scale: TimeScale, t: int) -> bool {
    scale == TimeScale::Utc && in_inserted_leap_second(t)
}

/// The nanosecond count the calendar reading of TAI instant `t` on `scale` is taken from: the
/// scale reading, or for a UTC leap second the reading one second earlier (`23:59:59`), whose
/// second is then labelled 60.
pub open spec fn calendar_reading(scale: TimeScale, t: int) -> int {
    if labels_leap_second(scale, t) {
        scale_from_tai(scale, t) - NS_PER_SEC
    } else {
        scale_from_tai(scale, t)
    }
}

/// Whether `c` is the calendar reading of TAI instant `t` on `scale`: the valid date whose day
/// number is the whole-day part of the reading, the time of day and the nanosecond — the second
/// labelled 60 in a UTC leap second.
pub open spec fn calendar_reads(scale: TimeScale, t: int, c: CalendarTime) -> bool {
    let n = calendar_reading(scale, t);
    let secs = whole_second_of(n);
    let sod = secs % SEC_PER_DAY as int;
    &&& is_valid_date(c.year as int, c.month as int, c.day as int)
    &&& civil_day_number(c.year as int, c.month as int, c.day as int) == secs / SEC_PER_DAY as int
    &&& c.hour == sod / 3_600
    &&& c.minute == (sod % 3_600) / 60
    &&& c.second == if labels_leap_second(scale, t) {
        60
    } else {
        sod % 60
    }
    &&& c.nanosecond == n % NS_PER_SEC as int
}

/// The TAI nanosecond count of a calendar date and time on `scale`. A UTC second 60 is the second
/// after 23:59:59 on the TAI count: the inserted leap second at a leap step, else the next minute.
pub open spec fn tai_from_calendar(
    scale: TimeScale,
    year: int,
    month: int,
    day: int,
    hour: int,
    minute: int,
    second: int,
    nanosecond: int,
) -> int {
    let n = calendar_seconds(year, month, day, hour, minute, second) * NS_PER_SEC + nanosecond;
    if scale == TimeScale::Utc && second == 60 {
        tai_from_scale(scale, n - NS_PER_SEC) + NS_PER_SEC
    } else {
        tai_from_scale(scale, n)
    }
}

/// Seconds from 1970-01-01T00:00:00 to a calendar date and time of day on the same scale.
pub open spec fn calendar_seconds(
    year: int,
    month: int,
    day: int,
    hour: int,
    minute: int,
    second: int,
) -> int {
    civil_day_number(year, month, day) * SEC_PER_DAY + hour * 3_600 + minute * 60 + second
}

/// Every intermediate of the calendar-to-seconds sum fits in an `i64`.
pub open spec fn calendar_seconds_fit(
    year: int,
    month: int,
    day: int,
    hour: int,
    minute: int,
    second: int,
) -> bool {
    let days = civil_day_number(year, month, day);
    &&& civil_day_number_fits(year, month, day)
    &&& fits_i64(days * SEC_PER_DAY)
    &&& fits_i64(hour * 3_600)
    &&& fits_i64(minute * 60)
    &&& fits_i64(days * SEC_PER_DAY + hour * 3_600)
    &&& fits_i64(days * SEC_PER_DAY + hour * 3_600 + minute * 60)
    &&& fits_i64(calendar_seconds(year, month, day, hour, minute, second))
}

/// Nanoseconds from the GPS epoch, on the GPS scale, of the instant `t` nanoseconds after the TAI
/// origin.
pub open spec fn gps_nanos(t: int) -> int {
    t - TAI_MINUS_GPS_NS - GPS_EPOCH_UNIX * NS_PER_SEC
}

/// Nanoseconds per week.
pub open spec fn week_nanos() -> int {
    SEC_PER_WEEK * NS_PER_SEC
}

/// A calendar date and time of day on some time scale.
#[derive(Clone, Copy, Debug, Eq, PartialEq, Structural, Hash)]
pub struct CalendarTime {
    /// The year (proleptic Gregorian; year 0 is 1 BC).
    pub year: i64,
    /// The month, 1 to 12.
    pub month: u8,
    /// The day of the month, from 1.
    pub day: u8,
    /// The hour, 0 to 23.
    pub hour: u8,
    /// The minute, 0 to 59.
    pub minute: u8,
    /// The second, 0 to 59, or 60 in a UTC leap second.
    pub second: u8,
    /// The nanosecond within the second, 0 to 999 999 999.
    pub nanosecond: u32,
}

impl Epoch {
    /// The J2000.0 epoch: 2000-01-01T12:00:00 TT (Julian Date 2451545.0 TT).
    pub fn j2000() -> (e: Epoch)
        ensures
            e@ == (civil_day_number(2000, 1, 1) * SEC_PER_DAY + 43_200) * NS_PER_SEC - TT_MINUS_TAI_NS,
    {
        Epoch { tai_ns: 946_727_967_816_000_000 }
    }

    /// The Unix epoch, 1970-01-01T00:00:00 UTC (`TAI − UTC` is taken as 10 s there).
    pub fn unix_epoch() -> (e: Epoch)
        ensures
            e@ == 10 * NS_PER_SEC,
    {
        Epoch { tai_ns: 10 * NS_PER_SEC }
    }

    /// The GPS epoch, 1980-01-06T00:00:00 UTC (GPS week 0, time-of-week 0).
    pub fn gps_epoch() -> (e: Epoch)
        ensures
            e@ == (GPS_EPOCH_UNIX + 19) * NS_PER_SEC,
            GPS_EPOCH_UNIX == civil_day_number(1980, 1, 6) * SEC_PER_DAY,
    {
        Epoch { tai_ns: (GPS_EPOCH_UNIX as i128 + 19) * NS_PER_SEC }
    }

    /// From nanoseconds on the given scale, measured from that scale's 1970-01-01T00:00:00.
    pub fn from_scale_nanos(scale: TimeScale, nanos: i128) -> (e: Epoch)
        requires
            fits_i128(tai_from_scale(scale, nanos as int)),
        ensures
            e@ == tai_from_scale(scale, nanos as int),
    {
        let tai_ns = match scale {
            TimeScale::Tai => nanos,
            TimeScale::Tt => nanos - TT_MINUS_TAI_NS,
            TimeScale::Gps => nanos + TAI_MINUS_GPS_NS,
            TimeScale::Utc => {
                let unix_s = nanos.checked_div_euclid(NS_PER_SEC).unwrap() as i64;
                let leap = leap_secs_at_unix(unix_s);
                nanos + leap as i128 * NS_PER_SEC
            },
        };
        Epoch { tai_ns }
    }

    /// From Unix time in exact nanoseconds (UTC nanoseconds since 1970-01-01T00:00:00).
    pub fn from_unix_nanos(nanos: i128) -> (e: Epoch)
        requires
            fits_i128(tai_from_scale(TimeScale::Utc, nanos as int)),
        ensures
            e@ == tai_from_scale(TimeScale::Utc, nanos as int),
    {
        Epoch::from_scale_nanos(TimeScale::Utc, nanos)
    }

    /// From a calendar date and time on the given scale: month and day 1-based, whole seconds and a
    /// nanosecond part. Exact to the nanosecond. On UTC, second 60 of `23:59` at a leap step is the
    /// inserted leap second.
    pub fn from_gregorian_nanos(
        scale: TimeScale,
        year: i64,
        month: i64,
        day: i64,
        hour: i64,
        minute: i64,
        second: i64,
        nanosecond: i128,
    ) -> (e: Epoch)
        requires
            calendar_seconds_fit(
                year as int,
                month as int,
                day as int,
                hour as int,
                minute as int,
                second as int,
            ),
            fits_i128(
                calendar_seconds(
                    year as int,
                    month as int,
                    day as int,
                    hour as int,
                    minute as int,
                    second as int,
                ) * NS_PER_SEC + nanosecond,
            ),
            scale == TimeScale::Utc && second == 60 ==> fits_i128(
                calendar_seconds(
                    year as int,
                    month as int,
                    day as int,
                    hour as int,
                    minute as int,
                    second as int,
                ) * NS_PER_SEC + nanosecond - NS_PER_SEC,
            ),
            fits_i128(
                tai_from_calendar(
                    scale,
                year as int,
                month as int,
                day as int,
                hour as int,
                minute as int,
                second as int,
                    nanosecond as int,
                ),
            ),
        ensures
            e@ == tai_from_calendar(
                scale,
                year as int,
                month as int,
                day as int,
                hour as int,
                minute as int,
                second as int,
                nanosecond as int,
            ),
            scale != TimeScale::Utc || second != 60 ==> e@ == tai_from_scale(
                scale,
                calendar_seconds(
                    year as int,
                    month as int,
                    day as int,
                    hour as int,
                    minute as int,
                    second as int,
                ) * NS_PER_SEC + nanosecond,
            ),
    {
        let days = days_from_civil(year, month, day);
        let whole = days * SEC_PER_DAY + hour * 3_600 + minute * 60 + second;
        let n = whole as i128 * NS_PER_SEC + nanosecond;
        match scale {
            TimeScale::Utc if second == 60 => {
                proof {
                    crate::leap::lemma_leap_bounds(whole_second_of(n - NS_PER_SEC), 0);
                }
                let before = Epoch::from_scale_nanos(scale, n - NS_PER_SEC);
                before + Duration::second()
            },
            _ => Epoch::from_scale_nanos(scale, n),
        }
    }

    /// From a GPS week number (continuous, not the 1024-week rollover value) and a time-of-week in
    /// nanoseconds.
    pub fn from_gps_week_nanos(week: u32, tow_nanos: i128) -> (e: Epoch)
        requires
            fits_i128(week * week_nanos() + tow_nanos + GPS_EPOCH_UNIX * NS_PER_SEC),
            fits_i128(week * week_nanos() + tow_nanos + GPS_EPOCH_UNIX * NS_PER_SEC + TAI_MINUS_GPS_NS),
        ensures
            gps_nanos(e@) == week * week_nanos() + tow_nanos,
    {
        let week_ns: i128 = 604_800_000_000_000;
        assert(week_ns == week_nanos());
        let gps = week as i128 * week_ns + GPS_EPOCH_UNIX as i128 * NS_PER_SEC + tow_nanos;
        Epoch::from_scale_nanos(TimeScale::Gps, gps)
    }

    /// The span since another epoch (`self − other`).
    pub fn duration_since(self, other: Epoch) -> (d: Duration)
        requires
            fits_i128(self@ - other@),
        ensures
            d@ == self@ - other@,
    {
        Duration { nanos: self.tai_ns - other.tai_ns }
    }

    /// `TAI − UTC`, the whole leap-second count in effect at this instant.
    pub fn tai_minus_utc_seconds(self) -> (leap: i64)
        ensures
            leap == leap_at_tai(self@),
    {
        leap_secs_at_tai(self.tai_ns)
    }

    /// This instant as nanoseconds on the given scale, from that scale's 1970-01-01T00:00:00.
    pub fn to_scale_nanos(self, scale: TimeScale) -> (n: i128)
        requires
            fits_i128(scale_from_tai(scale, self@)),
        ensures
            n == scale_from_tai(scale, self@),
    {
        match scale {
            TimeScale::Tai => self.tai_ns,
            TimeScale::Tt => self.tai_ns + TT_MINUS_TAI_NS,
            TimeScale::Gps => self.tai_ns - TAI_MINUS_GPS_NS,
            TimeScale::Utc => self.tai_ns - leap_secs_at_tai(self.tai_ns) as i128 * NS_PER_SEC,
        }
    }

    /// GPS week number (continuous) and time-of-week in nanoseconds. Before the GPS epoch the week
    /// reads 0 (and it stops at `u32::MAX`); the time-of-week is always in `[0, 1 week)`.
    pub fn gps_week_nanos(self) -> (wt: (u32, i128))
        requires
            fits_i128(gps_nanos(self@)),
        ensures
            wt.0 == if gps_nanos(self@) / week_nanos() < 0 {
                0
            } else if gps_nanos(self@) / week_nanos() > u32::MAX {
                u32::MAX as int
            } else {
                gps_nanos(self@) / week_nanos()
            },
            wt.1 == gps_nanos(self@) % week_nanos(),
    {
        let g = self.to_scale_nanos(TimeScale::Gps) - GPS_EPOCH_UNIX as i128 * NS_PER_SEC;
        let week_ns: i128 = 604_800_000_000_000;
        assert(week_ns == week_nanos());
        assert(i128::MIN <= g / week_ns <= i128::MAX) by (nonlinear_arith)
            requires
                i128::MIN <= g <= i128::MAX,
                week_ns == 604_800_000_000_000,
        ;
        let week = g.checked_div_euclid(week_ns).unwrap();
        let tow = g.checked_rem_euclid(week_ns).unwrap();
        let week = if week < 0 {
            0
        } else if week > u32::MAX as i128 {
            u32::MAX
        } else {
            week as u32
        };
        (week, tow)
    }

    /// The calendar date and time of this instant on the given scale: the valid date whose day
    /// number is the whole-day part of the scale reading, the time of day, and the nanosecond. An
    /// inserted UTC leap second reads as `23:59:60` of the day before the step.
    pub fn to_gregorian_nanos(self, scale: TimeScale) -> (c: CalendarTime)
        requires
            fits_i128(scale_from_tai(scale, self@)),
        ensures
            calendar_reads(scale, self@, c),
            labels_leap_second(scale, self@) ==> c.hour == 23 && c.minute == 59 && c.second == 60,
            fits_i64(scale_from_tai(scale, self@) / NS_PER_SEC as int) ==> calendar_seconds(
                c.year as int,
                c.month as int,
                c.day as int,
                c.hour as int,
                c.minute as int,
                c.second as int,
            ) * NS_PER_SEC + c.nanosecond == scale_from_tai(scale, self@),
    {
        let leap = match scale {
            TimeScale::Utc => in_leap_second(self.tai_ns),
            _ => false,
        };
        let reading = self.to_scale_nanos(scale);
        proof {
            if leap {
                let i = crate::leap::lemma_inserted_leap_second(self@);
                assert(reading >= NS_PER_SEC) by (nonlinear_arith)
                    requires
                        reading >= crate::leap::leap_step_unix(i) * NS_PER_SEC,
                        crate::leap::leap_step_unix(i) > 0,
                ;
            }
        }
        let ns = if leap {
            reading - NS_PER_SEC
        } else {
            reading
        };
        let total_secs = ns.checked_div_euclid(NS_PER_SEC).unwrap() as i64;
        let frac = ns.checked_rem_euclid(NS_PER_SEC).unwrap();
        let days = total_secs.checked_div_euclid(SEC_PER_DAY).unwrap();
        let sod = total_secs.checked_rem_euclid(SEC_PER_DAY).unwrap();
        let (y, m, d) = civil_from_days(days);
        let hour = sod / 3_600;
        let minute = (sod % 3_600) / 60;
        let second = if leap {
            60
        } else {
            sod % 60
        };
        proof {
            if leap {
                lemma_leap_second_reads_end_of_day(self@);
            }
        }
        let c = CalendarTime {
            year: y,
            month: m as u8,
            day: d as u8,
            hour: hour as u8,
            minute: minute as u8,
            second: second as u8,
            nanosecond: frac as u32,
        };
        proof {
            if fits_i64(scale_from_tai(scale, self@) / NS_PER_SEC as int) {
                lemma_calendar_counts_scale(scale, self@, c);
            }
        }
        c
    }
}

/// A UTC leap second's calendar reading is the last second of its day: its whole second fits an
/// `i64` and is `23:59:59` (which the reading then labels `23:59:60`).
proof fn lemma_leap_second_reads_end_of_day(t: int)
    requires
        labels_leap_second(TimeScale::Utc, t),
    ensures
        ({
            let n = calendar_reading(TimeScale::Utc, t);
            let secs = whole_second_of(n);
            &&& secs == n / NS_PER_SEC as int
            &&& secs % SEC_PER_DAY as int == 86_399
            &&& n >= 0
        }),
{
    let i = crate::leap::lemma_inserted_leap_second(t);
    let u = crate::leap::leap_step_unix(i);
    let n = calendar_reading(TimeScale::Utc, t);
    assert(u * NS_PER_SEC - NS_PER_SEC <= n < u * NS_PER_SEC);
    vstd::arithmetic::div_mod::lemma_fundamental_div_mod(u, SEC_PER_DAY as int);
    vstd::arithmetic::div_mod::lemma_fundamental_div_mod_converse(
        n,
        NS_PER_SEC as int,
        u - 1,
        n - (u - 1) * NS_PER_SEC,
    );
    vstd::arithmetic::div_mod::lemma_fundamental_div_mod_converse(
        u - 1,
        SEC_PER_DAY as int,
        u / SEC_PER_DAY as int - 1,
        86_399,
    );
}

impl Add<Duration> for Epoch {
    type Output = Epoch;

    fn add(self, d: Duration) -> (e: Epoch)
        ensures
            e@ == self@ + d@,
    {
        Epoch { tai_ns: self.tai_ns + d.total_nanoseconds() }
    }
}

impl AddSpecImpl<Duration> for Epoch {
    open spec fn obeys_add_spec() -> bool {
        true
    }

    open spec fn add_req(self, d: Duration) -> bool {
        fits_i128(self@ + d@)
    }

    closed spec fn add_spec(self, d: Duration) -> Epoch {
        Epoch { tai_ns: (self.tai_ns + d@) as i128 }
    }
}

impl Sub<Duration> for Epoch {
    type Output = Epoch;

    fn sub(self, d: Duration) -> (e: Epoch)
        ensures
            e@ == self@ - d@,
    {
        Epoch { tai_ns: self.tai_ns - d.total_nanoseconds() }
    }
}

impl SubSpecImpl<Duration> for Epoch {
    open spec fn obeys_sub_spec() -> bool {
        true
    }

    open spec fn sub_req(self, d: Duration) -> bool {
        fits_i128(self@ - d@)
    }

    closed spec fn sub_spec(self, d: Duration) -> Epoch {
        Epoch { tai_ns: (self.tai_ns - d@) as i128 }
    }
}

impl Sub<Epoch> for Epoch {
    type Output = Duration;

    fn sub(self, o: Epoch) -> (d: Duration)
        ensures
            d@ == self@ - o@,
    {
        self.duration_since(o)
    }
}

impl SubSpecImpl<Epoch> for Epoch {
    open spec fn obeys_sub_spec() -> bool {
        true
    }

    open spec fn sub_req(self, o: Epoch) -> bool {
        fits_i128(self@ - o@)
    }

    closed spec fn sub_spec(self, o: Epoch) -> Duration {
        Duration { nanos: (self.tai_ns - o.tai_ns) as i128 }
    }
}

/// The order of two nanosecond counts.
pub open spec fn order_of(a: int, b: int) -> Ordering {
    if a < b {
        Ordering::Less
    } else if a == b {
        Ordering::Equal
    } else {
        Ordering::Greater
    }
}

impl PartialOrd for Duration {
    fn partial_cmp(&self, other: &Duration) -> (r: Option<Ordering>) {
        if self.nanos < other.nanos {
            Some(Ordering::Less)
        } else if self.nanos == other.nanos {
            Some(Ordering::Equal)
        } else {
            Some(Ordering::Greater)
        }
    }
}

impl PartialOrdSpecImpl for Duration {
    open spec fn obeys_partial_cmp_spec() -> bool {
        true
    }

    open spec fn partial_cmp_spec(&self, other: &Duration) -> Option<Ordering> {
        Some(order_of(self@, other@))
    }
}

impl PartialOrd for Epoch {
    fn partial_cmp(&self, other: &Epoch) -> (r: Option<Ordering>) {
        if self.tai_ns < other.tai_ns {
            Some(Ordering::Less)
        } else if self.tai_ns == other.tai_ns {
            Some(Ordering::Equal)
        } else {
            Some(Ordering::Greater)
        }
    }
}

impl PartialOrdSpecImpl for Epoch {
    open spec fn obeys_partial_cmp_spec() -> bool {
        true
    }

    open spec fn partial_cmp_spec(&self, other: &Epoch) -> Option<Ordering> {
        Some(order_of(self@, other@))
    }
}

// ── TimeWindow ───────────────────────────────────────────────────────────────────────────────────

/// A span of time `[start, end)` between two [`Epoch`]s, either end optionally open (`None`): the
/// temporal half of 4D geofencing and the search bound for conflict prediction.
#[derive(Clone, Copy, Debug, Default, Eq, PartialEq, Hash)]
pub struct TimeWindow {
    /// The start, inclusive; `None` = open (unbounded in the past).
    pub start: Option<Epoch>,
    /// The end, exclusive; `None` = open (unbounded in the future).
    pub end: Option<Epoch>,
}

impl TimeWindow {
    /// Whether `e` lies in `[start, end)`, an open end bounding nothing.
    pub open spec fn includes(self, e: Epoch) -> bool {
        (self.start matches Some(s) ==> s@ <= e@) && (self.end matches Some(x) ==> e@ < x@)
    }

    /// A window between two optional bounds.
    pub fn new(start: Option<Epoch>, end: Option<Epoch>) -> (w: TimeWindow)
        ensures
            w.start == start,
            w.end == end,
    {
        TimeWindow { start, end }
    }

    /// A closed window `[start, end)`.
    pub fn between(start: Epoch, end: Epoch) -> (w: TimeWindow)
        ensures
            w.start == Some(start),
            w.end == Some(end),
    {
        TimeWindow::new(Some(start), Some(end))
    }

    /// A window from `start` running for `duration`.
    pub fn for_duration(start: Epoch, duration: Duration) -> (w: TimeWindow)
        requires
            fits_i128(start@ + duration@),
        ensures
            w.start == Some(start),
            w.end matches Some(e) && e@ == start@ + duration@,
    {
        TimeWindow::between(start, start + duration)
    }

    /// Everything at or after `start`.
    pub fn from(start: Epoch) -> (w: TimeWindow)
        ensures
            w.start == Some(start),
            w.end is None,
    {
        TimeWindow::new(Some(start), None)
    }

    /// Everything before `end`.
    pub fn until(end: Epoch) -> (w: TimeWindow)
        ensures
            w.start is None,
            w.end == Some(end),
    {
        TimeWindow::new(None, Some(end))
    }

    /// The all-of-time window (both ends open).
    pub fn unbounded() -> (w: TimeWindow)
        ensures
            w.start is None,
            w.end is None,
            forall|e: Epoch| w.includes(e),
    {
        TimeWindow::new(None, None)
    }

    /// Whether an epoch is inside `[start, end)`.
    pub fn contains(&self, epoch: Epoch) -> (b: bool)
        ensures
            b == self.includes(epoch),
    {
        let after_start = match self.start {
            Some(s) => epoch >= s,
            None => true,
        };
        let before_end = match self.end {
            Some(e) => epoch < e,
            None => true,
        };
        after_start && before_end
    }

    /// `e` raised to the start if it is before it, then lowered to the end if it is after it.
    pub open spec fn clamp_spec(self, e: Epoch) -> Epoch {
        let raised = match self.start {
            Some(s) => if e@ < s@ { s } else { e },
            None => e,
        };
        match self.end {
            Some(x) => if raised@ > x@ { x } else { raised },
            None => raised,
        }
    }

    /// The epoch clamped into the window (unchanged if already inside; the nearer bound otherwise).
    pub fn clamp(&self, epoch: Epoch) -> (c: Epoch)
        ensures
            c == self.clamp_spec(epoch),
            self.includes(epoch) ==> c == epoch,
            (self.end is Some && epoch@ > self.end.unwrap()@) ==> c == self.end.unwrap(),
            (self.start is Some && epoch@ < self.start.unwrap()@ && (self.end is Some
                ==> self.start.unwrap()@ <= self.end.unwrap()@)) ==> c == self.start.unwrap(),
    {
        let mut e = epoch;
        if let Some(s) = self.start {
            if e < s {
                e = s;
            }
        }
        if let Some(end) = self.end {
            if e > end {
                e = end;
            }
        }
        e
    }

    /// The length of the window, or `None` if either end is open.
    pub fn duration(&self) -> (d: Option<Duration>)
        requires
            (self.start is Some && self.end is Some) ==> fits_i128(
                self.end.unwrap()@ - self.start.unwrap()@,
            ),
        ensures
            d matches Some(x) <==> (self.start is Some && self.end is Some),
            d matches Some(x) ==> x@ == self.end.unwrap()@ - self.start.unwrap()@,
    {
        match (self.start, self.end) {
            (Some(s), Some(e)) => Some(e - s),
            _ => None,
        }
    }

    /// The overlap of two windows — the later start and the earlier end, an open end yielding to a
    /// bounded one — or `None` if it is empty.
    pub fn intersect(&self, other: &TimeWindow) -> (r: Option<TimeWindow>)
        ensures
            ({
                let start = later_start(self.start, other.start);
                let end = earlier_end(self.end, other.end);
                &&& r is None <==> (start matches Some(s) && end matches Some(e) && s@ >= e@)
                &&& r matches Some(w) ==> w.start == start && w.end == end
            }),
    {
        let start = max_opt(self.start, other.start, true);
        let end = max_opt(self.end, other.end, false);
        if let (Some(s), Some(e)) = (start, end) {
            if s >= e {
                return None;
            }
        }
        Some(TimeWindow::new(start, end))
    }

    /// Whether two windows overlap at all.
    pub fn overlaps(&self, other: &TimeWindow) -> (b: bool)
        ensures
            b == (self.intersect_spec(*other) is Some),
    {
        self.intersect(other).is_some()
    }

    /// The overlap of two windows, as [`intersect`](Self::intersect) computes it.
    pub open spec fn intersect_spec(self, other: TimeWindow) -> Option<TimeWindow> {
        let start = later_start(self.start, other.start);
        let end = earlier_end(self.end, other.end);
        if start matches Some(s) && end matches Some(e) && s@ >= e@ {
            None
        } else {
            Some(TimeWindow { start, end })
        }
    }
}

/// The later of two optional starts; an open start yields to a bounded one.
pub open spec fn later_start(a: Option<Epoch>, b: Option<Epoch>) -> Option<Epoch> {
    match (a, b) {
        (Some(x), Some(y)) => Some(if x@ > y@ { x } else { y }),
        (Some(x), None) => Some(x),
        (None, y) => y,
    }
}

/// The earlier of two optional ends; an open end yields to a bounded one.
pub open spec fn earlier_end(a: Option<Epoch>, b: Option<Epoch>) -> Option<Epoch> {
    match (a, b) {
        (Some(x), Some(y)) => Some(if x@ > y@ { y } else { x }),
        (Some(x), None) => Some(x),
        (None, y) => y,
    }
}

/// The later of two optional starts (`take_later`) or the earlier of two optional ends (not
/// `take_later`); `None` means unbounded on that side and yields to the bounded one.
fn max_opt(a: Option<Epoch>, b: Option<Epoch>, take_later: bool) -> (r: Option<Epoch>)
    ensures
        take_later ==> r == later_start(a, b),
        !take_later ==> r == earlier_end(a, b),
{
    match (a, b) {
        (Some(a), Some(b)) => Some(if (a > b) == take_later { a } else { b }),
        (Some(x), None) => Some(x),
        (None, x) => x,
    }
}

// ── Laws ─────────────────────────────────────────────────────────────────────────────────────────

/// Epoch arithmetic is exact: adding a span and taking the difference gives the span back, and an
/// epoch plus its difference to another is that other epoch.
pub proof fn lemma_epoch_arithmetic_exact(e: Epoch, d: Duration, f: Epoch)
    ensures
        (e@ + d@) - e@ == d@,
        (e@ + d@) - d@ == e@,
        e@ + (f@ - e@) == f@,
        (e@ < f@) <==> (f@ - e@ > 0),
{
}

/// The scale offsets are exact to the nanosecond: `TT − TAI = 32.184 s`, `TAI − GPS = 19 s`,
/// `TAI − UTC` = the leap seconds in effect, and so `GPS − UTC` = leap seconds − 19 s.
pub proof fn lemma_scale_offsets(t: int)
    ensures
        scale_from_tai(TimeScale::Tt, t) - scale_from_tai(TimeScale::Tai, t) == 32_184_000_000,
        scale_from_tai(TimeScale::Tai, t) - scale_from_tai(TimeScale::Gps, t) == 19_000_000_000,
        scale_from_tai(TimeScale::Tai, t) - scale_from_tai(TimeScale::Utc, t) == leap_at_tai(t)
            * NS_PER_SEC,
        scale_from_tai(TimeScale::Gps, t) - scale_from_tai(TimeScale::Utc, t) == (leap_at_tai(t)
            - 19) * NS_PER_SEC,
{
}

/// A reading on any scale, taken to TAI and read back on that scale, is unchanged — for UTC as long
/// as its whole-second count fits the `i64` the lookup keeps it in.
pub proof fn lemma_scale_round_trip(scale: TimeScale, n: int)
    requires
        scale == TimeScale::Utc ==> fits_i64(n / NS_PER_SEC as int),
    ensures
        scale_from_tai(scale, tai_from_scale(scale, n)) == n,
{
    if scale == TimeScale::Utc {
        crate::leap::lemma_leap_unix_to_tai(n);
    }
}

/// An instant read as a nanosecond count on any scale and taken back to TAI is the same instant —
/// for UTC outside an inserted leap second, which a UTC count (like Unix time) has no label for
/// (the calendar reading does: see [`lemma_gregorian_round_trip`]), and as long as the UTC
/// whole-second count fits an `i64`.
pub proof fn lemma_tai_round_trip(scale: TimeScale, t: int)
    requires
        scale == TimeScale::Utc ==> !crate::leap::in_inserted_leap_second(t),
        scale == TimeScale::Utc ==> fits_i64(scale_from_tai(scale, t) / NS_PER_SEC as int),
    ensures
        tai_from_scale(scale, scale_from_tai(scale, t)) == t,
{
    if scale == TimeScale::Utc {
        crate::leap::lemma_leap_tai_to_unix(t);
    }
}

/// The calendar fields of a reading `n` (its date, time of day and nanosecond) add back up to `n`.
proof fn lemma_calendar_round_trip(n: int, c: CalendarTime)
    requires
        fits_i64(n / NS_PER_SEC as int),
        ({
            let secs = whole_second_of(n);
            let sod = secs % SEC_PER_DAY as int;
            &&& civil_day_number(c.year as int, c.month as int, c.day as int) == secs
                / SEC_PER_DAY as int
            &&& c.hour == sod / 3_600
            &&& c.minute == (sod % 3_600) / 60
            &&& c.second == sod % 60
            &&& c.nanosecond == n % NS_PER_SEC as int
        }),
    ensures
        calendar_seconds(
            c.year as int,
            c.month as int,
            c.day as int,
            c.hour as int,
            c.minute as int,
            c.second as int,
        ) * NS_PER_SEC + c.nanosecond == n,
{
    let secs = n / NS_PER_SEC as int;
    assert(whole_second_of(n) == secs);
    let sod = secs % SEC_PER_DAY as int;
    assert(sod == c.hour * 3_600 + c.minute * 60 + c.second);
    assert(secs == (secs / SEC_PER_DAY as int) * SEC_PER_DAY + sod);
    assert(n == secs * NS_PER_SEC + n % NS_PER_SEC as int);
}

/// Calendar round trips hold to the nanosecond on every scale, inserted UTC leap seconds included:
/// the instant of an epoch's calendar reading (as `to_gregorian_nanos` gives it, and
/// `from_gregorian_nanos` takes it back) is that epoch — as long as the reading's whole seconds fit
/// the `i64` the conversion keeps them in.
pub proof fn lemma_gregorian_round_trip(scale: TimeScale, t: int, c: CalendarTime)
    requires
        fits_i64(calendar_reading(scale, t) / NS_PER_SEC as int),
        calendar_reads(scale, t, c),
    ensures
        tai_from_calendar(
            scale,
            c.year as int,
            c.month as int,
            c.day as int,
            c.hour as int,
            c.minute as int,
            c.second as int,
            c.nanosecond as int,
        ) == t,
{
    let n = calendar_reading(scale, t);
    if labels_leap_second(scale, t) {
        lemma_leap_second_reads_end_of_day(t);
        let i = crate::leap::lemma_inserted_leap_second(t);
        let u = crate::leap::leap_step_unix(i);
        let c59 = CalendarTime { second: 59, ..c };
        lemma_calendar_round_trip(n, c59);
        assert(whole_second_of(n) == u - 1);
        crate::leap::lemma_leap_bounds(u - 1, t);
    } else {
        lemma_calendar_round_trip(n, c);
        lemma_tai_round_trip(scale, t);
    }
}

/// The calendar reading of an instant on a scale counts the nanoseconds of that scale's own count
/// (`to_scale_nanos`): its date, time of day and nanosecond add up to that count, a UTC `23:59:60`
/// counting as the midnight after it.
pub proof fn lemma_calendar_counts_scale(scale: TimeScale, t: int, c: CalendarTime)
    requires
        calendar_reads(scale, t, c),
        fits_i64(scale_from_tai(scale, t) / NS_PER_SEC as int),
    ensures
        calendar_seconds(
            c.year as int,
            c.month as int,
            c.day as int,
            c.hour as int,
            c.minute as int,
            c.second as int,
        ) * NS_PER_SEC + c.nanosecond == scale_from_tai(scale, t),
{
    let n = calendar_reading(scale, t);
    if labels_leap_second(scale, t) {
        lemma_leap_second_reads_end_of_day(t);
        let c59 = CalendarTime { second: 59, ..c };
        lemma_calendar_round_trip(n, c59);
    } else {
        lemma_calendar_round_trip(n, c);
    }
}

/// GPS week and time-of-week round-trip: the reading of an epoch from a week and time-of-week is
/// that week and time-of-week, and an epoch from its own reading is the same epoch (from the GPS
/// epoch on, while the week fits a `u32`).
pub proof fn lemma_gps_week_round_trip(week: int, tow: int, t: int)
    ensures
        0 <= tow < week_nanos() ==> (week * week_nanos() + tow) / week_nanos() == week && (week
            * week_nanos() + tow) % week_nanos() == tow,
        0 <= gps_nanos(t) && gps_nanos(t) / week_nanos() <= u32::MAX ==> (gps_nanos(t)
            / week_nanos()) * week_nanos() + gps_nanos(t) % week_nanos() == gps_nanos(t),
{
    if 0 <= tow < week_nanos() {
        vstd::arithmetic::div_mod::lemma_fundamental_div_mod_converse(
            week * week_nanos() + tow,
            week_nanos(),
            week,
            tow,
        );
    }
    vstd::arithmetic::div_mod::lemma_fundamental_div_mod(gps_nanos(t), week_nanos());
    vstd::arithmetic::mul::lemma_mul_is_commutative(gps_nanos(t) / week_nanos(), week_nanos());
}

/// The overlap of two windows holds exactly the epochs that both hold; when there is none, no epoch
/// lies in both.
pub proof fn lemma_window_intersection(w1: TimeWindow, w2: TimeWindow, e: Epoch)
    ensures
        w1.intersect_spec(w2) matches Some(w) ==> (w.includes(e) <==> w1.includes(e)
            && w2.includes(e)),
        w1.intersect_spec(w2) is None ==> !(w1.includes(e) && w2.includes(e)),
{
}

/// Clamping keeps an epoch the window holds, and otherwise moves it to the nearer bound: an epoch
/// after the end to the end, one before the start to the start (when the start is not after the
/// end), so that it lands between them.
pub proof fn lemma_window_clamp(w: TimeWindow, e: Epoch)
    ensures
        w.includes(e) ==> w.clamp_spec(e) == e,
        (w.start matches Some(s) && w.end matches Some(x) && s@ <= x@) ==> w.start.unwrap()@
            <= w.clamp_spec(e)@ <= w.end.unwrap()@,
        w.end is None ==> (w.start matches Some(s) ==> w.clamp_spec(e)@ >= s@),
        w.start is None ==> (w.end matches Some(x) ==> w.clamp_spec(e)@ <= x@),
        (w.end is Some && e@ > w.end.unwrap()@) ==> w.clamp_spec(e) == w.end.unwrap(),
        (w.start is Some && e@ < w.start.unwrap()@ && (w.end is Some ==> w.start.unwrap()@
            <= w.end.unwrap()@)) ==> w.clamp_spec(e) == w.start.unwrap(),
{
}

} // verus!
