//! The proleptic Gregorian calendar as a count of days from 1970-01-01.
use vstd::prelude::*;

verus! {

/// Whether `y` is a leap year of the proleptic Gregorian calendar.
pub open spec fn is_leap_year(y: int) -> bool {
    y % 4 == 0 && (y % 100 != 0 || y % 400 == 0)
}

/// The number of days in month `m` (1-based) of year `y`.
pub open spec fn days_in_month(y: int, m: int) -> int {
    if m == 2 {
        if is_leap_year(y) { 29 } else { 28 }
    } else if m == 4 || m == 6 || m == 9 || m == 11 {
        30
    } else {
        31
    }
}

/// Whether `(y, m, d)` names a day of the proleptic Gregorian calendar.
pub open spec fn is_valid_date(y: int, m: int, d: int) -> bool {
    1 <= m <= 12 && 1 <= d <= days_in_month(y, m)
}

/// Integer division rounding toward zero, as machine division does.
pub open spec fn div_toward_zero(a: int, b: int) -> int {
    if a >= 0 { a / b } else { -((-a) / b) }
}

/// The year counted from March: January and February belong to the previous one.
pub open spec fn march_year(y: int, m: int) -> int {
    if m <= 2 { y - 1 } else { y }
}

/// The month counted from March (0) to February (11).
pub open spec fn march_month(m: int) -> int {
    if m > 2 { m - 3 } else { m + 9 }
}

/// Days from 0000-03-01 to the 1st of March of the March-based year `y`.
pub open spec fn days_to_march(y: int) -> int {
    365 * y + y / 4 - y / 100 + y / 400
}

/// Days from the 1st of March to the 1st of the March-based month `mp`.
pub open spec fn days_to_march_month(mp: int) -> int {
    div_toward_zero(153 * mp + 2, 5)
}

/// Days from 1970-01-01 to `(y, m, d)`: the day number of the date.
pub open spec fn civil_day_number(y: int, m: int, d: int) -> int {
    days_to_march(march_year(y, m)) + days_to_march_month(march_month(m)) + d - 1 - 719_468
}

pub open spec fn fits_i64(x: int) -> bool {
    i64::MIN <= x <= i64::MAX
}

/// Every intermediate value of `days_from_civil` fits in an `i64`.
pub open spec fn civil_day_number_fits(y: int, m: int, d: int) -> bool {
    let yy = march_year(y, m);
    let era = yy / 400;
    let mp = march_month(m);
    let doy = days_to_march_month(mp) + d - 1;
    &&& fits_i64(yy)
    &&& (yy < 0 ==> fits_i64(yy - 399))
    &&& fits_i64(mp)
    &&& fits_i64(153 * mp + 2)
    &&& fits_i64(days_to_march_month(mp) + d)
    &&& fits_i64(doy)
    &&& fits_i64(365 * (yy - era * 400) + (yy - era * 400) / 4 - (yy - era * 400) / 100 + doy)
    &&& fits_i64(era * 146097)
    &&& fits_i64(civil_day_number(y, m, d) + 719_468)
    &&& fits_i64(civil_day_number(y, m, d))
}

/// The first day of the March-based year `yoe` of a 400-year era, counted from the era's start.
pub open spec fn year_of_era_start(yoe: int) -> int {
    365 * yoe + yoe / 4 - yoe / 100
}

/// The length of the March-based year `yoe` of an era: it holds the February of year `yoe + 1`.
pub open spec fn year_of_era_length(yoe: int) -> int {
    if is_leap_year(yoe + 1) { 366 } else { 365 }
}

/// The March-based year of an era that holds day `doe` of the era.
pub open spec fn year_of_era(doe: int) -> int {
    (doe - doe / 1460 + doe / 36524 - doe / 146096) / 365
}

proof fn lemma_year_of_era_bv(doe: u32)
    by (bit_vector)
    requires
        doe <= 146096,
    ensures
        (doe - doe / 1460 + doe / 36524 - doe / 146096) / 365 <= 399,
        365 * ((doe - doe / 1460 + doe / 36524 - doe / 146096) / 365)
            + ((doe - doe / 1460 + doe / 36524 - doe / 146096) / 365) / 4
            - ((doe - doe / 1460 + doe / 36524 - doe / 146096) / 365) / 100 <= doe,
        doe < 365 * ((doe - doe / 1460 + doe / 36524 - doe / 146096) / 365)
            + ((doe - doe / 1460 + doe / 36524 - doe / 146096) / 365) / 4
            - ((doe - doe / 1460 + doe / 36524 - doe / 146096) / 365) / 100 + 365
        || (doe == 365 * ((doe - doe / 1460 + doe / 36524 - doe / 146096) / 365)
            + ((doe - doe / 1460 + doe / 36524 - doe / 146096) / 365) / 4
            - ((doe - doe / 1460 + doe / 36524 - doe / 146096) / 365) / 100 + 365
            && (((doe - doe / 1460 + doe / 36524 - doe / 146096) / 365) + 1) % 4 == 0
            && ((((doe - doe / 1460 + doe / 36524 - doe / 146096) / 365) + 1) % 100 != 0
                || ((doe - doe / 1460 + doe / 36524 - doe / 146096) / 365) == 399)),
{
}

/// Day `doe` of an era lies inside the March-based year that `year_of_era` names.
proof fn lemma_year_of_era(doe: int)
    requires
        0 <= doe <= 146096,
    ensures
        0 <= year_of_era(doe) <= 399,
        year_of_era_start(year_of_era(doe)) <= doe,
        doe < year_of_era_start(year_of_era(doe)) + year_of_era_length(year_of_era(doe)),
{
    lemma_year_of_era_bv(doe as u32);
    let yoe = year_of_era(doe);
    assert(is_leap_year(yoe + 1) <==> ((yoe + 1) % 4 == 0 && ((yoe + 1) % 100 != 0 || yoe == 399)));
}


proof fn lemma_year_of_era_inverse_short_bv(yoe: u32, doy: u32)
    by (bit_vector)
    requires
        yoe <= 399,
        doy <= 364,
    ensures
        365 * yoe + (yoe + 0) / 4 - (yoe + 0) / 100 + doy <= 146096,
        ((365 * yoe + (yoe + 0) / 4 - (yoe + 0) / 100 + doy) - (365 * yoe + (yoe + 0) / 4 - (yoe + 0) / 100 + doy) / 1460
            + (365 * yoe + (yoe + 0) / 4 - (yoe + 0) / 100 + doy) / 36524
            - (365 * yoe + (yoe + 0) / 4 - (yoe + 0) / 100 + doy) / 146096) / 365 <= yoe,
        ((365 * yoe + (yoe + 0) / 4 - (yoe + 0) / 100 + doy) - (365 * yoe + (yoe + 0) / 4 - (yoe + 0) / 100 + doy) / 1460
            + (365 * yoe + (yoe + 0) / 4 - (yoe + 0) / 100 + doy) / 36524
            - (365 * yoe + (yoe + 0) / 4 - (yoe + 0) / 100 + doy) / 146096) / 365 >= yoe,
{
}

/// The last day of a long March-based year `4 * q + 3` of an era.
proof fn lemma_year_of_era_inverse_long_bv(q: u32)
    by (bit_vector)
    requires
        q <= 99,
        q != 24,
        q != 49,
        q != 74,
    ensures
        365 * (4 * q + 3) + (4 * q + 3) / 4 - (4 * q + 3) / 100 + 365 <= 146096,
        ((365 * (4 * q + 3) + ((4 * q + 3) + 0) / 4 - ((4 * q + 3) + 0) / 100 + 365) - (365 * (4 * q + 3) + ((4 * q + 3) + 0) / 4 - ((4 * q + 3) + 0) / 100 + 365) / 1460
            + (365 * (4 * q + 3) + ((4 * q + 3) + 0) / 4 - ((4 * q + 3) + 0) / 100 + 365) / 36524
            - (365 * (4 * q + 3) + ((4 * q + 3) + 0) / 4 - ((4 * q + 3) + 0) / 100 + 365) / 146096) / 365 <= 4 * q + 3,
        ((365 * (4 * q + 3) + ((4 * q + 3) + 0) / 4 - ((4 * q + 3) + 0) / 100 + 365) - (365 * (4 * q + 3) + ((4 * q + 3) + 0) / 4 - ((4 * q + 3) + 0) / 100 + 365) / 1460
            + (365 * (4 * q + 3) + ((4 * q + 3) + 0) / 4 - ((4 * q + 3) + 0) / 100 + 365) / 36524
            - (365 * (4 * q + 3) + ((4 * q + 3) + 0) / 4 - ((4 * q + 3) + 0) / 100 + 365) / 146096) / 365 >= 4 * q + 3,
{
}

/// A day inside March-based year `yoe` of an era is mapped back to `yoe`.
proof fn lemma_year_of_era_inverse(yoe: int, doy: int)
    requires
        0 <= yoe <= 399,
        0 <= doy < year_of_era_length(yoe),
    ensures
        year_of_era_start(yoe) + doy <= 146096,
        year_of_era(year_of_era_start(yoe) + doy) == yoe,
{
    if doy <= 364 {
        lemma_year_of_era_inverse_short_bv(yoe as u32, doy as u32);
    } else {
        let q = yoe / 4;
        assert(yoe == 4 * q + 3);
        lemma_year_of_era_inverse_long_bv(q as u32);
    }
}

/// The March-based month holding day `doy` of a March-based year.
proof fn lemma_march_month(doy: int)
    requires
        0 <= doy <= 365,
    ensures
        0 <= (5 * doy + 2) / 153 <= 11,
        (153 * ((5 * doy + 2) / 153) + 2) / 5 <= doy,
        (5 * doy + 2) / 153 < 11 ==> doy < (153 * ((5 * doy + 2) / 153 + 1) + 2) / 5,
{
}

/// Day `k` of March-based month `mp` is mapped back to `mp`.
proof fn lemma_march_month_inverse(mp: int, k: int)
    requires
        0 <= mp <= 11,
        0 <= k,
        mp < 11 ==> (153 * mp + 2) / 5 + k < (153 * (mp + 1) + 2) / 5,
        mp == 11 ==> k <= 28,
    ensures
        (5 * ((153 * mp + 2) / 5 + k) + 2) / 153 == mp,
{
}

/// The civil month of March-based month `mp`.
pub open spec fn civil_month(mp: int) -> int {
    if mp < 10 { mp + 3 } else { mp - 9 }
}

/// Month lengths seen from March: month `mp` ends where month `mp + 1` begins.
proof fn lemma_march_month_lengths(y: int, mp: int)
    requires
        0 <= mp <= 10,
    ensures
        days_to_march_month(mp + 1) - days_to_march_month(mp) == days_in_month(y, civil_month(mp)),
        days_to_march_month(mp) == (153 * mp + 2) / 5,
        days_to_march_month(mp + 1) == (153 * (mp + 1) + 2) / 5,
{
    assert(days_to_march_month(0) == 0);
    assert(days_to_march_month(1) == 31);
    assert(days_to_march_month(2) == 61);
    assert(days_to_march_month(3) == 92);
    assert(days_to_march_month(4) == 122);
    assert(days_to_march_month(5) == 153);
    assert(days_to_march_month(6) == 184);
    assert(days_to_march_month(7) == 214);
    assert(days_to_march_month(8) == 245);
    assert(days_to_march_month(9) == 275);
    assert(days_to_march_month(10) == 306);
    assert(days_to_march_month(11) == 337);
}

/// A March-based year splits into its 400-year era and its year of era.
proof fn lemma_days_to_march_era(yy: int)
    ensures
        days_to_march(yy) == 146097 * (yy / 400) + year_of_era_start(yy % 400),
        0 <= yy % 400 <= 399,
        is_leap_year(yy + 1) == is_leap_year(yy % 400 + 1),
{
    let era = yy / 400;
    let yoe = yy % 400;
    assert(yy == 400 * era + yoe);
    assert(yy / 4 == 100 * era + yoe / 4);
    assert(yy / 100 == 4 * era + yoe / 100);
    assert(yy / 400 == era + yoe / 400);
    assert((yy + 1) % 4 == (yoe + 1) % 4);
    assert((yy + 1) % 100 == (yoe + 1) % 100);
    assert((yy + 1) % 400 == (yoe + 1) % 400);
}

/// Floor division by a positive constant, written with machine (truncating) division.
proof fn lemma_floor_div_by_shifted_trunc(a: int, b: int)
    requires
        b > 0,
        a < 0,
    ensures
        div_toward_zero(a - (b - 1), b) == a / b,
{
    let q = a / b;
    let r = a % b;
    assert(a == b * q + r && 0 <= r < b) by {
        vstd::arithmetic::div_mod::lemma_fundamental_div_mod(a, b);
    }
    // -(a - (b - 1)) = -b*q + (b - 1 - r), with 0 <= b - 1 - r < b.
    let n = -(a - (b - 1));
    assert(n == b * (-q) + (b - 1 - r)) by (nonlinear_arith)
        requires
            a == b * q + r,
            n == -(a - (b - 1)),
    ;
    assert(n / b == -q) by {
        vstd::arithmetic::div_mod::lemma_fundamental_div_mod_converse(n, b, -q, b - 1 - r);
    }
}

/// The day number of `(y, m, d)`: days from 1970-01-01 in the proleptic Gregorian calendar.
/// Any month and day are accepted and counted on from the 1st of the month.
pub fn days_from_civil(y: i64, m: i64, d: i64) -> (days: i64)
    requires
        civil_day_number_fits(y as int, m as int, d as int),
    ensures
        days == civil_day_number(y as int, m as int, d as int),
{
    let y = if m <= 2 { y - 1 } else { y };
    let era = (if y >= 0 { y } else { y - 399 }) / 400;
    proof {
        if y < 0 {
            lemma_floor_div_by_shifted_trunc(y as int, 400);
        }
        assert(era == (y as int) / 400);
        lemma_days_to_march_era(y as int);
    }
    let yoe = y - era * 400;
    let mp = if m > 2 { m - 3 } else { m + 9 };
    let doy = (153 * mp + 2) / 5 + d - 1;
    let doe = yoe * 365 + yoe / 4 - yoe / 100 + doy;
    era * 146097 + doe - 719_468
}

/// The date `(year, month, day)` of day number `z`, counted from 1970-01-01: the one valid date of
/// the proleptic Gregorian calendar whose day number is `z`.
pub fn civil_from_days(z: i64) -> (date: (i64, i64, i64))
    requires
        fits_i64(z + 719_468),
        z + 719_468 < 0 ==> fits_i64(z + 719_468 - 146_096),
    ensures
        is_valid_date(date.0 as int, date.1 as int, date.2 as int),
        civil_day_number(date.0 as int, date.1 as int, date.2 as int) == z,
{
    let z = z + 719_468;
    let era = (if z >= 0 { z } else { z - 146_096 }) / 146_097;
    proof {
        if z < 0 {
            lemma_floor_div_by_shifted_trunc(z as int, 146097);
        }
        assert(era == (z as int) / 146097);
        vstd::arithmetic::div_mod::lemma_fundamental_div_mod(z as int, 146097);
    }
    let doe = z - era * 146_097;
    proof {
        lemma_year_of_era(doe as int);
    }
    let yoe = (doe - doe / 1460 + doe / 36_524 - doe / 146_096) / 365;
    let y = yoe + era * 400;
    let doy = doe - (365 * yoe + yoe / 4 - yoe / 100);
    proof {
        lemma_march_month(doy as int);
    }
    let mp = (5 * doy + 2) / 153;
    let d = doy - (153 * mp + 2) / 5 + 1;
    let m = if mp < 10 { mp + 3 } else { mp - 9 };
    let year = if m <= 2 { y + 1 } else { y };
    proof {
        let yi = y as int;
        assert(yi == 400 * (era as int) + (yoe as int));
        assert(yi / 400 == era as int && yi % 400 == yoe as int) by {
            vstd::arithmetic::div_mod::lemma_fundamental_div_mod_converse(yi, 400, era as int, yoe as int);
        }
        lemma_days_to_march_era(yi);
        if mp <= 10 {
            lemma_march_month_lengths(year as int, mp as int);
        } else {
            assert(days_to_march_month(11) == 337);
        }
        assert(march_year(year as int, m as int) == yi);
        assert(march_month(m as int) == mp as int);
        assert(days_to_march_month(mp as int) == (153 * mp + 2) / 5);
    }
    (year, m, d)
}

/// How the day number of a valid date splits into era, year of era, day of year and month.
proof fn lemma_day_number_parts(y: int, m: int, d: int)
    requires
        is_valid_date(y, m, d),
    ensures
        ({
            let zz = civil_day_number(y, m, d) + 719_468;
            let yy = march_year(y, m);
            let doe = zz % 146097;
            let doy = doe - year_of_era_start(year_of_era(doe));
            &&& zz / 146097 == yy / 400
            &&& year_of_era(doe) == yy % 400
            &&& doy == days_to_march_month(march_month(m)) + d - 1
            &&& (5 * doy + 2) / 153 == march_month(m)
        }),
{
    let yy = march_year(y, m);
    let mp = march_month(m);
    let doy = days_to_march_month(mp) + d - 1;
    lemma_days_to_march_era(yy);
    let era = yy / 400;
    let yoe = yy % 400;
    if mp <= 10 {
        lemma_march_month_lengths(y, mp);
        assert(days_to_march_month(11) == 337);
        if mp < 10 {
            lemma_march_month_lengths(y, mp + 1);
        }
        assert(days_to_march_month(mp + 1) <= 337);
    } else {
        assert(days_to_march_month(11) == 337);
        assert(y == yy + 1);
    }
    assert(0 <= doy < year_of_era_length(yoe));
    lemma_year_of_era_inverse(yoe, doy);
    let zz = civil_day_number(y, m, d) + 719_468;
    assert(zz == 146097 * era + (year_of_era_start(yoe) + doy));
    vstd::arithmetic::div_mod::lemma_fundamental_div_mod_converse(
        zz,
        146097,
        era,
        year_of_era_start(yoe) + doy,
    );
    if mp <= 10 {
        lemma_march_month_lengths(y, mp);
    }
    lemma_march_month_inverse(mp, d - 1);
}

/// Day numbers tell valid dates apart: two valid dates with the same day number are the same date.
/// With `civil_from_days`, which finds a valid date for every day number, this makes
/// `civil_from_days(days_from_civil(y, m, d)) == (y, m, d)` for every valid date.
pub proof fn lemma_civil_day_number_injective(y1: int, m1: int, d1: int, y2: int, m2: int, d2: int)
    requires
        is_valid_date(y1, m1, d1),
        is_valid_date(y2, m2, d2),
        civil_day_number(y1, m1, d1) == civil_day_number(y2, m2, d2),
    ensures
        y1 == y2,
        m1 == m2,
        d1 == d2,
{
    lemma_day_number_parts(y1, m1, d1);
    lemma_day_number_parts(y2, m2, d2);
    let yy1 = march_year(y1, m1);
    let yy2 = march_year(y2, m2);
    assert(yy1 == 400 * (yy1 / 400) + yy1 % 400);
    assert(yy2 == 400 * (yy2 / 400) + yy2 % 400);
    assert(yy1 == yy2);
    assert(march_month(m1) == march_month(m2));
}

/// The day after `(y, m, d)` in the calendar.
pub open spec fn next_date(y: int, m: int, d: int) -> (int, int, int) {
    if d < days_in_month(y, m) {
        (y, m, d + 1)
    } else if m < 12 {
        (y, m + 1, 1)
    } else {
        (y + 1, 1, 1)
    }
}

/// Day numbers count the calendar's days one by one from 1970-01-01: the epoch is day 0, and the day
/// after any valid date is a valid date whose day number is one more.
pub proof fn lemma_civil_day_number_counts_days(y: int, m: int, d: int)
    requires
        is_valid_date(y, m, d),
    ensures
        civil_day_number(1970, 1, 1) == 0,
        is_valid_date(next_date(y, m, d).0, next_date(y, m, d).1, next_date(y, m, d).2),
        civil_day_number(next_date(y, m, d).0, next_date(y, m, d).1, next_date(y, m, d).2)
            == civil_day_number(y, m, d) + 1,
{
    if d == days_in_month(y, m) {
        if m == 2 {
            assert(days_to_march(y) - days_to_march(y - 1) == if is_leap_year(y) { 366int } else { 365int });
            assert(days_to_march_month(11) == 337);
        } else if m == 1 {
            lemma_march_month_lengths(y, 10);
        } else if m == 12 {
            lemma_march_month_lengths(y, 9);
        } else {
            lemma_march_month_lengths(y, march_month(m));
        }
    }
}

} // verus!
