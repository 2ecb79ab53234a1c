//! The IERS leap-second table: `TAI − UTC` as a step function of time.
use vstd::prelude::*;

use crate::calendar::{civil_day_number, civil_day_number_fits, days_from_civil, is_valid_date};

verus! {

/// Nanoseconds per second.
pub const NS_PER_SEC: i128 = 1_000_000_000;

/// Seconds per day.
pub const SEC_PER_DAY: i64 = 86_400;

/// The number of steps in the leap-second table.
pub const LEAP_STEPS: usize = 28;

/// The leap-second table, step `i`: `(year, month, day, TAI − UTC from that UTC date on)`, every
/// step from 1972 to 2017. Before the first step `TAI − UTC` is taken as 10 s (pre-1972 UTC is not
/// modelled); no leap second has been introduced since 2017-01-01.
pub open spec fn leap_table(i: int) -> (int, int, int, int) {
    if i == 0 {
        (1972, 1, 1, 10)
    } else if i == 1 {
        (1972, 7, 1, 11)
    } else if i == 2 {
        (1973, 1, 1, 12)
    } else if i == 3 {
        (1974, 1, 1, 13)
    } else if i == 4 {
        (1975, 1, 1, 14)
    } else if i == 5 {
        (1976, 1, 1, 15)
    } else if i == 6 {
        (1977, 1, 1, 16)
    } else if i == 7 {
        (1978, 1, 1, 17)
    } else if i == 8 {
        (1979, 1, 1, 18)
    } else if i == 9 {
        (1980, 1, 1, 19)
    } else if i == 10 {
        (1981, 7, 1, 20)
    } else if i == 11 {
        (1982, 7, 1, 21)
    } else if i == 12 {
        (1983, 7, 1, 22)
    } else if i == 13 {
        (1985, 7, 1, 23)
    } else if i == 14 {
        (1988, 1, 1, 24)
    } else if i == 15 {
        (1990, 1, 1, 25)
    } else if i == 16 {
        (1991, 1, 1, 26)
    } else if i == 17 {
        (1992, 7, 1, 27)
    } else if i == 18 {
        (1993, 7, 1, 28)
    } else if i == 19 {
        (1994, 7, 1, 29)
    } else if i == 20 {
        (1996, 1, 1, 30)
    } else if i == 21 {
        (1997, 7, 1, 31)
    } else if i == 22 {
        (1999, 1, 1, 32)
    } else if i == 23 {
        (2006, 1, 1, 33)
    } else if i == 24 {
        (2009, 1, 1, 34)
    } else if i == 25 {
        (2012, 7, 1, 35)
    } else if i == 26 {
        (2015, 7, 1, 36)
    } else {
        (2017, 1, 1, 37)
    }
}

/// The UTC instant of leap step `i`, in Unix seconds.
pub open spec fn leap_step_unix(i: int) -> int {
    civil_day_number(leap_table(i).0, leap_table(i).1, leap_table(i).2) * SEC_PER_DAY
}

/// `TAI − UTC` from leap step `i` on, seconds.
pub open spec fn leap_value(i: int) -> int {
    leap_table(i).3
}

/// The TAI instant of leap step `i`, in nanoseconds from 1970-01-01T00:00:00 TAI: the UTC instant
/// plus the new offset.
pub open spec fn leap_step_tai(i: int) -> int {
    (leap_step_unix(i) + leap_value(i)) * NS_PER_SEC
}

/// `TAI − UTC` at Unix second `s` after the first `k` steps of the table: the value of the latest
/// of those steps at or before `s`, or 10 before them all.
pub open spec fn leap_at_unix_upto(s: int, k: int) -> int
    decreases k,
{
    if k <= 0 {
        10
    } else if s >= leap_step_unix(k - 1) {
        leap_value(k - 1)
    } else {
        leap_at_unix_upto(s, k - 1)
    }
}

/// `TAI − UTC`, seconds, in effect at the UTC instant given as Unix seconds.
pub open spec fn leap_at_unix(s: int) -> int {
    leap_at_unix_upto(s, LEAP_STEPS as int)
}

/// `TAI − UTC` at TAI nanosecond `t` after the first `k` steps of the table.
pub open spec fn leap_at_tai_upto(t: int, k: int) -> int
    decreases k,
{
    if k <= 0 {
        10
    } else if t >= leap_step_tai(k - 1) {
        leap_value(k - 1)
    } else {
        leap_at_tai_upto(t, k - 1)
    }
}

/// `TAI − UTC`, seconds, in effect at the TAI instant given as nanoseconds from the TAI origin.
pub open spec fn leap_at_tai(t: int) -> int {
    leap_at_tai_upto(t, LEAP_STEPS as int)
}

/// Step `i` of the table.
fn leap_table_entry(i: usize) -> (entry: (i64, i64, i64, i64))
    requires
        i < LEAP_STEPS,
    ensures
        entry.0 == leap_table(i as int).0,
        entry.1 == leap_table(i as int).1,
        entry.2 == leap_table(i as int).2,
        entry.3 == leap_table(i as int).3,
{
    match i {
        0 => (1972, 1, 1, 10),
        1 => (1972, 7, 1, 11),
        2 => (1973, 1, 1, 12),
        3 => (1974, 1, 1, 13),
        4 => (1975, 1, 1, 14),
        5 => (1976, 1, 1, 15),
        6 => (1977, 1, 1, 16),
        7 => (1978, 1, 1, 17),
        8 => (1979, 1, 1, 18),
        9 => (1980, 1, 1, 19),
        10 => (1981, 7, 1, 20),
        11 => (1982, 7, 1, 21),
        12 => (1983, 7, 1, 22),
        13 => (1985, 7, 1, 23),
        14 => (1988, 1, 1, 24),
        15 => (1990, 1, 1, 25),
        16 => (1991, 1, 1, 26),
        17 => (1992, 7, 1, 27),
        18 => (1993, 7, 1, 28),
        19 => (1994, 7, 1, 29),
        20 => (1996, 1, 1, 30),
        21 => (1997, 7, 1, 31),
        22 => (1999, 1, 1, 32),
        23 => (2006, 1, 1, 33),
        24 => (2009, 1, 1, 34),
        25 => (2012, 7, 1, 35),
        26 => (2015, 7, 1, 36),
        _ => (2017, 1, 1, 37),
    }
}

/// The facts about step `i` that the lookups use.
proof fn lemma_leap_step(i: int)
    requires
        0 <= i < LEAP_STEPS,
    ensures
        is_valid_date(leap_table(i).0, leap_table(i).1, leap_table(i).2),
        civil_day_number_fits(leap_table(i).0, leap_table(i).1, leap_table(i).2),
        leap_value(i) == 10 + i,
        0 < leap_step_unix(i) < 1_500_000_000,
        i + 1 < LEAP_STEPS ==> leap_step_unix(i) < leap_step_unix(i + 1),
{
}

/// `TAI − UTC` in effect at the UTC instant given as Unix seconds.
pub fn leap_secs_at_unix(unix_s: i64) -> (leap: i64)
    ensures
        leap == leap_at_unix(unix_s as int),
{
    let mut leap: i64 = 10;
    let mut i: usize = 0;
    while i < LEAP_STEPS
        invariant
            i <= LEAP_STEPS,
            leap == leap_at_unix_upto(unix_s as int, i as int),
        decreases LEAP_STEPS - i,
    {
        let (y, m, d, l) = leap_table_entry(i);
        proof {
            lemma_leap_step(i as int);
        }
        let day = days_from_civil(y, m, d);
        if unix_s >= day * SEC_PER_DAY {
            leap = l;
        }
        i = i + 1;
    }
    leap
}

/// `TAI − UTC` in effect at the TAI instant given as nanoseconds from the TAI origin.
pub fn leap_secs_at_tai(tai_ns: i128) -> (leap: i64)
    ensures
        leap == leap_at_tai(tai_ns as int),
{
    let mut leap: i64 = 10;
    let mut i: usize = 0;
    while i < LEAP_STEPS
        invariant
            i <= LEAP_STEPS,
            leap == leap_at_tai_upto(tai_ns as int, i as int),
        decreases LEAP_STEPS - i,
    {
        let (y, m, d, l) = leap_table_entry(i);
        proof {
            lemma_leap_step(i as int);
        }
        let day = days_from_civil(y, m, d);
        let tai_transition = (day * SEC_PER_DAY + l) as i128 * NS_PER_SEC;
        if tai_ns >= tai_transition {
            leap = l;
        }
        i = i + 1;
    }
    leap
}

/// The steps of the table come in time order.
proof fn lemma_leap_steps_increasing(i: int, j: int)
    requires
        0 <= i < j < LEAP_STEPS,
    ensures
        leap_step_unix(i) < leap_step_unix(j),
        leap_step_tai(i) < leap_step_tai(j),
    decreases j - i,
{
    lemma_leap_step(i);
    lemma_leap_step(j);
    lemma_leap_step(j - 1);
    if i < j - 1 {
        lemma_leap_steps_increasing(i, j - 1);
    }
}

/// `TAI − UTC` after `k` steps lies between 10 and the value of step `k − 1`.
proof fn lemma_leap_at_unix_upto_bounds(s: int, k: int)
    requires
        0 <= k <= LEAP_STEPS,
    ensures
        10 <= leap_at_unix_upto(s, k),
        k > 0 ==> leap_at_unix_upto(s, k) <= 10 + k - 1,
    decreases k,
{
    if k > 0 {
        lemma_leap_step(k - 1);
        lemma_leap_at_unix_upto_bounds(s, k - 1);
    }
}

/// A step at or before Unix second `s` is in effect there, or a later one is.
proof fn lemma_leap_at_unix_upto_reached(s: int, k: int, i: int)
    requires
        0 <= i < k <= LEAP_STEPS,
        leap_step_unix(i) <= s,
    ensures
        leap_at_unix_upto(s, k) >= 10 + i,
    decreases k,
{
    lemma_leap_step(k - 1);
    if s < leap_step_unix(k - 1) {
        lemma_leap_at_unix_upto_reached(s, k - 1, i);
    }
}

/// A step after Unix second `s` is not yet in effect there.
proof fn lemma_leap_at_unix_upto_not_reached(s: int, k: int, i: int)
    requires
        0 <= i < LEAP_STEPS,
        0 <= k <= LEAP_STEPS,
        leap_step_unix(i) > s,
    ensures
        leap_at_unix_upto(s, k) <= 10 + i,
        i > 0 ==> leap_at_unix_upto(s, k) <= 9 + i,
    decreases k,
{
    if k > 0 {
        lemma_leap_step(k - 1);
        if s >= leap_step_unix(k - 1) {
            if k - 1 >= i {
                if k - 1 > i {
                    lemma_leap_steps_increasing(i, k - 1);
                }
                assert(false);
            }
        } else {
            lemma_leap_at_unix_upto_not_reached(s, k - 1, i);
        }
    }
}

/// `TAI − UTC` is a non-decreasing function of UTC time.
pub proof fn lemma_leap_at_unix_monotonic(s1: int, s2: int)
    requires
        s1 <= s2,
    ensures
        leap_at_unix(s1) <= leap_at_unix(s2),
{
    lemma_leap_at_unix_upto_monotonic(s1, s2, LEAP_STEPS as int);
}

proof fn lemma_leap_at_unix_upto_monotonic(s1: int, s2: int, k: int)
    requires
        s1 <= s2,
        0 <= k <= LEAP_STEPS,
    ensures
        leap_at_unix_upto(s1, k) <= leap_at_unix_upto(s2, k),
    decreases k,
{
    if k > 0 {
        lemma_leap_step(k - 1);
        lemma_leap_at_unix_upto_bounds(s1, k - 1);
        lemma_leap_at_unix_upto_monotonic(s1, s2, k - 1);
    }
}

/// The step in effect at TAI instant `t` after `k` steps: `-1` before them all, else the latest
/// step at or before `t`, with the step after it (if any of the `k`) still ahead.
proof fn lemma_leap_at_tai_upto_witness(t: int, k: int) -> (j: int)
    requires
        0 <= k <= LEAP_STEPS,
    ensures
        -1 <= j < k,
        j == -1 ==> leap_at_tai_upto(t, k) == 10,
        j == -1 ==> forall|i: int| 0 <= i < k ==> t < #[trigger] leap_step_tai(i),
        j >= 0 ==> leap_at_tai_upto(t, k) == leap_value(j) && leap_step_tai(j) <= t,
        j >= 0 && j + 1 < k ==> t < leap_step_tai(j + 1),
    decreases k,
{
    if k == 0 {
        -1
    } else {
        lemma_leap_step(k - 1);
        if t >= leap_step_tai(k - 1) {
            k - 1
        } else {
            let j = lemma_leap_at_tai_upto_witness(t, k - 1);
            if j == -1 {
                assert forall|i: int| 0 <= i < k implies t < #[trigger] leap_step_tai(i) by {
                    if i < k - 1 {
                        assert(t < leap_step_tai(i));
                    }
                }
            }
            if j >= 0 && j + 1 == k - 1 {
                assert(t < leap_step_tai(j + 1));
            }
            j
        }
    }
}

/// `TAI − UTC` is a non-decreasing function of TAI time.
pub proof fn lemma_leap_at_tai_monotonic(t1: int, t2: int)
    requires
        t1 <= t2,
    ensures
        leap_at_tai(t1) <= leap_at_tai(t2),
{
    lemma_leap_at_tai_upto_monotonic(t1, t2, LEAP_STEPS as int);
}

proof fn lemma_leap_at_tai_upto_bounds(t: int, k: int)
    requires
        0 <= k <= LEAP_STEPS,
    ensures
        10 <= leap_at_tai_upto(t, k),
        k > 0 ==> leap_at_tai_upto(t, k) <= 10 + k - 1,
    decreases k,
{
    if k > 0 {
        lemma_leap_step(k - 1);
        lemma_leap_at_tai_upto_bounds(t, k - 1);
    }
}

proof fn lemma_leap_at_tai_upto_monotonic(t1: int, t2: int, k: int)
    requires
        t1 <= t2,
        0 <= k <= LEAP_STEPS,
    ensures
        leap_at_tai_upto(t1, k) <= leap_at_tai_upto(t2, k),
    decreases k,
{
    if k > 0 {
        lemma_leap_step(k - 1);
        lemma_leap_at_tai_upto_bounds(t1, k - 1);
        lemma_leap_at_tai_upto_monotonic(t1, t2, k - 1);
    }
}

/// Read on the UTC side, a UTC instant carried to TAI sees the same `TAI − UTC`: the offset
/// looked up by TAI at `n + leap_at_unix(s)` seconds is the one looked up by UTC at `n`.
pub proof fn lemma_leap_unix_to_tai(n: int)
    ensures
        leap_at_tai(n + leap_at_unix(n / NS_PER_SEC as int) * NS_PER_SEC) == leap_at_unix(
            n / NS_PER_SEC as int,
        ),
{
    let s = n / NS_PER_SEC as int;
    let big_l = leap_at_unix(s);
    let t = n + big_l * NS_PER_SEC;
    assert(s * NS_PER_SEC <= n < (s + 1) * NS_PER_SEC);
    lemma_leap_unix_to_tai_upto(n, s, big_l, t, LEAP_STEPS as int);
}

proof fn lemma_leap_unix_to_tai_upto(n: int, s: int, big_l: int, t: int, k: int)
    requires
        0 <= k <= LEAP_STEPS,
        s * NS_PER_SEC <= n < (s + 1) * NS_PER_SEC,
        big_l == leap_at_unix(s),
        t == n + big_l * NS_PER_SEC,
    ensures
        leap_at_tai_upto(t, k) == leap_at_unix_upto(s, k),
    decreases k,
{
    if k > 0 {
        let i = k - 1;
        lemma_leap_step(i);
        if s >= leap_step_unix(i) {
            lemma_leap_at_unix_upto_reached(s, LEAP_STEPS as int, i);
            assert(t >= leap_step_tai(i)) by (nonlinear_arith)
                requires
                    big_l >= leap_value(i),
                    n >= s * NS_PER_SEC,
                    s >= leap_step_unix(i),
                    t == n + big_l * NS_PER_SEC,
                    leap_step_tai(i) == (leap_step_unix(i) + leap_value(i)) * NS_PER_SEC,
            ;
        } else {
            lemma_leap_at_unix_upto_not_reached(s, LEAP_STEPS as int, i);
            assert(t < leap_step_tai(i)) by (nonlinear_arith)
                requires
                    big_l <= leap_value(i),
                    n < (s + 1) * NS_PER_SEC,
                    s + 1 <= leap_step_unix(i),
                    t == n + big_l * NS_PER_SEC,
                    leap_step_tai(i) == (leap_step_unix(i) + leap_value(i)) * NS_PER_SEC,
            ;
        }
        lemma_leap_unix_to_tai_upto(n, s, big_l, t, k - 1);
    }
}

/// Whether TAI instant `t` (nanoseconds) falls in a second inserted at a leap step, the second that
/// UTC labels `23:59:60`.
pub open spec fn in_inserted_leap_second(t: int) -> bool {
    exists|i: int| 1 <= i < LEAP_STEPS && #[trigger] leap_step_tai(i) - NS_PER_SEC <= t < leap_step_tai(i)
}

/// Read on the TAI side, outside an inserted leap second, a TAI instant carried to UTC sees the same
/// `TAI − UTC` when it is looked up by UTC.
pub proof fn lemma_leap_tai_to_unix(t: int)
    requires
        !in_inserted_leap_second(t),
    ensures
        leap_at_unix((t - leap_at_tai(t) * NS_PER_SEC) / NS_PER_SEC as int) == leap_at_tai(t),
{
    let big_l = leap_at_tai(t);
    let n = t - big_l * NS_PER_SEC;
    let s = n / NS_PER_SEC as int;
    assert(s * NS_PER_SEC <= n < (s + 1) * NS_PER_SEC);
    let j = lemma_leap_at_tai_upto_witness(t, LEAP_STEPS as int);
    lemma_leap_at_unix_upto_bounds(s, LEAP_STEPS as int);
    if j == -1 {
        lemma_leap_step(0);
        assert(t < leap_step_tai(0));
        assert(s < leap_step_unix(0));
        lemma_leap_at_unix_upto_not_reached(s, LEAP_STEPS as int, 0);
    } else {
        lemma_leap_step(j);
        assert(s >= leap_step_unix(j));
        lemma_leap_at_unix_upto_reached(s, LEAP_STEPS as int, j);
        if j + 1 < LEAP_STEPS {
            lemma_leap_step(j + 1);
            assert(!(leap_step_tai(j + 1) - NS_PER_SEC <= t < leap_step_tai(j + 1)));
            assert(s < leap_step_unix(j + 1));
            lemma_leap_at_unix_upto_not_reached(s, LEAP_STEPS as int, j + 1);
        }
    }
}

/// Around leap step `i`: `TAI − UTC` at its Unix second is the step's value, and the second before
/// still reads the value before it (10 before the first step).
proof fn lemma_leap_around_step(i: int)
    requires
        0 <= i < LEAP_STEPS,
    ensures
        leap_at_unix(leap_step_unix(i)) == 10 + i,
        leap_at_unix(leap_step_unix(i) - 1) == if i == 0 {
            10
        } else {
            9 + i
        },
{
    let u = leap_step_unix(i);
    lemma_leap_step(i);
    lemma_leap_at_unix_upto_reached(u, LEAP_STEPS as int, i);
    lemma_leap_at_unix_upto_bounds(u, LEAP_STEPS as int);
    lemma_leap_at_unix_upto_bounds(u - 1, LEAP_STEPS as int);
    if i + 1 < LEAP_STEPS {
        lemma_leap_step(i + 1);
        lemma_leap_at_unix_upto_not_reached(u, LEAP_STEPS as int, i + 1);
    }
    lemma_leap_at_unix_upto_not_reached(u - 1, LEAP_STEPS as int, i);
    if i > 0 {
        lemma_leap_step(i - 1);
        lemma_leap_at_unix_upto_reached(u - 1, LEAP_STEPS as int, i - 1);
    }
}

/// `TAI − UTC` steps exactly at the leap seconds the IERS published: 10 s from 1972-01-01
/// (Unix second 63 072 000), one second more at each step — 1972-07-01, 1973-01-01, …,
/// 2015-07-01 (Unix 1 435 708 800), 2017-01-01 (Unix 1 483 228 800) — to 37 s; the last second
/// before each step still reads the old value.
pub proof fn lemma_leap_seconds_published()
    ensures
        leap_at_unix(63_071_999) == 10,
        leap_at_unix(63_072_000) == 10,
        leap_at_unix(78_796_799) == 10,
        leap_at_unix(78_796_800) == 11,
        leap_at_unix(94_694_399) == 11,
        leap_at_unix(94_694_400) == 12,
        leap_at_unix(126_230_399) == 12,
        leap_at_unix(126_230_400) == 13,
        leap_at_unix(157_766_399) == 13,
        leap_at_unix(157_766_400) == 14,
        leap_at_unix(189_302_399) == 14,
        leap_at_unix(189_302_400) == 15,
        leap_at_unix(220_924_799) == 15,
        leap_at_unix(220_924_800) == 16,
        leap_at_unix(252_460_799) == 16,
        leap_at_unix(252_460_800) == 17,
        leap_at_unix(283_996_799) == 17,
        leap_at_unix(283_996_800) == 18,
        leap_at_unix(315_532_799) == 18,
        leap_at_unix(315_532_800) == 19,
        leap_at_unix(362_793_599) == 19,
        leap_at_unix(362_793_600) == 20,
        leap_at_unix(394_329_599) == 20,
        leap_at_unix(394_329_600) == 21,
        leap_at_unix(425_865_599) == 21,
        leap_at_unix(425_865_600) == 22,
        leap_at_unix(489_023_999) == 22,
        leap_at_unix(489_024_000) == 23,
        leap_at_unix(567_993_599) == 23,
        leap_at_unix(567_993_600) == 24,
        leap_at_unix(631_151_999) == 24,
        leap_at_unix(631_152_000) == 25,
        leap_at_unix(662_687_999) == 25,
        leap_at_unix(662_688_000) == 26,
        leap_at_unix(709_948_799) == 26,
        leap_at_unix(709_948_800) == 27,
        leap_at_unix(741_484_799) == 27,
        leap_at_unix(741_484_800) == 28,
        leap_at_unix(773_020_799) == 28,
        leap_at_unix(773_020_800) == 29,
        leap_at_unix(820_454_399) == 29,
        leap_at_unix(820_454_400) == 30,
        leap_at_unix(867_715_199) == 30,
        leap_at_unix(867_715_200) == 31,
        leap_at_unix(915_148_799) == 31,
        leap_at_unix(915_148_800) == 32,
        leap_at_unix(1_136_073_599) == 32,
        leap_at_unix(1_136_073_600) == 33,
        leap_at_unix(1_230_767_999) == 33,
        leap_at_unix(1_230_768_000) == 34,
        leap_at_unix(1_341_100_799) == 34,
        leap_at_unix(1_341_100_800) == 35,
        leap_at_unix(1_435_708_799) == 35,
        leap_at_unix(1_435_708_800) == 36,
        leap_at_unix(1_483_228_799) == 36,
        leap_at_unix(1_483_228_800) == 37,
{
    assert(leap_step_unix(0) == 63_072_000);
    assert(leap_step_unix(1) == 78_796_800);
    assert(leap_step_unix(2) == 94_694_400);
    assert(leap_step_unix(3) == 126_230_400);
    assert(leap_step_unix(4) == 157_766_400);
    assert(leap_step_unix(5) == 189_302_400);
    assert(leap_step_unix(6) == 220_924_800);
    assert(leap_step_unix(7) == 252_460_800);
    assert(leap_step_unix(8) == 283_996_800);
    assert(leap_step_unix(9) == 315_532_800);
    assert(leap_step_unix(10) == 362_793_600);
    assert(leap_step_unix(11) == 394_329_600);
    assert(leap_step_unix(12) == 425_865_600);
    assert(leap_step_unix(13) == 489_024_000);
    assert(leap_step_unix(14) == 567_993_600);
    assert(leap_step_unix(15) == 631_152_000);
    assert(leap_step_unix(16) == 662_688_000);
    assert(leap_step_unix(17) == 709_948_800);
    assert(leap_step_unix(18) == 741_484_800);
    assert(leap_step_unix(19) == 773_020_800);
    assert(leap_step_unix(20) == 820_454_400);
    assert(leap_step_unix(21) == 867_715_200);
    assert(leap_step_unix(22) == 915_148_800);
    assert(leap_step_unix(23) == 1_136_073_600);
    assert(leap_step_unix(24) == 1_230_768_000);
    assert(leap_step_unix(25) == 1_341_100_800);
    assert(leap_step_unix(26) == 1_435_708_800);
    assert(leap_step_unix(27) == 1_483_228_800);
    lemma_leap_around_step(0);
    lemma_leap_around_step(1);
    lemma_leap_around_step(2);
    lemma_leap_around_step(3);
    lemma_leap_around_step(4);
    lemma_leap_around_step(5);
    lemma_leap_around_step(6);
    lemma_leap_around_step(7);
    lemma_leap_around_step(8);
    lemma_leap_around_step(9);
    lemma_leap_around_step(10);
    lemma_leap_around_step(11);
    lemma_leap_around_step(12);
    lemma_leap_around_step(13);
    lemma_leap_around_step(14);
    lemma_leap_around_step(15);
    lemma_leap_around_step(16);
    lemma_leap_around_step(17);
    lemma_leap_around_step(18);
    lemma_leap_around_step(19);
    lemma_leap_around_step(20);
    lemma_leap_around_step(21);
    lemma_leap_around_step(22);
    lemma_leap_around_step(23);
    lemma_leap_around_step(24);
    lemma_leap_around_step(25);
    lemma_leap_around_step(26);
    lemma_leap_around_step(27);
}

/// `TAI − UTC` is always between 10 and 37 seconds, looked up by UTC or by TAI.
pub proof fn lemma_leap_bounds(s: int, t: int)
    ensures
        10 <= leap_at_unix(s) <= 37,
        10 <= leap_at_tai(t) <= 37,
{
    lemma_leap_at_unix_upto_bounds(s, LEAP_STEPS as int);
    lemma_leap_at_tai_upto_bounds(t, LEAP_STEPS as int);
}

/// Inside the second inserted at leap step `i`: `TAI − UTC` looked up by TAI is still the value
/// before the step, so the UTC count reads the first second of the step's day; the last second of
/// the day before has that same value looked up by UTC; and the step falls on a midnight.
pub proof fn lemma_inserted_leap_second(t: int) -> (i: int)
    requires
        in_inserted_leap_second(t),
    ensures
        1 <= i < LEAP_STEPS,
        leap_step_tai(i) - NS_PER_SEC <= t < leap_step_tai(i),
        leap_at_tai(t) == leap_value(i) - 1,
        leap_at_unix(leap_step_unix(i) - 1) == leap_value(i) - 1,
        leap_step_unix(i) * NS_PER_SEC <= t - leap_at_tai(t) * NS_PER_SEC < leap_step_unix(i)
            * NS_PER_SEC + NS_PER_SEC,
        leap_step_unix(i) % (SEC_PER_DAY as int) == 0,
        0 < leap_step_unix(i) < 1_500_000_000,
{
    let i = choose|i: int|
        1 <= i < LEAP_STEPS && #[trigger] leap_step_tai(i) - NS_PER_SEC <= t < leap_step_tai(i);
    lemma_leap_step(i);
    lemma_leap_step(i - 1);
    let j = lemma_leap_at_tai_upto_witness(t, LEAP_STEPS as int);
    assert(leap_step_tai(i - 1) <= t) by (nonlinear_arith)
        requires
            leap_step_unix(i - 1) + 1 <= leap_step_unix(i),
            leap_value(i - 1) == leap_value(i) - 1,
            leap_step_tai(i - 1) == (leap_step_unix(i - 1) + leap_value(i - 1)) * NS_PER_SEC,
            leap_step_tai(i) == (leap_step_unix(i) + leap_value(i)) * NS_PER_SEC,
            leap_step_tai(i) - NS_PER_SEC <= t,
    ;
    if j >= i {
        if j > i {
            lemma_leap_steps_increasing(i, j);
        }
        assert(false);
    }
    if j < i - 1 {
        if j + 1 < i - 1 {
            lemma_leap_steps_increasing(j + 1, i - 1);
        }
        assert(false);
    }
    assert(j == i - 1);
    let s = leap_step_unix(i) - 1;
    lemma_leap_at_unix_upto_reached(s, LEAP_STEPS as int, i - 1);
    lemma_leap_at_unix_upto_not_reached(s, LEAP_STEPS as int, i);
    let day = civil_day_number(leap_table(i).0, leap_table(i).1, leap_table(i).2);
    vstd::arithmetic::div_mod::lemma_mod_multiples_basic(day, SEC_PER_DAY as int);
    i
}

/// Whether the TAI instant `tai_ns` lies in a second inserted at a leap step.
pub fn in_leap_second(tai_ns: i128) -> (b: bool)
    ensures
        b == in_inserted_leap_second(tai_ns as int),
{
    let mut i: usize = 1;
    while i < LEAP_STEPS
        invariant
            1 <= i <= LEAP_STEPS,
            forall|j: int|
                1 <= j < i ==> !(#[trigger] leap_step_tai(j) - NS_PER_SEC <= tai_ns < leap_step_tai(j)),
        decreases LEAP_STEPS - i,
    {
        let (y, m, d, l) = leap_table_entry(i);
        proof {
            lemma_leap_step(i as int);
        }
        let day = days_from_civil(y, m, d);
        let tai_transition = (day * SEC_PER_DAY + l) as i128 * NS_PER_SEC;
        if tai_transition - NS_PER_SEC <= tai_ns && tai_ns < tai_transition {
            assert(leap_step_tai(i as int) - NS_PER_SEC <= tai_ns < leap_step_tai(i as int));
            return true;
        }
        i = i + 1;
    }
    false
}

} // verus!
