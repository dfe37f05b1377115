//! Calendar dates of the two clocks the tool prints: the log stamp
//! (`chrono_like_now`, year by year from 1970) and the recording file name
//! (`civil_datetime_string`, by era arithmetic). Both give the same date.

use vstd::prelude::*;
use crate::ui::apps::{civil_parts, hinnant_yoe};
use crate::ui::ime_shell::{civil_year, is_leap, month_day, month_len, year_len};

verus! {

proof fn bv_year_bounds(x: u32)
    by (bit_vector)
    requires
        x < 146096,
    ensures
        ({
            let yoe = (x - x / 1460 + x / 36524 - x / 146096) / 365;
            &&& yoe < 400
            &&& 365 * yoe + yoe / 4 - yoe / 100 <= x
            &&& x < 365 * (yoe + 1) + (yoe + 1) / 4 - (yoe + 1) / 100
        }),
{
}

proof fn bv_start_mono(a: u32, b: u32)
    by (bit_vector)
    requires
        a < b,
        b < 401,
    ensures
        365 * (a + 1) + (a + 1) / 4 - (a + 1) / 100 <= 365 * b + b / 4 - b / 100,
{
}

proof fn bv_month_step(doy: u32)
    by (bit_vector)
    requires
        doy < 365,
    ensures
        ({
            let mp = (5 * doy + 2) / 153;
            let d = doy - (153 * mp + 2) / 5 + 1;
            let e = (doy + 1) as u32;
            let mp2 = (5 * e + 2) / 153;
            let d2 = e - (153 * mp2 + 2) / 5 + 1;
            let ml = if mp == 11 { 29u32 } else if mp == 1 || mp == 3 || mp == 6 || mp == 8 { 30u32 } else { 31u32 };
            &&& mp <= 11
            &&& 1 <= d && d <= ml
            &&& if d < ml { mp2 == mp && d2 == d + 1 } else { mp2 == mp + 1 && d2 == 1 }
        }),
{
}

proof fn bv_month_end(doy: u32)
    by (bit_vector)
    requires
        doy == 364 || doy == 365,
    ensures
        ({
            let mp = (5 * doy + 2) / 153;
            let d = doy - (153 * mp + 2) / 5 + 1;
            mp == 11 && d == doy - 336
        }),
{
}

proof fn bv_year_len(yoe: u32)
    by (bit_vector)
    requires
        yoe < 399,
    ensures
        ({
            let s0 = 365 * yoe + yoe / 4 - yoe / 100;
            let s1 = 365 * (yoe + 1) + (yoe + 1) / 4 - (yoe + 1) / 100;
            let y = yoe + 1;
            let leap = (y % 4 == 0 && y % 100 != 0) || y % 400 == 0;
            s1 - s0 == if leap { 366u32 } else { 365u32 }
        }),
{
}


proof fn bv_start_gap(a: u32)
    by (bit_vector)
    requires
        a < 400,
    ensures
        365 * a + a / 4 - a / 100 + 365 <= 365 * (a + 1) + (a + 1) / 4 - (a + 1) / 100,
{
}

/// The first day (from 1 March of year 0 of the era) of year `yoe` of an era.
pub open spec fn year_start(yoe: int) -> int {
    365 * yoe + yoe / 4 - yoe / 100
}

/// The date of day `doe` of a 400-year era that starts on 1 March: the year
/// within the era (January and February count to the next year), the month
/// and the day.
pub open spec fn era_date(doe: int) -> (int, int, int) {
    let yoe = hinnant_yoe(doe);
    let doy = doe - year_start(yoe);
    let mp = (5 * doy + 2) / 153;
    let d = doy - (153 * mp + 2) / 5 + 1;
    let m = if mp < 10 { mp + 3 } else { mp - 9 };
    (if m <= 2 { yoe + 1 } else { yoe }, m, d)
}

/// The date of day `n` after 1970-01-01 by era arithmetic.
pub open spec fn era_calendar(n: int) -> (int, int, int) {
    let z = n + 719468;
    let era = z / 146097;
    let e = era_date(z - era * 146097);
    (era * 400 + e.0, e.1, e.2)
}

/// The date of day `n` after 1970-01-01, counting whole years and months.
pub open spec fn counted_calendar(n: int) -> (int, int, int) {
    let (y, d) = civil_year(1970, n);
    let (mo, day) = month_day(0, d + 1, is_leap(y));
    (y, mo + 1, day)
}

/// The day after a date.
pub open spec fn next_date(date: (int, int, int)) -> (int, int, int) {
    let (y, m, d) = date;
    if d < month_len(m - 1, is_leap(y)) {
        (y, m, d + 1)
    } else if m < 12 {
        (y, m + 1, 1)
    } else {
        (y + 1, 1, 1)
    }
}

proof fn lemma_year_of_era(x: int)
    requires
        0 <= x < 146096,
    ensures
        0 <= hinnant_yoe(x) < 400,
        year_start(hinnant_yoe(x)) <= x < year_start(hinnant_yoe(x) + 1),
{
    bv_year_bounds(x as u32);
}

proof fn lemma_start_mono(a: int, b: int)
    requires
        0 <= a < b <= 400,
    ensures
        year_start(a + 1) <= year_start(b),
{
    bv_start_mono(a as u32, b as u32);
}

proof fn lemma_start_gap(a: int)
    requires
        0 <= a < 400,
    ensures
        year_start(a) + 365 <= year_start(a + 1),
{
    bv_start_gap(a as u32);
}

proof fn lemma_year_len(yoe: int)
    requires
        0 <= yoe < 399,
    ensures
        year_start(yoe + 1) - year_start(yoe) == if is_leap(yoe + 1) { 366int } else { 365int },
{
    bv_year_len(yoe as u32);
}

/// The March-based month step: month `mp` of a year has `ml` days, February
/// counted with 29.
proof fn lemma_month_step(doy: int)
    requires
        0 <= doy < 365,
    ensures
        ({
            let mp = (5 * doy + 2) / 153;
            let d = doy - (153 * mp + 2) / 5 + 1;
            let e = doy + 1;
            let mp2 = (5 * e + 2) / 153;
            let d2 = e - (153 * mp2 + 2) / 5 + 1;
            let ml = if mp == 11 { 29int } else if mp == 1 || mp == 3 || mp == 6 || mp == 8 { 30int } else { 31int };
            &&& 0 <= mp <= 11
            &&& 1 <= d <= ml
            &&& if d < ml { mp2 == mp && d2 == d + 1 } else { mp2 == mp + 1 && d2 == 1 }
        }),
{
    bv_month_step(doy as u32);
}

proof fn lemma_month_end(doy: int)
    requires
        doy == 364 || doy == 365,
    ensures
        (5 * doy + 2) / 153 == 11,
        doy - (153 * ((5 * doy + 2) / 153) + 2) / 5 + 1 == doy - 336,
{
    bv_month_end(doy as u32);
}

/// Within an era, the next day's date is the day after.
proof fn lemma_era_step(doe: int)
    requires
        0 <= doe < 146096,
    ensures
        era_date(doe + 1) == next_date(era_date(doe)),
{
    if doe == 146095 {
        assert(hinnant_yoe(146095) == 399);
        assert(hinnant_yoe(146096) == 399);
        assert(year_start(399) == 145731);
        assert((5 * 364int + 2) / 153 == 11);
        assert((5 * 365int + 2) / 153 == 11);
        assert((153 * 11int + 2) / 5 == 337);
        assert(is_leap(400));
        return;
    }
    let yoe = hinnant_yoe(doe);
    let yoe2 = hinnant_yoe(doe + 1);
    lemma_year_of_era(doe);
    lemma_year_of_era(doe + 1);
    let doy = doe - year_start(yoe);
    lemma_start_gap(yoe);
    if doe + 1 < year_start(yoe + 1) {
        if yoe2 > yoe {
            lemma_start_mono(yoe, yoe2);
        } else if yoe2 < yoe {
            lemma_start_mono(yoe2, yoe);
        }
        assert(yoe2 == yoe);
        assert(doy + 1 < year_start(yoe + 1) - year_start(yoe));
        if yoe < 399 {
            lemma_year_len(yoe);
        } else {
            assert(year_start(400) - year_start(399) == 365);
        }
        lemma_month_step(doy);
        let mp = (5 * doy + 2) / 153;
        let d = doy - (153 * mp + 2) / 5 + 1;
        if mp == 11 && d == 28 {
            assert(doy == 364) by {
                assert((153 * 11int + 2) / 5 == 337);
            }
        }
    } else {
        assert(doe + 1 == year_start(yoe + 1));
        if yoe2 <= yoe {
            if yoe2 < yoe {
                lemma_start_mono(yoe2, yoe);
            }
            assert(false);
        } else if yoe2 > yoe + 1 {
            lemma_start_mono(yoe + 1, yoe2);
            lemma_start_gap(yoe + 1);
            assert(false);
        }
        assert(yoe2 == yoe + 1);
        assert(yoe < 399);
        lemma_year_len(yoe);
        lemma_month_end(doy);
        assert(doe + 1 - year_start(yoe2) == 0);
        assert((5 * 0int + 2) / 153 == 0);
        assert((153 * 0int + 2) / 5 == 0);
    }
}

proof fn lemma_leap_shift(k: int, y: int)
    requires
        k >= 0,
    ensures
        is_leap(400 * k + y) == is_leap(y),
{
    assert((400 * k + y) % 4 == y % 4) by (nonlinear_arith) requires k >= 0;
    assert((400 * k + y) % 100 == y % 100) by (nonlinear_arith) requires k >= 0;
    assert((400 * k + y) % 400 == y % 400) by (nonlinear_arith) requires k >= 0;
}

proof fn lemma_next_shift(k: int, date: (int, int, int))
    requires
        k >= 0,
    ensures
        next_date((400 * k + date.0, date.1, date.2))
            == ({ let n = next_date(date); (400 * k + n.0, n.1, n.2) }),
{
    lemma_leap_shift(k, date.0);
}

/// The era calendar moves on by one day at a time.
proof fn lemma_era_calendar_step(n: int)
    requires
        n >= 0,
    ensures
        era_calendar(n + 1) == next_date(era_calendar(n)),
{
    let z = n + 719468;
    let era = z / 146097;
    let doe = z - era * 146097;
    assert(0 <= doe < 146097) by (nonlinear_arith) requires era == z / 146097, doe == z - era * 146097, z >= 0;
    assert(era >= 0) by (nonlinear_arith) requires era == z / 146097, z >= 0;
    if doe < 146096 {
        assert((z + 1) / 146097 == era) by (nonlinear_arith)
            requires era == z / 146097, doe == z - era * 146097, 0 <= doe < 146096;
        lemma_era_step(doe);
        lemma_next_shift(era, era_date(doe));
        assert(era * 400 == 400 * era);
    } else {
        assert((z + 1) / 146097 == era + 1) by (nonlinear_arith)
            requires era == z / 146097, doe == z - era * 146097, doe == 146096;
        assert(z + 1 - (era + 1) * 146097 == 0) by (nonlinear_arith)
            requires doe == z - era * 146097, doe == 146096;
        assert(hinnant_yoe(146096) == 399);
        assert(year_start(399) == 145731);
        assert((5 * 365int + 2) / 153 == 11);
        assert((153 * 11int + 2) / 5 == 337);
        assert(era_date(146096) == (400int, 2int, 29int));
        assert(hinnant_yoe(0) == 0);
        assert(era_date(0) == (0int, 3int, 1int));
        lemma_leap_shift(era + 1, 0);
        assert(is_leap(0));
        assert(era * 400 + 400 == 400 * (era + 1) + 0);
    }
}

/// The days of months `k..12` of a year.
pub open spec fn rest_of_year(k: int, leap: bool) -> int
    decreases 12 - k,
{
    if k >= 12 { 0 } else { month_len(k, leap) + rest_of_year(k + 1, leap) }
}

proof fn lemma_rest_pos(k: int, leap: bool)
    ensures
        k < 12 ==> rest_of_year(k, leap) >= month_len(k, leap) + (if k < 11 { 28int } else { 0int }),
        rest_of_year(k, leap) >= 0,
    decreases 12 - k,
{
    if k < 12 {
        lemma_rest_pos(k + 1, leap);
    }
}

proof fn lemma_rest_year(leap: bool)
    ensures
        rest_of_year(0, leap) == if leap { 366int } else { 365int },
{
    reveal_with_fuel(rest_of_year, 13);
}

/// Counting months: the next day of a year is the next day of its month,
/// or the first of the next month; the last day is 31 December.
proof fn lemma_month_day_step(k: int, day: int, leap: bool)
    requires
        0 <= k < 12,
        1 <= day <= rest_of_year(k, leap),
    ensures
        ({
            let (mo, dd) = month_day(k, day, leap);
            &&& k <= mo <= 11
            &&& 1 <= dd <= month_len(mo, leap)
            &&& day < rest_of_year(k, leap) ==> !(mo == 11 && dd == month_len(11, leap))
            &&& day < rest_of_year(k, leap) ==> month_day(k, day + 1, leap)
                == (if dd < month_len(mo, leap) { (mo, dd + 1) } else { (mo + 1, 1int) })
            &&& day == rest_of_year(k, leap) ==> mo == 11 && dd == month_len(11, leap)
        }),
    decreases 12 - k,
{
    lemma_rest_pos(k, leap);
    lemma_rest_pos(k + 1, leap);
    if day <= month_len(k, leap) {
        if day == month_len(k, leap) && k < 11 {
            assert(month_day(k + 1, 1, leap) == (k + 1, 1int));
        }
    } else {
        lemma_month_day_step(k + 1, day - month_len(k, leap), leap);
    }
}

/// Counting years: the next day is the next day of the year, or 1 January.
proof fn lemma_civil_year_step(y: int, d: int)
    requires
        d >= 0,
    ensures
        0 <= civil_year(y, d).1 < year_len(civil_year(y, d).0),
        civil_year(y, d + 1) == (if civil_year(y, d).1 + 1 < year_len(civil_year(y, d).0) {
            (civil_year(y, d).0, civil_year(y, d).1 + 1)
        } else {
            (civil_year(y, d).0 + 1, 0int)
        }),
    decreases d,
{
    if d >= year_len(y) {
        lemma_civil_year_step(y + 1, d - year_len(y));
    } else if d + 1 == year_len(y) {
        assert(civil_year(y + 1, 0) == (y + 1, 0int));
    }
}

/// The counted calendar moves on by one day at a time.
proof fn lemma_counted_calendar_step(n: int)
    requires
        n >= 0,
    ensures
        counted_calendar(n + 1) == next_date(counted_calendar(n)),
{
    let (y, d) = civil_year(1970, n);
    lemma_civil_year_step(1970, n);
    let leap = is_leap(y);
    lemma_rest_year(leap);
    lemma_month_day_step(0, d + 1, leap);
    if d + 1 < year_len(y) {
        assert(counted_calendar(n + 1) == ({ let (mo, day) = month_day(0, d + 2, leap); (y, mo + 1, day) }));
    } else {
        assert(month_day(0, 1, leap) == (0int, 1int));
    }
}

proof fn bv_last_era_year(doe: u32)
    by (bit_vector)
    requires
        doe <= 146036,
    ensures
        ({
            let yoe = (doe - doe / 1460 + doe / 36524 - doe / 146096) / 365;
            let doy = doe - (365 * yoe + yoe / 4 - yoe / 100);
            let mp = (5 * doy + 2) / 153;
            let m = if mp < 10 { mp + 3 } else { mp - 9 };
            (if m <= 2 { yoe + 1 } else { yoe }) <= 399
        }),
{
}

proof fn bv_era_year(doe: u32)
    by (bit_vector)
    requires
        doe < 146097,
    ensures
        ({
            let yoe = (doe - doe / 1460 + doe / 36524 - doe / 146096) / 365;
            let doy = doe - (365 * yoe + yoe / 4 - yoe / 100);
            let mp = (5 * doy + 2) / 153;
            let m = if mp < 10 { mp + 3 } else { mp - 9 };
            (if m <= 2 { yoe + 1 } else { yoe }) <= 400
        }),
{
}

/// Both calendars give the same date for every day from 1970-01-01 on.
pub proof fn lemma_calendars_agree(n: nat)
    ensures
        era_calendar(n as int) == counted_calendar(n as int),
    decreases n,
{
    if n == 0 {
        assert(719468int / 146097 == 4);
        assert(hinnant_yoe(135080) == 369);
        assert(year_start(369) == 134774);
        assert((5 * 306int + 2) / 153 == 10);
        assert((153 * 10int + 2) / 5 == 306);
        assert(era_calendar(0) == (1970int, 1int, 1int));
        assert(civil_year(1970, 0) == (1970int, 0int));
        assert(month_day(0, 1, is_leap(1970)) == (0int, 1int));
    } else {
        lemma_calendars_agree((n - 1) as nat);
        lemma_era_calendar_step(n - 1);
        lemma_counted_calendar_step(n - 1);
    }
}

/// Up to the end of year 9999 the era calendar's year has four digits.
proof fn lemma_year_below_10000(n: int)
    requires
        0 <= n < 2932897,
    ensures
        1600 <= era_calendar(n).0 <= 9999,
{
    let z = n + 719468;
    let era = z / 146097;
    let doe = z - era * 146097;
    assert(0 <= doe < 146097 && 4 <= era <= 24) by (nonlinear_arith)
        requires era == z / 146097, doe == z - era * 146097, 719468 <= z < 3652365;
    bv_era_year(doe as u32);
    assert(era_date(doe).0 >= 0) by {
        lemma_year_of_era_total(doe);
    }
    if era == 24 {
        assert(doe <= 146036);
        bv_last_era_year(doe as u32);
    }
}

proof fn lemma_year_of_era_total(doe: int)
    requires
        0 <= doe < 146097,
    ensures
        era_date(doe).0 >= 0,
{
    if doe < 146096 {
        lemma_year_of_era(doe);
        let yoe = hinnant_yoe(doe);
        lemma_start_gap(yoe);
        let doy = doe - year_start(yoe);
        assert(0 <= doy < 366);
        assert((5 * doy + 2) / 153 >= 0);
    } else {
        assert(hinnant_yoe(146096) == 399);
    }
}

proof fn lemma_padded_len(v: nat, w: nat)
    requires
        w == 2 && v < 100 || w == 4 && v < 10000,
    ensures
        crate::text::decimal_padded(v, w).len() == w,
{
    crate::text::lemma_decimal_len(v);
}

/// The log stamp and the recording file name tell the same time: up to the
/// end of year 9999, `chrono_like_now` gives the date and the minute of
/// `civil_datetime_string`, as `YYYY-MM-DD HH:MM`.
pub proof fn law_log_stamp_matches_file_stamp(secs: nat)
    requires
        secs < 253402300800,
    ensures
        ({
            let c = crate::ui::apps::spec_civil_datetime_string(secs);
            crate::ui::ime_shell::spec_chrono_like_now(secs)
                == c.subrange(0, 10) + " "@ + c.subrange(11, 13) + ":"@ + c.subrange(14, 16)
        }),
{
    let days = secs / 86400;
    assert(days < 2932897);
    assert(days % 0x1_0000_0000 == days);
    lemma_calendars_agree(days);
    lemma_year_below_10000(days as int);
    let (y, m, d, h, mi, sec) = civil_parts(secs);
    assert((y, m, d) == era_calendar(days as int));
    let (cy, cd) = civil_year(1970, days as int);
    lemma_civil_year_step(1970, days as int);
    assert(cd >= 0);
    let leap = is_leap(cy);
    lemma_rest_year(leap);
    lemma_month_day_step(0, cd + 1, leap);
    assert(month_len(0, leap) <= 31 && month_len(1, leap) <= 31);
    assert(1 <= d <= 31 && 1 <= m <= 12);
    assert(0 <= h < 24 && 0 <= mi < 60 && 0 <= sec < 60);
    let a = crate::text::decimal_padded(y as nat, 4);
    let b = crate::text::decimal_padded(m as nat, 2);
    let dd = crate::text::decimal_padded(d as nat, 2);
    let hh = crate::text::decimal_padded(h as nat, 2);
    let ee = crate::text::decimal_padded(mi as nat, 2);
    let ff = crate::text::decimal_padded(sec as nat, 2);
    lemma_padded_len(y as nat, 4);
    lemma_padded_len(m as nat, 2);
    lemma_padded_len(d as nat, 2);
    lemma_padded_len(h as nat, 2);
    lemma_padded_len(mi as nat, 2);
    lemma_padded_len(sec as nat, 2);
    reveal_strlit("-");
    reveal_strlit("_");
    reveal_strlit(" ");
    reveal_strlit(":");
    let c = crate::ui::apps::spec_civil_datetime_string(secs);
    assert(c == a + "-"@ + b + "-"@ + dd + "_"@ + hh + "-"@ + ee + "-"@ + ff);
    assert(c.subrange(0, 10) =~= a + "-"@ + b + "-"@ + dd);
    assert(c.subrange(11, 13) =~= hh);
    assert(c.subrange(14, 16) =~= ee);
    assert(crate::ui::ime_shell::spec_chrono_like_now(secs) =~= a + "-"@ + b + "-"@ + dd + " "@ + hh + ":"@ + ee);
}

} // verus!
