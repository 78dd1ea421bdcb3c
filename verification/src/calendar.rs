//! The proleptic Gregorian calendar: from epoch seconds to a civil date
//! and time of day, and their text.
//!
//! Days are counted from the calendar's year 0, january the first; the
//! unix epoch sits at day 719528.  Years group into 400-year eras of
//! exactly 146097 days, which makes a year's leap status a function of
//! its position in the era.  The conversion's contract pins the result
//! completely: the parts are a well-formed civil datetime, and their day
//! and second counts equal the input.

use vstd::prelude::*;

use crate::decimal::{spec_u128_to_decimal, u128_to_decimal};

verus! {

/// Leap status of year-of-era `yoe` (0 to 399).
pub open spec fn leap_of_yoe(yoe: int) -> bool {
    yoe % 4 == 0 && (yoe % 100 != 0 || yoe == 0)
}

/// Days in the era's years before year-of-era `yoe`: 365 per year plus
/// one per leap year among them.
pub open spec fn days_before_yoe(yoe: int) -> int {
    if yoe <= 0 {
        0
    } else {
        365 * yoe + (yoe - 1) / 4 - (yoe - 1) / 100 + 1
    }
}

/// Days in month `m` (1 to 12) of a year with the given leap status.
pub open spec fn spec_days_in_month(leap: bool, m: int) -> int {
    if m == 2 {
        if leap {
            29
        } else {
            28
        }
    } else if m == 4 || m == 6 || m == 9 || m == 11 {
        30
    } else {
        31
    }
}

/// Days of such a year before month `m`.
pub open spec fn days_before_month(leap: bool, m: int) -> int
    decreases m,
{
    if m <= 1 {
        0
    } else {
        days_before_month(leap, m - 1) + spec_days_in_month(leap, m - 1)
    }
}

/// The day number of a civil date, counted from year 0, january the
/// first (day 0).
pub open spec fn spec_day_number(y: int, m: int, d: int) -> int {
    (y / 400) * 146097 + days_before_yoe(y % 400) + days_before_month(leap_of_yoe(y % 400), m) + d
        - 1
}

/// A well-formed civil date: month 1 to 12, day within the month.
pub open spec fn valid_civil_date(y: int, m: int, d: int) -> bool {
    &&& 1 <= m <= 12
    &&& 1 <= d <= spec_days_in_month(leap_of_yoe(y % 400), m)
}

/// The epoch second count of a civil datetime.
pub open spec fn spec_epoch_seconds(y: int, m: int, d: int, hh: int, mi: int, ss: int) -> int {
    (spec_day_number(y, m, d) - 719528) * 86400 + hh * 3600 + mi * 60 + ss
}

/// One more year of the era adds 365 or 366 days by its leap status.
proof fn lemma_days_before_yoe_step(yoe: int)
    requires
        0 <= yoe < 400,
    ensures
        days_before_yoe(yoe + 1) == days_before_yoe(yoe) + if leap_of_yoe(yoe) {
            366int
        } else {
            365int
        },
{
    if yoe >= 1 {
        assert(yoe / 4 - (yoe - 1) / 4 == if yoe % 4 == 0 {
            1int
        } else {
            0int
        }) by (nonlinear_arith)
            requires
                yoe >= 1,
        ;
        assert(yoe / 100 - (yoe - 1) / 100 == if yoe % 100 == 0 {
            1int
        } else {
            0int
        }) by (nonlinear_arith)
            requires
                yoe >= 1,
        ;
        assert(yoe % 100 == 0 ==> yoe % 4 == 0) by (nonlinear_arith)
            requires
                yoe >= 1,
        ;
    }
}

/// A year's month lengths sum to exactly its length.
proof fn lemma_months_total(leap: bool)
    ensures
        days_before_month(leap, 13) == if leap {
            366int
        } else {
            365int
        },
{
    reveal_with_fuel(days_before_month, 14);
}

/// Length of year-of-era `yoe` in days.
fn year_len_of(yoe: u64) -> (r: u64)
    requires
        yoe < 400,
    ensures
        r == if leap_of_yoe(yoe as int) {
            366int
        } else {
            365int
        },
{
    if yoe % 4 == 0 && (yoe % 100 != 0 || yoe == 0) {
        366
    } else {
        365
    }
}

/// Length of month `m` in days.
fn month_len_of(leap: bool, m: u8) -> (r: u64)
    requires
        1 <= m <= 12,
    ensures
        r == spec_days_in_month(leap, m as int),
{
    if m == 2 {
        if leap {
            29
        } else {
            28
        }
    } else if m == 4 || m == 6 || m == 9 || m == 11 {
        30
    } else {
        31
    }
}

/// The civil date of a day number: the unique well-formed date whose day
/// count equals the input.
pub fn civil_from_days(day: i64) -> (r: (i64, u8, u8))
    requires
        -120_000_000_000_000 <= day <= 120_000_000_000_000,
    ensures
        valid_civil_date(r.0 as int, r.1 as int, r.2 as int),
        spec_day_number(r.0 as int, r.1 as int, r.2 as int) == day,
{
    // shift by a whole number of eras into the unsigned domain
    let shifted: u64 = (day + 900_000_000i64 * 146097) as u64;
    let era_shifted: u64 = shifted / 146097;
    let doe: u64 = shifted % 146097;
    proof {
        vstd::arithmetic::div_mod::lemma_fundamental_div_mod(shifted as int, 146097);
        assert(shifted / 146097 < 2_000_000_000) by (nonlinear_arith)
            requires
                shifted <= 251_487_300_000_000u64,
        ;
    }
    let mut yoe: u64 = 0;
    let mut rem: u64 = doe;
    while rem >= year_len_of(yoe)
        invariant
            0 <= yoe <= 399,
            doe < 146097,
            days_before_yoe(yoe as int) + rem == doe,
        decreases rem,
    {
        proof {
            lemma_days_before_yoe_step(yoe as int);
            if yoe == 399 {
                assert(days_before_yoe(399) == 145732);
                assert(!leap_of_yoe(399));
                assert(false);
            }
        }
        rem = rem - year_len_of(yoe);
        yoe = yoe + 1;
    }
    let leap = year_len_of(yoe) == 366;
    proof {
        assert(leap == leap_of_yoe(yoe as int));
    }
    let mut m: u8 = 1;
    let mut mday: u64 = rem;
    while mday >= month_len_of(leap, m)
        invariant
            1 <= m <= 12,
            leap == leap_of_yoe(yoe as int),
            0 <= yoe <= 399,
            rem < if leap {
                366int
            } else {
                365int
            },
            days_before_month(leap, m as int) + mday == rem,
        decreases 12 - m,
    {
        proof {
            if m == 12 {
                lemma_months_total(leap);
                assert(false);
            }
        }
        mday = mday - month_len_of(leap, m);
        m = m + 1;
    }
    let d: u8 = (mday + 1) as u8;
    let y: i64 = (era_shifted as i64 - 900_000_000) * 400 + (yoe as i64);
    proof {
        let era = era_shifted as int - 900_000_000;
        vstd::arithmetic::div_mod::lemma_fundamental_div_mod_converse(
            y as int,
            400,
            era,
            yoe as int,
        );
        assert(day == era * 146097 + doe);
    }
    (y, m, d)
}

/// Splits epoch seconds into the civil date and the time of day: the
/// unique well-formed parts whose second count equals the input.
pub fn datetime_parts(ts: i64) -> (r: (i64, u8, u8, u8, u8, u8))
    ensures
        valid_civil_date(r.0 as int, r.1 as int, r.2 as int),
        r.3 < 24 && r.4 < 60 && r.5 < 60,
        spec_epoch_seconds(
            r.0 as int,
            r.1 as int,
            r.2 as int,
            r.3 as int,
            r.4 as int,
            r.5 as int,
        ) == ts,
{
    // shift by a whole number of days into the unsigned domain
    let shifted: u128 = ((ts as i128) + 106_800_000_000_000i128 * 86400) as u128;
    let day_u: u128 = shifted / 86400;
    let sod: u64 = (shifted % 86400) as u64;
    proof {
        vstd::arithmetic::div_mod::lemma_fundamental_div_mod(shifted as int, 86400);
        assert(shifted / 86400 < 250_000_000_000_000) by (nonlinear_arith)
            requires
                shifted <= 18_450_892_036_854_775_807u128,
        ;
        assert(shifted / 86400 >= 47_000_000_000) by (nonlinear_arith)
            requires
                shifted >= 4_147_963_145_224_192u128,
        ;
    }
    let day: i64 = (day_u as i64) - 106_800_000_000_000i64 + 719_528i64;
    let (y, m, d) = civil_from_days(day);
    let hh: u8 = (sod / 3600) as u8;
    let rest: u64 = sod % 3600;
    let mi: u8 = (rest / 60) as u8;
    let ss: u8 = (rest % 60) as u8;
    proof {
        vstd::arithmetic::div_mod::lemma_fundamental_div_mod(sod as int, 3600);
        vstd::arithmetic::div_mod::lemma_fundamental_div_mod(rest as int, 60);
    }
    (y, m, d, hh, mi, ss)
}

/// A number as two digits, zero-padded.
pub open spec fn spec_pad2(n: int) -> Seq<char> {
    if n < 10 {
        "0"@ + spec_u128_to_decimal(n as u128)
    } else {
        spec_u128_to_decimal(n as u128)
    }
}

/// A non-negative year as at least four digits, zero-padded.
pub open spec fn spec_pad4(n: int) -> Seq<char> {
    if n < 10 {
        "000"@ + spec_u128_to_decimal(n as u128)
    } else if n < 100 {
        "00"@ + spec_u128_to_decimal(n as u128)
    } else if n < 1000 {
        "0"@ + spec_u128_to_decimal(n as u128)
    } else {
        spec_u128_to_decimal(n as u128)
    }
}

/// A year, signed, zero-padded to at least four digits.
pub open spec fn spec_year_text(y: int) -> Seq<char> {
    if y >= 0 {
        spec_pad4(y)
    } else {
        "-"@ + spec_pad4(-y)
    }
}

/// The one-line text of a civil datetime.
pub open spec fn spec_datetime_text(y: int, m: int, d: int, hh: int, mi: int, ss: int) -> Seq<
    char,
> {
    spec_year_text(y) + "-"@ + spec_pad2(m) + "-"@ + spec_pad2(d) + " "@ + spec_pad2(hh) + ":"@
        + spec_pad2(mi) + ":"@ + spec_pad2(ss)
}

/// Two zero-padded digits.
fn pad2(n: u8) -> (r: String)
    requires
        n < 100,
    ensures
        r@ == spec_pad2(n as int),
{
    if n < 10 {
        let mut out = String::from_str("0");
        let digits = u128_to_decimal(n as u128);
        out.append(digits.as_str());
        proof {
            assert(out@ =~= spec_pad2(n as int));
        }
        out
    } else {
        u128_to_decimal(n as u128)
    }
}

/// A year, zero-padded to at least four digits.
fn year_text(y: i64) -> (r: String)
    ensures
        r@ == spec_year_text(y as int),
{
    let magnitude: u128 = if y >= 0 {
        y as u128
    } else {
        (-(y as i128)) as u128
    };
    let digits = u128_to_decimal(magnitude);
    let mut out = if y >= 0 {
        String::new()
    } else {
        String::from_str("-")
    };
    if magnitude < 10 {
        out.append("000");
    } else if magnitude < 100 {
        out.append("00");
    } else if magnitude < 1000 {
        out.append("0");
    }
    out.append(digits.as_str());
    proof {
        assert(out@ =~= spec_year_text(y as int));
    }
    out
}

/// Renders epoch seconds as a one-line civil datetime.  The output is
/// the text of the well-formed civil datetime whose second count is
/// exactly `ts`.
pub fn datetime_text(ts: i64) -> (r: String)
    ensures
        exists|y: int, m: int, d: int, hh: int, mi: int, ss: int|
            {
                &&& valid_civil_date(y, m, d)
                &&& 0 <= hh < 24 && 0 <= mi < 60 && 0 <= ss < 60
                &&& spec_epoch_seconds(y, m, d, hh, mi, ss) == ts
                &&& r@ == #[trigger] spec_datetime_text(y, m, d, hh, mi, ss)
            },
{
    let (y, m, d, hh, mi, ss) = datetime_parts(ts);
    let mut out = year_text(y);
    out.append("-");
    let part = pad2(m);
    out.append(part.as_str());
    out.append("-");
    let part = pad2(d);
    out.append(part.as_str());
    out.append(" ");
    let part = pad2(hh);
    out.append(part.as_str());
    out.append(":");
    let part = pad2(mi);
    out.append(part.as_str());
    out.append(":");
    let part = pad2(ss);
    out.append(part.as_str());
    proof {
        assert(out@ =~= spec_datetime_text(
            y as int,
            m as int,
            d as int,
            hh as int,
            mi as int,
            ss as int,
        ));
    }
    out
}

} // verus!
