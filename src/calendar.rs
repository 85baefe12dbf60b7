//! Civil dates and epoch days in the proleptic Gregorian calendar, by the
//! integer days-from-civil / civil-from-days algorithm.

use vstd::prelude::*;

verus! {

pub open spec fn is_leap(y: int) -> bool {
    y % 4 == 0 && (y % 100 != 0 || y % 400 == 0)
}

pub open spec fn days_in_month(y: int, m: int) -> int {
    if m == 2 {
        if is_leap(y) {
            29
        } else {
            28
        }
    } else if m == 4 || m == 6 || m == 9 || m == 11 {
        30
    } else {
        31
    }
}

/// `(y, m, d)` names a day of the calendar.
pub open spec fn valid_date(y: int, m: int, d: int) -> bool {
    1 <= m <= 12 && 1 <= d <= days_in_month(y, m)
}

/// Days from 1970-01-01 to the civil date `(y, m, d)`.
///
/// Years are counted from March, so that the leap day ends the year; an era
/// is a 400-year cycle of 146097 days.
pub open spec fn epoch_day(y: int, m: int, d: int) -> int {
    let yy = if m <= 2 { y - 1 } else { y };
    let era = yy / 400;
    let yoe = yy - era * 400;
    let mp = if m > 2 { m - 3 } else { m + 9 };
    let doy = (153 * mp + 2) / 5 + d - 1;
    let doe = yoe * 365 + yoe / 4 - yoe / 100 + doy;
    era * 146097 + doe - 719468
}

/// The year of a day within its 400-year era (`doe` in 0..146097).
pub open spec fn year_of_era(doe: int) -> int {
    (doe - doe / 1460 + doe / 36524 - doe / 146096) / 365
}

/// The first day, within its era, of year `yoe` of the era.
pub open spec fn start_of_year(yoe: int) -> int {
    365 * yoe + yoe / 4 - yoe / 100
}

/// The civil date `(year, month, day)` of day `z` counted from 1970-01-01.
pub open spec fn civil_of_day(z: int) -> (int, int, int) {
    let zz = z + 719468;
    let era = zz / 146097;
    let doe = zz - era * 146097;
    let yoe = year_of_era(doe);
    let y = yoe + era * 400;
    let doy = doe - start_of_year(yoe);
    let mp = (5 * doy + 2) / 153;
    let d = doy - (153 * mp + 2) / 5 + 1;
    let m = if mp < 10 { mp + 3 } else { mp - 9 };
    (if m <= 2 { y + 1 } else { y }, m, d)
}

/// The number of days in month `m` (1 to 12) of year `y`.
pub fn month_length(y: u64, m: u64) -> (r: u64)
    requires
        1 <= m <= 12,
    ensures
        r == days_in_month(y as int, m as int),
{
    if m == 2 {
        if y % 4 == 0 && (y % 100 != 0 || y % 400 == 0) {
            29
        } else {
            28
        }
    } else if m == 4 || m == 6 || m == 9 || m == 11 {
        30
    } else {
        31
    }
}

/// Years that the executable conversions accept.
pub const MAX_YEAR_MAGNITUDE: i64 = 1_000_000_000;

/// Day numbers that the executable conversions accept.
pub const MAX_DAY_MAGNITUDE: i64 = 0x4000_0000_0000_0000;

/// Days from 1970-01-01 to the civil date `(y, m, d)`.
pub fn days_from_civil(y: i64, m: u32, d: u32) -> (r: i64)
    requires
        valid_date(y as int, m as int, d as int),
        -MAX_YEAR_MAGNITUDE <= y <= MAX_YEAR_MAGNITUDE,
    ensures
        r == epoch_day(y as int, m as int, d as int),
{
    let yy: i64 = if m <= 2 { y - 1 } else { y };
    let era: i64 = if yy >= 0 { yy / 400 } else { (yy - 399) / 400 };
    assert(era == yy as int / 400);
    let yoe: i64 = yy - era * 400;
    assert(0 <= yoe < 400);
    let mp: i64 = if m > 2 { m as i64 - 3 } else { m as i64 + 9 };
    let doy: i64 = (153 * mp + 2) / 5 + d as i64 - 1;
    assert(0 <= doy <= 365);
    let doe: i64 = yoe * 365 + yoe / 4 - yoe / 100 + doy;
    era * 146097 + doe - 719468
}

/// The civil date `(year, month, day)` of day `z` counted from 1970-01-01.
pub fn civil_from_days(z: i64) -> (r: (i64, u32, u32))
    requires
        -MAX_DAY_MAGNITUDE <= z <= MAX_DAY_MAGNITUDE,
    ensures
        (r.0 as int, r.1 as int, r.2 as int) == civil_of_day(z as int),
        valid_date(r.0 as int, r.1 as int, r.2 as int),
{
    proof {
        lemma_civil_of_day_valid(z as int);
    }
    let zz: i64 = z + 719468;
    let era: i64 = if zz >= 0 { zz / 146097 } else { (zz - 146096) / 146097 };
    assert(era == zz as int / 146097);
    let doe: i64 = zz - era * 146097;
    proof {
        lemma_year_of_era_bounds(doe as int);
    }
    let yoe: i64 = (doe - doe / 1460 + doe / 36524 - doe / 146096) / 365;
    let y: i64 = yoe + era * 400;
    let doy: i64 = doe - (365 * yoe + yoe / 4 - yoe / 100);
    let mp: i64 = (5 * doy + 2) / 153;
    let d: i64 = doy - (153 * mp + 2) / 5 + 1;
    let m: i64 = if mp < 10 { mp + 3 } else { mp - 9 };
    let year: i64 = if m <= 2 { y + 1 } else { y };
    (year, m as u32, d as u32)
}

proof fn lemma_year_of_era_of_start(yoe: int, doy: int)
    requires
        0 <= yoe < 400,
        0 <= doy <= 365,
        doy == 365 ==> (yoe % 4 == 3 && (yoe % 100 != 99 || yoe == 399)),
    ensures
        year_of_era(start_of_year(yoe) + doy) == yoe,
{
    let c = yoe / 100;
    let q = (yoe % 100) / 4;
    let r = yoe % 4;
    assert(yoe == 100 * c + 4 * q + r);
    assert(yoe / 4 == 25 * c + q);
    let doe = start_of_year(yoe) + doy;
    assert(doe == 36524 * c + 1461 * q + 365 * r + doy);
    if doe == 146096 {
        assert(yoe == 399);
    } else {
        assert(doe / 146096 == 0);
        assert(doe / 36524 == c);
        if r < 3 || 24 * c + q + 1095 + doy < 1460 {
            assert(doe / 1460 == 25 * c + q);
            assert(doe - doe / 1460 + doe / 36524 == 365 * (100 * c + 4 * q + r) + doy);
        } else {
            assert(doe / 1460 == 25 * c + q + 1);
            assert(doe - doe / 1460 + doe / 36524 == 365 * (100 * c + 4 * q + r) + doy - 1);
        }
    }
}

proof fn lemma_year_of_era_bounds(doe: int)
    requires
        0 <= doe < 146097,
    ensures
        0 <= year_of_era(doe) < 400,
        0 <= doe - start_of_year(year_of_era(doe)) <= 365,
        doe - start_of_year(year_of_era(doe)) == 365 ==> year_of_era(doe) % 4 == 3 && (
        year_of_era(doe) % 100 != 99 || year_of_era(doe) == 399),
{
    let c = doe / 36524;
    let q = (doe - 36524 * c) / 1461;
    assert(0 <= c <= 4);
    assert(0 <= q <= 24);
    if c == 0 {
        lemma_year_of_era_in_century(doe, 0, q);
    } else if c == 1 {
        lemma_year_of_era_in_century(doe, 1, q);
    } else if c == 2 {
        lemma_year_of_era_in_century(doe, 2, q);
    } else if c == 3 {
        lemma_year_of_era_in_century(doe, 3, q);
    } else {
        assert(doe == 146096);
    }
}

proof fn lemma_year_of_era_in_century(doe: int, c: int, q: int)
    requires
        0 <= c <= 3,
        0 <= q <= 24,
        0 <= doe < 146097,
        c == doe / 36524,
        q == (doe - 36524 * c) / 1461,
    ensures
        0 <= year_of_era(doe) < 400,
        0 <= doe - start_of_year(year_of_era(doe)) <= 365,
        doe - start_of_year(year_of_era(doe)) == 365 ==> year_of_era(doe) % 4 == 3 && (
        year_of_era(doe) % 100 != 99 || year_of_era(doe) == 399),
{
    let r = doe - 36524 * c - 1461 * q;
    assert(0 <= r < 1461);
    if r < 365 {
        assert(year_of_era(doe) == 100 * c + 4 * q);
    } else if r < 730 {
        assert(year_of_era(doe) == 100 * c + 4 * q + 1);
    } else if r < 1095 {
        assert(year_of_era(doe) == 100 * c + 4 * q + 2);
    } else {
        assert(year_of_era(doe) == 100 * c + 4 * q + 3);
        assert(r == 1460 ==> q != 24);
    }
}

/// Decoding the day number of a valid civil date gives the date back.
pub proof fn lemma_civil_round_trip(y: int, m: int, d: int)
    requires
        valid_date(y, m, d),
    ensures
        civil_of_day(epoch_day(y, m, d)) == (y, m, d),
{
    let yy = if m <= 2 { y - 1 } else { y };
    let era = yy / 400;
    let yoe = yy - era * 400;
    let mp = if m > 2 { m - 3 } else { m + 9 };
    let doy = (153 * mp + 2) / 5 + d - 1;
    let doe = yoe * 365 + yoe / 4 - yoe / 100 + doy;
    assert(0 <= yoe < 400);
    assert(0 <= doy <= 365);
    assert(doy == 365 ==> (yoe % 4 == 3 && (yoe % 100 != 99 || yoe == 399))) by {
        if doy == 365 {
            assert(m == 2 && d == 29);
            assert(is_leap(y));
            assert(y == yy + 1);
        }
    }
    lemma_year_of_era_of_start(yoe, doy);
    let zz = epoch_day(y, m, d) + 719468;
    assert(zz == era * 146097 + doe);
    assert(0 <= doe < 146097);
    assert(zz / 146097 == era);
}

/// Encoding the civil date of any day number gives the day number back.
pub proof fn lemma_days_round_trip(z: int)
    ensures
        ({
            let (y, m, d) = civil_of_day(z);
            epoch_day(y, m, d) == z
        }),
{
    let zz = z + 719468;
    let era = zz / 146097;
    let doe = zz - era * 146097;
    lemma_year_of_era_bounds(doe);
    let yoe = year_of_era(doe);
    let doy = doe - start_of_year(yoe);
    let mp = (5 * doy + 2) / 153;
    assert(0 <= mp <= 11);
    assert((153 * mp + 2) / 5 <= doy);
    let (y, m, d) = civil_of_day(z);
    let yy = if m <= 2 { y - 1 } else { y };
    assert(yy == yoe + era * 400);
    assert(yy / 400 == era);
}

/// The civil date of every day number exists in the calendar.
pub proof fn lemma_civil_of_day_valid(z: int)
    ensures
        ({
            let (y, m, d) = civil_of_day(z);
            valid_date(y, m, d)
        }),
{
    let zz = z + 719468;
    let era = zz / 146097;
    let doe = zz - era * 146097;
    lemma_year_of_era_bounds(doe);
    let yoe = year_of_era(doe);
    let doy = doe - start_of_year(yoe);
    let (y, m, d) = civil_of_day(z);
    if doy == 365 {
        assert(m == 2 && d == 29);
        assert(y == yoe + era * 400 + 1);
        assert(is_leap(y));
    }
}

} // verus!
