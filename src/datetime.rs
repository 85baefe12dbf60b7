//! Date-time text: a loose and a strict parser to epoch seconds, and the
//! compact UTC stamp `YYYYMMDD_HHMMSS`.

use vstd::prelude::*;
use vstd::string::*;
use crate::calendar::{civil_from_days, civil_of_day, days_from_civil, epoch_day, valid_date};
use crate::rng::unix_time_nanos;
use crate::text::{all_digits, chars_vec, decimal, digits_value, lemma_digits_value_bound, number_within, parse_digits, pow10, push_char, push_chars, push_padded, slice_chars, split_chars, split_on, trim, trimmed, zero_padded};

verus! {

/// The largest year that the parsers read.
pub const MAX_PARSED_YEAR: u64 = 9_999_999;

/// A bound on the magnitude of every instant the parsers return, in seconds.
pub const MAX_INSTANT: i64 = 1_000_000_000_000_000;

/// Epoch seconds of a civil date and a time of day (fields may exceed their
/// usual ranges; they are simply added).
pub open spec fn instant(y: int, m: int, d: int, h: int, mi: int, s: int) -> int {
    epoch_day(y, m, d) * 86400 + h * 3600 + mi * 60 + s
}

/// Time field `i` of a loose date-time: its number when it is a run of digits
/// that fits in 32 bits, else zero (also when missing).
pub open spec fn time_field(tp: Seq<Seq<char>>, i: int) -> int {
    if i < tp.len() && number_within(tp[i], u32::MAX as int) {
        digits_value(tp[i]) as int
    } else {
        0
    }
}

/// The loose reading: `YYYY-MM-DD`, optionally followed by `T` or a space
/// and `HH[:MM[:SS]]`, around surrounding whitespace.
pub open spec fn loose_instant(s: Seq<char>) -> Result<int, Seq<char>> {
    let t = trim(s);
    let has_time = t.len() >= 11 && (t[10] == 'T' || t[10] == ' ');
    let date = if has_time { t.take(10) } else { t };
    let time = if has_time { t.skip(11) } else { seq![] };
    let parts = split_on(date, '-');
    if parts.len() != 3 {
        Err("bad date: "@ + t)
    } else if !number_within(parts[0], MAX_PARSED_YEAR as int) {
        Err("bad year: "@ + t)
    } else if !(number_within(parts[1], 12) && digits_value(parts[1]) >= 1) {
        Err("bad month: "@ + t)
    } else if !(number_within(parts[2], 31) && valid_date(
        digits_value(parts[0]) as int,
        digits_value(parts[1]) as int,
        digits_value(parts[2]) as int,
    )) {
        Err("bad day: "@ + t)
    } else {
        let tp = split_on(time, ':');
        Ok(
            instant(
                digits_value(parts[0]) as int,
                digits_value(parts[1]) as int,
                digits_value(parts[2]) as int,
                time_field(tp, 0),
                time_field(tp, 1),
                time_field(tp, 2),
            ),
        )
    }
}

/// The digits `t[a..b]` as a number.
pub open spec fn field(t: Seq<char>, a: int, b: int) -> int {
    digits_value(t.subrange(a, b)) as int
}

/// `t` has exactly the form `YYYY-MM-DD HH:MM:SS`.
pub open spec fn strict_shape(t: Seq<char>) -> bool {
    &&& t.len() == 19
    &&& t[4] == '-' && t[7] == '-' && t[10] == ' ' && t[13] == ':' && t[16] == ':'
    &&& all_digits(t.subrange(0, 4)) && all_digits(t.subrange(5, 7)) && all_digits(
        t.subrange(8, 10),
    )
    &&& all_digits(t.subrange(11, 13)) && all_digits(t.subrange(14, 16)) && all_digits(
        t.subrange(17, 19),
    )
}

/// The strict reading: exactly `YYYY-MM-DD HH:MM:SS` of a valid date, around
/// surrounding whitespace.
pub open spec fn strict_instant(s: Seq<char>) -> Result<int, Seq<char>> {
    let t = trim(s);
    if !strict_shape(t) {
        Err("Invalid datetime format: '"@ + t + "' (expected YYYY-MM-DD HH:MM:SS)"@)
    } else if !valid_date(field(t, 0, 4), field(t, 5, 7), field(t, 8, 10)) {
        Err("invalid date in '"@ + t + "'"@)
    } else {
        Ok(
            instant(
                field(t, 0, 4),
                field(t, 5, 7),
                field(t, 8, 10),
                field(t, 11, 13),
                field(t, 14, 16),
                field(t, 17, 19),
            ),
        )
    }
}

/// `r` is the outcome `spec` describes.
pub open spec fn outcome_is(r: Result<i64, String>, spec: Result<int, Seq<char>>) -> bool {
    match r {
        Ok(v) => spec == Ok::<int, Seq<char>>(v as int),
        Err(e) => spec == Err::<int, Seq<char>>(e@),
    }
}

fn instant_exec(y: u64, m: u64, d: u64, h: u64, mi: u64, s: u64) -> (r: i64)
    requires
        y <= MAX_PARSED_YEAR,
        valid_date(y as int, m as int, d as int),
        h <= u32::MAX,
        mi <= u32::MAX,
        s <= u32::MAX,
    ensures
        r == instant(y as int, m as int, d as int, h as int, mi as int, s as int),
        -MAX_INSTANT <= r <= MAX_INSTANT,
{
    let days = days_from_civil(y as i64, m as u32, d as u32);
    assert(-4_000_000_000 <= days <= 4_000_000_000) by {
        assert(0 <= y <= 9_999_999);
    }
    days * 86400 + (h as i64) * 3600 + (mi as i64) * 60 + s as i64
}

fn report(prefix: &str, t: &Vec<char>) -> (r: String)
    ensures
        r@ == prefix@ + t@,
{
    let mut msg = String::from_str(prefix);
    push_chars(&mut msg, t);
    msg
}

fn format_report(t: &Vec<char>) -> (r: String)
    ensures
        r@ == "Invalid datetime format: '"@ + t@ + "' (expected YYYY-MM-DD HH:MM:SS)"@,
{
    let mut msg = report("Invalid datetime format: '", t);
    msg.append("' (expected YYYY-MM-DD HH:MM:SS)");
    msg
}

/// Epoch seconds (UTC) of `YYYY-MM-DD`, `YYYY-MM-DD HH:MM` or
/// `YYYY-MM-DD HH:MM:SS`, with `T` or a space before the time; missing time
/// fields count as zero.
pub fn parse_time(s: &str) -> (r: Result<i64, String>)
    ensures
        outcome_is(r, loose_instant(s@)),
        r is Ok ==> -MAX_INSTANT <= r->Ok_0 <= MAX_INSTANT,
{
    let v = chars_vec(s);
    let t = trimmed(&v);
    let has_time = t.len() >= 11 && (t[10] == 'T' || t[10] == ' ');
    let date = if has_time { slice_chars(&t, 0, 10) } else { slice_chars(&t, 0, t.len()) };
    proof {
        assert(t@.subrange(0, t@.len() as int) =~= t@);
        if has_time {
            assert(t@.subrange(0, 10) =~= t@.take(10));
        }
    }
    let parts = split_chars(&date, '-');
    if parts.len() != 3 {
        return Err(report("bad date: ", &t));
    }
    assert(parts[0]@ == parts.deep_view()[0]);
    assert(parts[1]@ == parts.deep_view()[1]);
    assert(parts[2]@ == parts.deep_view()[2]);
    let y = match parse_digits(&parts[0], MAX_PARSED_YEAR) {
        Some(y) => y,
        None => {
            return Err(report("bad year: ", &t));
        },
    };
    let m = match parse_digits(&parts[1], 12) {
        Some(m) if m >= 1 => m,
        _ => {
            return Err(report("bad month: ", &t));
        },
    };
    let d = match parse_digits(&parts[2], 31) {
        Some(d) if d >= 1 && d <= crate::calendar::month_length(y, m) => d,
        _ => {
            return Err(report("bad day: ", &t));
        },
    };
    let time = if has_time { slice_chars(&t, 11, t.len()) } else { Vec::new() };
    proof {
        if has_time {
            assert(t@.subrange(11, t@.len() as int) =~= t@.skip(11));
        } else {
            assert(time@ =~= Seq::<char>::empty());
        }
    }
    let tp = split_chars(&time, ':');
    let h = time_field_exec(&tp, 0);
    let mi = time_field_exec(&tp, 1);
    let sec = time_field_exec(&tp, 2);
    Ok(instant_exec(y, m, d, h, mi, sec))
}

fn time_field_exec(tp: &Vec<Vec<char>>, i: usize) -> (r: u64)
    ensures
        r == time_field(tp.deep_view(), i as int),
        r <= u32::MAX,
{
    if i < tp.len() {
        assert(tp[i as int]@ == tp.deep_view()[i as int]);
        match parse_digits(&tp[i], u32::MAX as u64) {
            Some(v) => v,
            None => 0,
        }
    } else {
        0
    }
}

fn fixed_field(t: &Vec<char>, a: usize, b: usize) -> (r: Option<u64>)
    requires
        a <= b <= t.len(),
        b - a <= 4,
    ensures
        all_digits(t@.subrange(a as int, b as int)) ==> r == Some(
            field(t@, a as int, b as int) as u64,
        ),
        !all_digits(t@.subrange(a as int, b as int)) ==> r is None,
{
    let piece = slice_chars(t, a, b);
    proof {
        if all_digits(piece@) {
            lemma_digits_value_bound(piece@);
            reveal_with_fuel(pow10, 5);
        }
    }
    parse_digits(&piece, u32::MAX as u64)
}

/// Epoch seconds (UTC) of exactly `YYYY-MM-DD HH:MM:SS` (surrounding
/// whitespace aside); any other form, or a date that does not exist, is an
/// error.
pub fn parse_utc_datetime(s: &str) -> (r: Result<i64, String>)
    ensures
        outcome_is(r, strict_instant(s@)),
        r is Ok ==> -MAX_INSTANT <= r->Ok_0 <= MAX_INSTANT,
{
    let v = chars_vec(s);
    let t = trimmed(&v);
    if t.len() != 19 || t[4] != '-' || t[7] != '-' || t[10] != ' ' || t[13] != ':' || t[16]
        != ':' {
        return Err(format_report(&t));
    }
    let fy = fixed_field(&t, 0, 4);
    let fm = fixed_field(&t, 5, 7);
    let fd = fixed_field(&t, 8, 10);
    let fh = fixed_field(&t, 11, 13);
    let fmi = fixed_field(&t, 14, 16);
    let fs = fixed_field(&t, 17, 19);
    if fy.is_none() || fm.is_none() || fd.is_none() || fh.is_none() || fmi.is_none() || fs.is_none() {
        return Err(format_report(&t));
    }
    let y = fy.unwrap();
    let m = fm.unwrap();
    let d = fd.unwrap();
    let h = fh.unwrap();
    let mi = fmi.unwrap();
    let sec = fs.unwrap();
    proof {
        lemma_digits_value_bound(t@.subrange(0, 4));
        lemma_digits_value_bound(t@.subrange(5, 7));
        lemma_digits_value_bound(t@.subrange(8, 10));
        lemma_digits_value_bound(t@.subrange(11, 13));
        lemma_digits_value_bound(t@.subrange(14, 16));
        lemma_digits_value_bound(t@.subrange(17, 19));
        reveal_with_fuel(pow10, 5);
        assert(strict_shape(t@));
    }
    if m >= 1 && m <= 12 && d >= 1 && d <= crate::calendar::month_length(y, m) {
        Ok(instant_exec(y, m, d, h, mi, sec))
    } else {
        let mut msg = report("invalid date in '", &t);
        msg.append("'");
        Err(msg)
    }
}

/// `v` written with at least `width` digits.
pub open spec fn padded(v: int, width: nat) -> Seq<char> {
    zero_padded(decimal(v as nat), width)
}

/// The compact UTC stamp `YYYYMMDD_HHMMSS` of epoch second `secs`.
pub open spec fn stamp(secs: nat) -> Seq<char> {
    let (y, m, d) = civil_of_day((secs / 86400) as int);
    let tod = (secs % 86400) as int;
    padded(y, 4) + padded(m, 2) + padded(d, 2) + seq!['_'] + padded(tod / 3600, 2) + padded(
        (tod % 3600) / 60,
        2,
    ) + padded(tod % 60, 2)
}

/// The compact UTC stamp `YYYYMMDD_HHMMSS` of epoch second `secs`.
pub fn timestamp_suffix(secs: u64) -> (r: String)
    ensures
        r@ == stamp(secs as nat),
{
    let days = secs / 86400;
    let tod = secs % 86400;
    let (y, m, d) = civil_from_days(days as i64);
    assert(y >= 0) by {
        assert(days >= 0);
    }
    let mut s = String::new();
    push_padded(&mut s, y as u64, 4);
    push_padded(&mut s, m as u64, 2);
    push_padded(&mut s, d as u64, 2);
    push_char(&mut s, '_');
    push_padded(&mut s, tod / 3600, 2);
    push_padded(&mut s, (tod % 3600) / 60, 2);
    push_padded(&mut s, tod % 60, 2);
    proof {
        assert(s@ =~= stamp(secs as nat));
    }
    s
}

/// The compact UTC stamp of the current time.
pub fn utc_now_suffix() -> (r: String)
    ensures
        exists|secs: nat| r@ == stamp(secs),
{
    let nanos = unix_time_nanos();
    let secs = nanos / 1_000_000_000;
    let secs: u64 = if secs > u64::MAX as u128 { u64::MAX } else { secs as u64 };
    let r = timestamp_suffix(secs);
    assert(r@ == stamp(secs as nat));
    r
}

} // verus!
