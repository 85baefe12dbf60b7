//! History reload: a deterministic minute-by-minute series for one symbol
//! over a strictly given range.

use vstd::prelude::*;
use vstd::string::*;
use crate::datetime::{parse_utc_datetime, strict_instant, MAX_INSTANT};
use crate::generate::{TimedLine, line_views};
use crate::text::{decimal, push_padded, push_signed, signed_decimal, zero_padded};

verus! {

/// The offset, in 0..100, of minute `i`: the high bits of one step of a
/// 64-bit linear congruential generator from `i`.
pub open spec fn lcg_shift(i: nat) -> nat {
    let m = (i * 6364136223846793005) % 0x1_0000_0000_0000_0000;
    let a = (m + 1442695040888963407) % 0x1_0000_0000_0000_0000;
    (a / 0x2_0000_0000) % 100
}

/// The line for minute `i` of `symbol`, stamped `ts_ms`: bid `1.` followed by
/// the five digits of `11540 + shift`, ask likewise from `11560 + shift`.
#[verifier::opaque]
pub open spec fn history_line(symbol: Seq<char>, i: nat, ts_ms: int) -> Seq<char> {
    let shift = lcg_shift(i);
    "{\"symbol\":\""@ + symbol + "\",\"bid\":1."@ + zero_padded(decimal(11540 + shift), 5)
        + ",\"ask\":1."@ + zero_padded(decimal(11560 + shift), 5) + ",\"ts_ms\":"@
        + signed_decimal(ts_ms) + "}"@
}

/// The series from `from` to `to` (seconds): one line per whole minute, the
/// `i`-th at `from + 60 * i`.
pub open spec fn history_series(symbol: Seq<char>, from: int, to: int) -> Seq<(Seq<char>, int)> {
    Seq::new(
        ((to - from) / 60) as nat,
        |i: int| (history_line(symbol, i as nat, (from + 60 * i) * 1000), (from + 60 * i) * 1000),
    )
}

fn shift_of(i: u64) -> (r: u64)
    ensures
        r == lcg_shift(i as nat),
{
    let x = i.wrapping_mul(6364136223846793005u64).wrapping_add(1442695040888963407u64);
    assert(x >> 33u64 == x / 0x2_0000_0000u64) by (bit_vector);
    (x >> 33u64) % 100
}

fn history_line_of(symbol: &str, i: u64, ts_ms: i64) -> (r: String)
    ensures
        r@ == history_line(symbol@, i as nat, ts_ms as int),
{
    let shift = shift_of(i);
    let mut s = String::from_str("{\"symbol\":\"");
    s.append(symbol);
    s.append("\",\"bid\":1.");
    push_padded(&mut s, 11540 + shift, 5);
    s.append(",\"ask\":1.");
    push_padded(&mut s, 11560 + shift, 5);
    s.append(",\"ts_ms\":");
    push_signed(&mut s, ts_ms);
    s.append("}");
    proof {
        reveal(history_line);
        assert(s@ =~= history_line(symbol@, i as nat, ts_ms as int));
    }
    s
}

proof fn lemma_minute_in_range(i: int, count: int, span: int)
    requires
        0 <= i < count,
        count == span / 60,
        span > 0,
    ensures
        i * 60 < span,
{
    assert(i * 60 < span) by (nonlinear_arith)
        requires
            0 <= i < count,
            count == span / 60,
            span > 0,
    ;
}

/// The series for `symbol` from `from_sec` to `to_sec`.
pub fn history_lines(symbol: &str, from_sec: i64, to_sec: i64) -> (r: Vec<TimedLine>)
    requires
        -MAX_INSTANT <= from_sec < to_sec <= MAX_INSTANT,
    ensures
        line_views(r@) == history_series(
            symbol@,
            from_sec as int,
            to_sec as int,
        ),
{
    let count: i64 = (to_sec - from_sec) / 60;
    let ghost series = history_series(symbol@, from_sec as int, to_sec as int);
    let mut out: Vec<TimedLine> = Vec::new();
    let mut i: i64 = 0;
    while i < count
        invariant
            0 <= i <= count,
            count == (to_sec - from_sec) / 60,
            -MAX_INSTANT <= from_sec < to_sec <= MAX_INSTANT,
            series == history_series(symbol@, from_sec as int, to_sec as int),
            line_views(out@) == series.take(i as int),
            out.len() == i,
        decreases count - i,
    {
        proof {
            lemma_minute_in_range(i as int, count as int, (to_sec - from_sec) as int);
        }
        let ts_ms = (from_sec + i * 60) * 1000;
        let s = history_line_of(symbol, i as u64, ts_ms);
        let ghost before = out@;
        let ghost sv = s@;
        out.push(TimedLine { line: s, ts_ms });
        proof {
            assert(out@ =~= before.push(out@[i as int]));
            assert(line_views(out@) =~= line_views(before).push((sv, ts_ms as int)));
            assert(series[i as int] == (sv, ts_ms as int));
            assert(series.take(i + 1) =~= series.take(i as int).push(series[i as int]));
        }
        i = i + 1;
    }
    proof {
        assert(series.take(count as int) =~= series);
    }
    out
}

/// Checks the range of a history reload: both ends must be exact
/// `YYYY-MM-DD HH:MM:SS` instants, the end after the start.
pub fn plan_history(from: &str, to: &str) -> (r: Result<(i64, i64), String>)
    ensures
        ({
            let f = strict_instant(from@);
            let t = strict_instant(to@);
            &&& f is Err ==> r is Err && r->Err_0@ == f->Err_0
            &&& f is Ok && t is Err ==> r is Err && r->Err_0@ == t->Err_0
            &&& f is Ok && t is Ok && t->Ok_0 <= f->Ok_0 ==> r is Err && r->Err_0@
                == "--to must be after --from"@
            &&& f is Ok && t is Ok && f->Ok_0 < t->Ok_0 ==> r is Ok && r->Ok_0.0 == f->Ok_0
                && r->Ok_0.1 == t->Ok_0
        }),
        r is Ok ==> -MAX_INSTANT <= r->Ok_0.0 < r->Ok_0.1 <= MAX_INSTANT,
{
    let from_sec = match parse_utc_datetime(from) {
        Ok(v) => v,
        Err(e) => {
            return Err(e);
        },
    };
    let to_sec = match parse_utc_datetime(to) {
        Ok(v) => v,
        Err(e) => {
            return Err(e);
        },
    };
    if to_sec <= from_sec {
        return Err(String::from_str("--to must be after --from"));
    }
    Ok((from_sec, to_sec))
}

} // verus!
