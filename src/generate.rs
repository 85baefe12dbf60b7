//! Bulk generation of timestamped ticks over a time range.

use vstd::prelude::*;
use vstd::string::*;
use crate::catalog::views;
use crate::datetime::{loose_instant, parse_time};
use crate::instrument::{Instrument, InstrumentView, quote_json_ts, walk};
use crate::rng::{Rng, xorshift};

verus! {

/// Timestamps (milliseconds) that generation accepts.
pub const MAX_MS_MAGNITUDE: i64 = 0x1000_0000_0000_0000;

/// One generated line and the timestamp written in it.
pub struct TimedLine {
    pub line: String,
    pub ts_ms: i64,
}

/// Instrument `j` moves once (one draw), then a jitter in `[0, interval)` is
/// drawn and added to bucket start `t`; the result is the new instruments,
/// the new stream state, and the line with its timestamp.
pub open spec fn emit(insts: Seq<InstrumentView>, s: u64, j: int, t: int, interval: int) -> (
    Seq<InstrumentView>,
    u64,
    (Seq<char>, int),
) {
    let v = insts[j];
    let s1 = xorshift(s);
    let moved = InstrumentView { price: walk(v.price, v.step, (s1 >> 11u64) as int), ..v };
    let s2 = xorshift(s1);
    let ts = t + (s2 as int) % interval;
    (insts.update(j, moved), s2, (quote_json_ts(moved, ts), ts))
}

/// The first `k` lines of a run from `from`: line `k` belongs to instrument
/// `k % n` in bucket `k / n`, which starts at `from + (k / n) * interval`.
pub open spec fn generated(
    insts: Seq<InstrumentView>,
    s: u64,
    from: int,
    interval: int,
    k: nat,
) -> (Seq<InstrumentView>, u64, Seq<(Seq<char>, int)>)
    decreases k,
{
    if k == 0 {
        (insts, s, seq![])
    } else {
        let prev = generated(insts, s, from, interval, (k - 1) as nat);
        let n = insts.len() as int;
        let j = (k - 1) % n;
        let t = from + ((k - 1) / n) * interval;
        let e = emit(prev.0, prev.1, j, t, interval);
        (e.0, e.1, prev.2.push(e.2))
    }
}

/// The number of buckets `[t, t + interval)` that start in `[from, to)`.
pub open spec fn bucket_count(from: int, to: int, interval: int) -> nat {
    if to <= from {
        0
    } else {
        ((to - from + interval - 1) / interval) as nat
    }
}

pub open spec fn line_views(v: Seq<TimedLine>) -> Seq<(Seq<char>, int)> {
    v.map_values(|l: TimedLine| (l.line@, l.ts_ms as int))
}

proof fn lemma_generated_len(insts: Seq<InstrumentView>, s: u64, from: int, interval: int, k: nat)
    requires
        insts.len() > 0,
    ensures
        generated(insts, s, from, interval, k).0.len() == insts.len(),
        generated(insts, s, from, interval, k).2.len() == k,
    decreases k,
{
    if k > 0 {
        lemma_generated_len(insts, s, from, interval, (k - 1) as nat);
    }
}

/// The start of the bucket that line `i` of a run over `n` instruments falls in.
pub open spec fn bucket_start(from: int, interval: int, n: int, i: int) -> int {
    from + (i / n) * interval
}

/// Every generated line carries a timestamp within its bucket, and bucket
/// starts never decrease along the output.
pub proof fn lemma_generated_timestamps(
    insts: Seq<InstrumentView>,
    s: u64,
    from: int,
    interval: int,
    k: nat,
)
    requires
        insts.len() > 0,
        interval > 0,
    ensures
        ({
            let out = generated(insts, s, from, interval, k).2;
            let n = insts.len() as int;
            &&& out.len() == k
            &&& forall|i: int|
                0 <= i < k ==> bucket_start(from, interval, n, i) <= #[trigger] out[i].1
                    <= bucket_start(from, interval, n, i) + interval - 1
            &&& forall|i: int, i2: int|
                0 <= i <= i2 < k ==> bucket_start(from, interval, n, i) <= bucket_start(
                    from,
                    interval,
                    n,
                    i2,
                )
        }),
    decreases k,
{
    let n = insts.len() as int;
    lemma_generated_len(insts, s, from, interval, k);
    if k > 0 {
        lemma_generated_timestamps(insts, s, from, interval, (k - 1) as nat);
        let prev = generated(insts, s, from, interval, (k - 1) as nat);
        lemma_generated_len(insts, s, from, interval, (k - 1) as nat);
        let out = generated(insts, s, from, interval, k).2;
        assert forall|i: int|
            0 <= i < k implies bucket_start(from, interval, n, i) <= #[trigger] out[i].1
                <= bucket_start(from, interval, n, i) + interval - 1 by {
            if i < k - 1 {
                assert(out[i] == prev.2[i]);
            }
        }
    }
    assert forall|i: int, i2: int| 0 <= i <= i2 < k implies bucket_start(from, interval, n, i)
        <= bucket_start(from, interval, n, i2) by {
        assert(i / n <= i2 / n) by (nonlinear_arith)
            requires
                0 <= i <= i2,
                n > 0,
        ;
        assert((i / n) * interval <= (i2 / n) * interval) by (nonlinear_arith)
            requires
                i / n <= i2 / n,
                interval > 0,
        ;
    }
}

/// Ticks for every instrument in every bucket of `interval_ms` from
/// `from_ms` up to `to_ms`: bucket by bucket, each instrument in order moves
/// once and gets a timestamp of its bucket start plus a jitter in
/// `[0, interval_ms)`.
pub fn generate_ticks(
    instruments: &mut Vec<Instrument>,
    rng: &mut Rng,
    from_ms: i64,
    to_ms: i64,
    interval_ms: u64,
) -> (r: Vec<TimedLine>)
    requires
        old(instruments).len() > 0,
        0 < interval_ms <= MAX_MS_MAGNITUDE,
        -MAX_MS_MAGNITUDE <= from_ms <= MAX_MS_MAGNITUDE,
        -MAX_MS_MAGNITUDE <= to_ms <= MAX_MS_MAGNITUDE,
    ensures
        ({
            let g = generated(
                views(old(instruments)@),
                old(rng)@,
                from_ms as int,
                interval_ms as int,
                (bucket_count(from_ms as int, to_ms as int, interval_ms as int) * old(instruments).len()) as nat,
            );
            &&& views(final(instruments)@) == g.0
            &&& final(rng)@ == g.1
            &&& line_views(r@) == g.2
        }),
{
    let n = instruments.len();
    let ghost insts0 = views(instruments@);
    let ghost s0 = rng@;
    let ghost from = from_ms as int;
    let ghost interval = interval_ms as int;
    let mut out: Vec<TimedLine> = Vec::new();
    let mut t: i64 = from_ms;
    let ghost mut b: int = 0;
    while t < to_ms
        invariant
            instruments.len() == n,
            n > 0,
            0 < interval_ms <= MAX_MS_MAGNITUDE,
            -MAX_MS_MAGNITUDE <= from_ms <= MAX_MS_MAGNITUDE,
            -MAX_MS_MAGNITUDE <= to_ms <= MAX_MS_MAGNITUDE,
            from == from_ms,
            interval == interval_ms,
            insts0.len() == n,
            b >= 0,
            t == from + b * interval,
            from <= t,
            t - interval < to_ms || b == 0,
            ({
                let g = generated(insts0, s0, from, interval, (b * n) as nat);
                &&& views(instruments@) == g.0
                &&& rng@ == g.1
                &&& line_views(out@) == g.2
            }),
        decreases if t < to_ms { to_ms - t } else { 0 },
    {
        let mut j: usize = 0;
        while j < n
            invariant
                instruments.len() == n,
                n > 0,
                0 < interval_ms <= MAX_MS_MAGNITUDE,
                -MAX_MS_MAGNITUDE <= t <= MAX_MS_MAGNITUDE,
                from <= t < to_ms,
                -MAX_MS_MAGNITUDE <= to_ms <= MAX_MS_MAGNITUDE,
                from == from_ms,
                interval == interval_ms,
                insts0.len() == n,
                b >= 0,
                t == from + b * interval,
                j <= n,
                ({
                    let g = generated(insts0, s0, from, interval, (b * n + j) as nat);
                    &&& views(instruments@) == g.0
                    &&& rng@ == g.1
                    &&& line_views(out@) == g.2
                }),
            decreases n - j,
        {
            let ghost k: nat = (b * n + j) as nat;
            let ghost before_insts = views(instruments@);
            let ghost before_rng = rng@;
            proof {
                lemma_generated_len(insts0, s0, from, interval, k);
                assert(((k + 1 - 1) as int) % (n as int) == j as int) by (nonlinear_arith)
                    requires
                        k == b * n + j,
                        0 <= j < n,
                        b >= 0,
                ;
                assert(((k + 1 - 1) as int) / (n as int) == b) by (nonlinear_arith)
                    requires
                        k == b * n + j,
                        0 <= j < n,
                        b >= 0,
                ;
            }
            let mut inst = instruments[j];
            inst.tick(rng);
            let jitter = rng.next_u64() % interval_ms;
            let ts = t + jitter as i64;
            let line = inst.format_json_ts(ts);
            instruments.set(j, inst);
            out.push(TimedLine { line, ts_ms: ts });
            proof {
                let e = emit(before_insts, before_rng, j as int, t as int, interval);
                assert(views(instruments@) =~= e.0);
                assert(line_views(out@) =~= generated(insts0, s0, from, interval, k).2.push(e.2));
                assert((b * n + j + 1) as nat == k + 1);
            }
            j = j + 1;
        }
        proof {
            assert(b * n + n == (b + 1) * n) by (nonlinear_arith);
        }
        t = t + interval_ms as i64;
        proof {
            assert(from + b * interval + interval == from + (b + 1) * interval) by (nonlinear_arith);
            b = b + 1;
        }
    }
    proof {
        assert(b == bucket_count(from, to_ms as int, interval)) by (nonlinear_arith)
            requires
                t == from + b * interval,
                t >= to_ms,
                t - interval < to_ms || b == 0,
                b >= 0,
                interval > 0,
                from <= t,
        ;
    }
    out
}

/// The range and spacing of a bulk run, in milliseconds.
pub struct GeneratePlan {
    pub from_ms: i64,
    pub to_ms: i64,
    pub interval_ms: u64,
}

/// Checks the settings of a bulk run: both ends are required and must parse
/// (loosely), the end must come after the start, and the interval must lie
/// in `1..=MAX_MS_MAGNITUDE`.
pub fn plan_generate(from: Option<&str>, to: Option<&str>, interval_ms: u64) -> (r: Result<GeneratePlan, String>)
    ensures
        from is None ==> r is Err && r->Err_0@ == "--from is required with --generate"@,
        from is Some && to is None ==> r is Err && r->Err_0@ == "--to is required with --generate"@,
        from is Some && to is Some ==> {
            let f = loose_instant(from->Some_0@);
            let t = loose_instant(to->Some_0@);
            &&& f is Err ==> r is Err && r->Err_0@ == f->Err_0
            &&& f is Ok && t is Err ==> r is Err && r->Err_0@ == t->Err_0
            &&& f is Ok && t is Ok && t->Ok_0 <= f->Ok_0 ==> r is Err && r->Err_0@
                == "--to must be after --from"@
            &&& f is Ok && t is Ok && f->Ok_0 < t->Ok_0 && !(0 < interval_ms <= MAX_MS_MAGNITUDE)
                ==> r is Err && r->Err_0@ == "--interval is out of range"@
            &&& f is Ok && t is Ok && f->Ok_0 < t->Ok_0 && 0 < interval_ms <= MAX_MS_MAGNITUDE
                ==> r is Ok && r->Ok_0.from_ms == f->Ok_0 * 1000 && r->Ok_0.to_ms == t->Ok_0
                * 1000 && r->Ok_0.interval_ms == interval_ms
        },
        r is Ok ==> {
            &&& -MAX_MS_MAGNITUDE <= r->Ok_0.from_ms < r->Ok_0.to_ms <= MAX_MS_MAGNITUDE
            &&& 0 < r->Ok_0.interval_ms <= MAX_MS_MAGNITUDE
        },
{
    let from = match from {
        Some(f) => f,
        None => {
            return Err(String::from_str("--from is required with --generate"));
        },
    };
    let to = match to {
        Some(t) => t,
        None => {
            return Err(String::from_str("--to is required with --generate"));
        },
    };
    let from_sec = match parse_time(from) {
        Ok(v) => v,
        Err(e) => {
            return Err(e);
        },
    };
    let to_sec = match parse_time(to) {
        Ok(v) => v,
        Err(e) => {
            return Err(e);
        },
    };
    if to_sec <= from_sec {
        return Err(String::from_str("--to must be after --from"));
    }
    if interval_ms == 0 || interval_ms > MAX_MS_MAGNITUDE as u64 {
        return Err(String::from_str("--interval is out of range"));
    }
    Ok(GeneratePlan { from_ms: from_sec * 1000, to_ms: to_sec * 1000, interval_ms })
}

} // verus!
