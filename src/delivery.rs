//! Delivery decisions: batching, operator commands, and the step functions
//! of the interactive and paced loops. The caller performs the sends, waits
//! and reads; these functions decide what comes next.

use vstd::prelude::*;
use vstd::string::*;
use crate::catalog::views;
use crate::instrument::{Instrument, InstrumentView, quote_json, quote_json_ts, walk};
use crate::replay::{FileReader, FileReaderView};
use crate::rng::{Rng, xorshift};
use crate::text::{chars_vec, digits_value, number_within, parse_digits, trim, trimmed};

verus! {

/// Lines per batch when a bulk run is sent without pacing.
pub const BULK_CHUNK: usize = 1000;

/// The pieces of `s`, in order, of `size` items each but the last, which
/// holds the rest.
pub open spec fn chunks(s: Seq<Seq<char>>, size: int) -> Seq<Seq<Seq<char>>>
    recommends
        size > 0,
    decreases s.len(),
{
    if s.len() == 0 || size <= 0 {
        seq![]
    } else if s.len() <= size {
        seq![s]
    } else {
        seq![s.take(size)] + chunks(s.skip(size), size)
    }
}

/// The items of `b`, one piece after another.
pub open spec fn flatten(b: Seq<Seq<Seq<char>>>) -> Seq<Seq<char>>
    decreases b.len(),
{
    if b.len() == 0 {
        seq![]
    } else {
        b[0] + flatten(b.drop_first())
    }
}

/// Splitting into chunks loses, adds and reorders nothing: the chunks, in
/// order, make up the input; each holds `size` items except the last, which
/// holds between one and `size`; there are `ceil(len / size)` of them.
pub proof fn lemma_chunks(s: Seq<Seq<char>>, size: int)
    requires
        size > 0,
    ensures
        flatten(chunks(s, size)) == s,
        chunks(s, size).len() == (s.len() + size - 1) / size,
        forall|k: int|
            0 <= k < chunks(s, size).len() - 1 ==> (#[trigger] chunks(s, size)[k]).len() == size,
        forall|k: int|
            0 <= k < chunks(s, size).len() ==> 1 <= (#[trigger] chunks(s, size)[k]).len() <= size,
    decreases s.len(),
{
    let c = chunks(s, size);
    if s.len() == 0 {
        assert(flatten(c) =~= s);
        assert((size - 1) / size == 0) by (nonlinear_arith)
            requires
                size > 0,
        ;
    } else if s.len() <= size {
        assert(c.drop_first() =~= Seq::<Seq<Seq<char>>>::empty());
        assert(flatten(c.drop_first()) == Seq::<Seq<char>>::empty());
        assert(flatten(c) == c[0] + flatten(c.drop_first()));
        assert(flatten(c) =~= s);
        assert((s.len() + size - 1) / size == 1) by (nonlinear_arith)
            requires
                0 < s.len() <= size,
        ;
    } else {
        let rest = chunks(s.skip(size), size);
        lemma_chunks(s.skip(size), size);
        assert(c.drop_first() =~= rest);
        assert(flatten(c) =~= s.take(size) + s.skip(size));
        assert(s.take(size) + s.skip(size) =~= s);
        let x = s.len() - 1;
        assert(x / size + 1 == (x + size) / size) by (nonlinear_arith)
            requires
                x >= 0,
                size > 0,
        ;
        assert(s.skip(size).len() + size - 1 == x);
        assert(c.len() == rest.len() + 1);
        assert forall|k: int| 0 <= k < c.len() implies 1 <= (#[trigger] c[k]).len() <= size by {
            if k > 0 {
                assert(c[k] == rest[k - 1]);
            }
        }
        assert forall|k: int| 0 <= k < c.len() - 1 implies (#[trigger] c[k]).len() == size by {
            if k > 0 {
                assert(c[k] == rest[k - 1]);
            }
        }
    }
}

/// The lines in batches of `size`, in order.
pub fn chunk_lines(lines: &Vec<String>, size: usize) -> (r: Vec<Vec<String>>)
    requires
        size > 0,
    ensures
        r.deep_view() == chunks(lines.deep_view(), size as int),
{
    let ghost s = lines.deep_view();
    let mut out: Vec<Vec<String>> = Vec::new();
    let mut i: usize = 0;
    assert(s.skip(0) =~= s);
    assert(out.deep_view() + chunks(s, size as int) =~= chunks(s, size as int));
    while i < lines.len()
        invariant
            i <= lines.len(),
            size > 0,
            s == lines.deep_view(),
            out.deep_view() + chunks(s.skip(i as int), size as int) == chunks(s, size as int),
        decreases lines.len() - i,
    {
        let end = if size < lines.len() - i {
            i + size
        } else {
            lines.len()
        };
        let mut batch: Vec<String> = Vec::new();
        let mut j: usize = i;
        while j < end
            invariant
                i <= j <= end <= lines.len(),
                s == lines.deep_view(),
                batch.deep_view() == s.subrange(i as int, j as int),
            decreases end - j,
        {
            let ghost before = batch.deep_view();
            let line = lines[j].clone();
            proof {
                assert(lines[j as int]@ == s[j as int]);
            }
            let ghost lv = line@;
            batch.push(line);
            assert(batch.deep_view() =~= before.push(lv));
            assert(batch.deep_view() =~= s.subrange(i as int, j + 1));
            j = j + 1;
        }
        let ghost dv = out.deep_view();
        let ghost bv = batch.deep_view();
        out.push(batch);
        assert(out.deep_view() =~= dv.push(bv));
        proof {
            let rest = s.skip(i as int);
            if rest.len() <= size {
                assert(bv =~= rest);
                assert(s.skip(end as int) =~= Seq::<Seq<char>>::empty());
                assert(chunks(rest, size as int) == seq![rest]);
            } else {
                assert(bv =~= rest.take(size as int));
                assert(rest.skip(size as int) =~= s.skip(end as int));
            }
            assert(out.deep_view() + chunks(s.skip(end as int), size as int) =~= dv + chunks(
                rest,
                size as int,
            ));
        }
        i = end;
    }
    proof {
        assert(s.skip(i as int) =~= Seq::<Seq<char>>::empty());
        assert(out.deep_view() + Seq::<Seq<Seq<char>>>::empty() =~= out.deep_view());
    }
    out
}

/// The batches of a bulk run: one line each when paced, else chunks of
/// `BULK_CHUNK`.
pub fn bulk_batches(lines: &Vec<String>, paced: bool) -> (r: Vec<Vec<String>>)
    ensures
        r.deep_view() == chunks(lines.deep_view(), if paced { 1 } else { BULK_CHUNK as int }),
{
    chunk_lines(lines, if paced { 1 } else { BULK_CHUNK })
}

/// Whether a progress report falls due once `count` messages are out.
pub fn progress_due(count: u64, every: u64) -> (r: bool)
    requires
        every > 0,
    ensures
        r == (count > 0 && count % every == 0),
{
    count > 0 && count % every == 0
}

/// An operator's command in an interactive session.
pub enum Command {
    /// `q` or `quit`.
    Quit,
    /// An empty line: one message.
    Next,
    /// A positive count: that many messages in one batch.
    Batch(u32),
    /// Anything else.
    Unknown,
}

/// The command that an input line (surrounding whitespace aside) gives.
pub open spec fn command_of(input: Seq<char>) -> Command {
    let t = trim(input);
    if t == seq!['q'] || t == seq!['q', 'u', 'i', 't'] {
        Command::Quit
    } else if t.len() == 0 {
        Command::Next
    } else if number_within(t, u32::MAX as int) && digits_value(t) > 0 {
        Command::Batch(digits_value(t) as u32)
    } else {
        Command::Unknown
    }
}

/// Reads an operator's input line as a command.
pub fn parse_command(input: &str) -> (r: Command)
    ensures
        r == command_of(input@),
{
    let v = chars_vec(input);
    let t = trimmed(&v);
    if (t.len() == 1 && t[0] == 'q') || (t.len() == 4 && t[0] == 'q' && t[1] == 'u' && t[2] == 'i'
        && t[3] == 't') {
        assert(t@ =~= seq!['q'] || t@ =~= seq!['q', 'u', 'i', 't']);
        return Command::Quit;
    }
    assert(t@ != seq!['q'] && t@ != seq!['q', 'u', 'i', 't']) by {
        if t@ == seq!['q'] {
            assert(t@[0] == 'q');
        }
        if t@ == seq!['q', 'u', 'i', 't'] {
            assert(t@[0] == 'q' && t@[1] == 'u' && t@[2] == 'i' && t@[3] == 't');
        }
    }
    if t.len() == 0 {
        return Command::Next;
    }
    match parse_digits(&t, u32::MAX as u64) {
        Some(n) if n > 0 => Command::Batch(n as u32),
        _ => Command::Unknown,
    }
}

/// What a random source holds: instruments, stream state, and whether
/// quotes carry a timestamp.
pub struct RandomView {
    pub insts: Seq<InstrumentView>,
    pub state: u64,
    pub with_ts: bool,
}

/// One random quote: an instrument drawn uniformly (modulo the count) moves
/// once and is quoted, with timestamp `now` when the source asks for one.
pub open spec fn quote_step(v: RandomView, now: int) -> (RandomView, Seq<char>) {
    let s1 = xorshift(v.state);
    let idx = (s1 as int) % (v.insts.len() as int);
    let s2 = xorshift(s1);
    let inst = v.insts[idx];
    let moved = InstrumentView { price: walk(inst.price, inst.step, (s2 >> 11u64) as int), ..inst };
    let line = if v.with_ts { quote_json_ts(moved, now) } else { quote_json(moved) };
    (RandomView { insts: v.insts.update(idx, moved), state: s2, ..v }, line)
}

/// `n` random quotes in a row.
pub open spec fn quote_run(v: RandomView, now: int, n: nat) -> (RandomView, Seq<Seq<char>>)
    decreases n,
{
    if n == 0 {
        (v, seq![])
    } else {
        let prev = quote_run(v, now, (n - 1) as nat);
        let q = quote_step(prev.0, now);
        (q.0, prev.1.push(q.1))
    }
}

proof fn lemma_quote_run_len(v: RandomView, now: int, n: nat)
    requires
        v.insts.len() > 0,
    ensures
        quote_run(v, now, n).0.insts.len() == v.insts.len(),
        quote_run(v, now, n).0.with_ts == v.with_ts,
    decreases n,
{
    if n > 0 {
        lemma_quote_run_len(v, now, (n - 1) as nat);
    }
}

/// A source of random quotes over a nonempty set of instruments.
pub struct RandomSource {
    instruments: Vec<Instrument>,
    rng: Rng,
    with_ts: bool,
}

impl View for RandomSource {
    type V = RandomView;

    closed spec fn view(&self) -> RandomView {
        RandomView { insts: views(self.instruments@), state: self.rng@, with_ts: self.with_ts }
    }
}

impl RandomSource {
    /// A source over `instruments` drawing from `rng`; quotes carry a
    /// timestamp when `with_ts` is set.
    pub fn new(instruments: Vec<Instrument>, rng: Rng, with_ts: bool) -> (r: RandomSource)
        requires
            instruments.len() > 0,
        ensures
            r@ == (RandomView { insts: views(instruments@), state: rng@, with_ts }),
    {
        RandomSource { instruments, rng, with_ts }
    }

    /// The instruments in their present state.
    pub fn instruments(&self) -> (r: &Vec<Instrument>)
        ensures
            views(r@) == self@.insts,
    {
        &self.instruments
    }

    /// The next random quote, timestamped `now_ms` if the source asks for it.
    pub fn next_quote(&mut self, now_ms: i64) -> (r: String)
        requires
            old(self)@.insts.len() > 0,
        ensures
            (final(self)@, r@) == quote_step(old(self)@, now_ms as int),
            final(self)@.insts.len() == old(self)@.insts.len(),
    {
        let idx = self.rng.next_intn(self.instruments.len());
        let mut inst = self.instruments[idx];
        inst.tick(&mut self.rng);
        let line = if self.with_ts {
            inst.format_json_ts(now_ms)
        } else {
            inst.format_json()
        };
        self.instruments.set(idx, inst);
        proof {
            assert(views(self.instruments@) =~= views(old(self).instruments@).update(
                idx as int,
                inst@,
            ));
        }
        line
    }

    /// `n` random quotes in a row, all timestamped `now_ms` if asked.
    pub fn next_quotes(&mut self, n: u32, now_ms: i64) -> (r: Vec<String>)
        requires
            old(self)@.insts.len() > 0,
        ensures
            (final(self)@, r.deep_view()) == quote_run(old(self)@, now_ms as int, n as nat),
            final(self)@.insts.len() == old(self)@.insts.len(),
    {
        let mut out: Vec<String> = Vec::new();
        let mut i: u32 = 0;
        proof {
            lemma_quote_run_len(self@, now_ms as int, 0);
        }
        while i < n
            invariant
                i <= n,
                self@.insts.len() == old(self)@.insts.len(),
                old(self)@.insts.len() > 0,
                (self@, out.deep_view()) == quote_run(old(self)@, now_ms as int, i as nat),
            decreases n - i,
        {
            let ghost before = out.deep_view();
            let q = self.next_quote(now_ms);
            let ghost qv = q@;
            out.push(q);
            assert(out.deep_view() =~= before.push(qv));
            i = i + 1;
        }
        out
    }
}

/// Where messages come from: random quotes or the lines of a replay.
pub enum Source {
    Random(RandomSource),
    Replay(FileReader),
}

/// What a source holds.
pub enum SourceView {
    Random(RandomView),
    Replay(FileReaderView),
}

impl View for Source {
    type V = SourceView;

    open spec fn view(&self) -> SourceView {
        match self {
            Source::Random(r) => SourceView::Random(r@),
            Source::Replay(f) => SourceView::Replay(f@),
        }
    }
}

/// The next message of a source and the source after it: a random quote,
/// or the next replay line (none once the replay is exhausted).
pub open spec fn payload_step(v: SourceView, now: int) -> (SourceView, Option<Seq<char>>) {
    match v {
        SourceView::Random(r) => {
            let q = quote_step(r, now);
            (SourceView::Random(q.0), Some(q.1))
        },
        SourceView::Replay(f) => {
            if f.pos < f.lines.len() {
                (SourceView::Replay(FileReaderView { pos: f.pos + 1, ..f }), Some(f.lines[f.pos]))
            } else {
                (v, None)
            }
        },
    }
}

/// The next `n` messages of a source (fewer at the end of a replay) and the
/// source after them.
pub open spec fn batch_step(v: SourceView, n: nat, now: int) -> (SourceView, Seq<Seq<char>>) {
    match v {
        SourceView::Random(r) => {
            let q = quote_run(r, now, n);
            (SourceView::Random(q.0), q.1)
        },
        SourceView::Replay(f) => {
            if f.pos < f.lines.len() {
                let end = if f.pos + n < f.lines.len() {
                    f.pos + n
                } else {
                    f.lines.len() as int
                };
                (SourceView::Replay(FileReaderView { pos: end, ..f }), f.lines.subrange(f.pos, end))
            } else {
                (v, seq![])
            }
        },
    }
}

/// A random source has instruments to draw from.
pub open spec fn source_ready(v: SourceView) -> bool {
    match v {
        SourceView::Random(r) => r.insts.len() > 0,
        SourceView::Replay(_) => true,
    }
}

impl Source {
    /// The next message, if the source has one.
    pub fn next_payload(&mut self, now_ms: i64) -> (r: Option<String>)
        requires
            source_ready(old(self)@),
        ensures
            source_ready(final(self)@),
            (final(self)@, match r {
                Some(s) => Some(s@),
                None => None,
            }) == payload_step(old(self)@, now_ms as int),
    {
        match self {
            Source::Random(src) => Some(src.next_quote(now_ms)),
            Source::Replay(reader) => {
                let ghost before = reader@;
                let r = reader.next_line();
                proof {
                    if r is None {
                        assert(reader@ == before);
                    }
                }
                r
            },
        }
    }

    /// Up to `n` next messages.
    pub fn next_batch(&mut self, n: u32, now_ms: i64) -> (r: Vec<String>)
        requires
            source_ready(old(self)@),
        ensures
            source_ready(final(self)@),
            (final(self)@, r.deep_view()) == batch_step(old(self)@, n as nat, now_ms as int),
    {
        match self {
            Source::Random(src) => src.next_quotes(n, now_ms),
            Source::Replay(reader) => {
                let ghost before = reader@;
                let r = reader.next_n(n as usize);
                proof {
                    if before.pos >= before.lines.len() {
                        assert(reader@ == before);
                        assert(r.deep_view() =~= Seq::<Seq<char>>::empty());
                    }
                }
                r
            },
        }
    }

    /// Whether the source can give no more messages (only a replay ends).
    pub fn exhausted(&self) -> (r: bool)
        ensures
            r == match self@ {
                SourceView::Random(_) => false,
                SourceView::Replay(f) => f.pos >= f.lines.len(),
            },
    {
        match self {
            Source::Random(_) => false,
            Source::Replay(reader) => reader.done(),
        }
    }
}

/// What an interactive session does with one input line.
pub enum Reply {
    /// End the session.
    Quit,
    /// Send these messages as one batch.
    Send(Vec<String>),
    /// The input was not a command.
    Unknown,
    /// The source had nothing left to give.
    Exhausted,
}

/// Handles one input line of an interactive session: `q` or `quit` ends it,
/// an empty line takes one message from the source, a positive count takes
/// that many as one batch, anything else is unknown.
pub fn interactive_step(source: &mut Source, input: &str, now_ms: i64) -> (r: Reply)
    requires
        source_ready(old(source)@),
    ensures
        source_ready(final(source)@),
        match command_of(input@) {
            Command::Quit => r is Quit && final(source)@ == old(source)@,
            Command::Unknown => r is Unknown && final(source)@ == old(source)@,
            Command::Next => {
                let (v, p) = payload_step(old(source)@, now_ms as int);
                &&& final(source)@ == v
                &&& p is Some ==> r is Send && r->Send_0.deep_view() == seq![p->Some_0]
                &&& p is None ==> r is Exhausted
            },
            Command::Batch(n) => {
                let (v, b) = batch_step(old(source)@, n as nat, now_ms as int);
                &&& final(source)@ == v
                &&& b.len() > 0 ==> r is Send && r->Send_0.deep_view() == b
                &&& b.len() == 0 ==> r is Exhausted
            },
        },
{
    match parse_command(input) {
        Command::Quit => Reply::Quit,
        Command::Unknown => Reply::Unknown,
        Command::Next => match source.next_payload(now_ms) {
            Some(p) => {
                let ghost pv = p@;
                let mut batch: Vec<String> = Vec::new();
                batch.push(p);
                assert(batch.deep_view() =~= seq![pv]);
                Reply::Send(batch)
            },
            None => Reply::Exhausted,
        },
        Command::Batch(n) => {
            let b = source.next_batch(n, now_ms);
            if b.len() == 0 {
                Reply::Exhausted
            } else {
                Reply::Send(b)
            }
        },
    }
}

/// How often a paced run reports progress, in messages.
pub const PACED_PROGRESS_EVERY: u64 = 100;

/// An event of a paced run: the pacing timer fired, or the operator asked
/// to stop.
pub enum PaceEvent {
    Tick,
    Cancel,
}

/// What a paced run does on an event.
pub enum PaceAction {
    /// Send this one message.
    Send(String),
    /// The run was cancelled after this many messages.
    Cancelled(u64),
    /// The source ran out after this many messages.
    Finished(u64),
}

/// The state of a paced run: messages sent, and whether it was cancelled or
/// its source ran out.
pub struct PacedRun {
    pub sent: u64,
    pub cancelled: bool,
    pub finished: bool,
}

impl PacedRun {
    pub fn new() -> (r: PacedRun)
        ensures
            r.sent == 0,
            !r.cancelled,
            !r.finished,
    {
        PacedRun { sent: 0, cancelled: false, finished: false }
    }

    /// Decides what to do on `event`. A cancellation stops the run; once
    /// stopped or finished, no further message is taken or sent.
    pub fn on_event(&mut self, source: &mut Source, event: PaceEvent, now_ms: i64) -> (r: PaceAction)
        requires
            source_ready(old(source)@),
        ensures
            source_ready(final(source)@),
            final(self).sent == old(self).sent,
            old(self).cancelled ==> r == PaceAction::Cancelled(old(self).sent) && *final(self)
                == *old(self) && final(source)@ == old(source)@,
            !old(self).cancelled && old(self).finished ==> r == PaceAction::Finished(old(self).sent)
                && *final(self) == *old(self) && final(source)@ == old(source)@,
            !old(self).cancelled && !old(self).finished && event is Cancel ==> r
                == PaceAction::Cancelled(old(self).sent) && final(self).cancelled
                && !final(self).finished && final(source)@ == old(source)@,
            !old(self).cancelled && !old(self).finished && event is Tick ==> {
                let (v, p) = payload_step(old(source)@, now_ms as int);
                &&& final(source)@ == v
                &&& !final(self).cancelled
                &&& p is Some ==> r is Send && r->Send_0@ == p->Some_0 && !final(self).finished
                &&& p is None ==> r == PaceAction::Finished(old(self).sent) && final(self).finished
            },
    {
        if self.cancelled {
            return PaceAction::Cancelled(self.sent);
        }
        if self.finished {
            return PaceAction::Finished(self.sent);
        }
        match event {
            PaceEvent::Cancel => {
                self.cancelled = true;
                PaceAction::Cancelled(self.sent)
            },
            PaceEvent::Tick => match source.next_payload(now_ms) {
                Some(p) => PaceAction::Send(p),
                None => {
                    self.finished = true;
                    PaceAction::Finished(self.sent)
                },
            },
        }
    }

    /// Counts one delivered message (the count stops at `u64::MAX`); tells
    /// whether a progress report is due.
    pub fn record_sent(&mut self) -> (due: bool)
        ensures
            final(self).sent == if old(self).sent < u64::MAX {
                old(self).sent + 1
            } else {
                old(self).sent as int
            },
            final(self).cancelled == old(self).cancelled,
            final(self).finished == old(self).finished,
            due == (final(self).sent % PACED_PROGRESS_EVERY == 0),
    {
        if self.sent < u64::MAX {
            self.sent = self.sent + 1;
        }
        self.sent % PACED_PROGRESS_EVERY == 0
    }
}

} // verus!
