//! A deterministic xorshift64 pseudo-random stream.

use vstd::prelude::*;

verus! {

/// One xorshift64 step: shifts left 13, right 7, left 17, each xored in.
pub open spec fn xorshift(s: u64) -> u64 {
    let a = s ^ (s << 13u64);
    let b = a ^ (a >> 7u64);
    b ^ (b << 17u64)
}

/// The state after `n` steps from state `s`.
pub open spec fn state_after(s: u64, n: nat) -> u64
    decreases n,
{
    if n == 0 {
        s
    } else {
        xorshift(state_after(s, (n - 1) as nat))
    }
}

/// The first `n` values drawn by a stream whose state is `s`.
pub open spec fn draws(s: u64, n: nat) -> Seq<u64> {
    Seq::new(n, |i: int| state_after(s, (i + 1) as nat))
}

/// The state a seed gives, where the seed alone decides it (seed not zero).
pub open spec fn seeded_state(seed: i64) -> u64 {
    seed as u64
}

/// The state a zero seed gives, where `clock` is the wall clock in nanoseconds.
pub open spec fn clock_state(clock: u128) -> u64 {
    (clock as u64) | 1u64
}

/// A xorshift step never turns a nonzero state into zero.
pub proof fn lemma_xorshift_nonzero(s: u64)
    requires
        s != 0,
    ensures
        xorshift(s) != 0,
{
    let a = s ^ (s << 13u64);
    let b = a ^ (a >> 7u64);
    let c = b ^ (b << 17u64);
    assert(s != 0 ==> s ^ (s << 13u64) != 0) by (bit_vector);
    assert(a != 0 ==> a ^ (a >> 7u64) != 0) by (bit_vector);
    assert(b != 0 ==> b ^ (b << 17u64) != 0) by (bit_vector);
}

/// No number of steps from a nonzero state reaches zero.
pub proof fn lemma_state_never_zero(s: u64, n: nat)
    requires
        s != 0,
    ensures
        state_after(s, n) != 0,
    decreases n,
{
    if n > 0 {
        lemma_state_never_zero(s, (n - 1) as nat);
        lemma_xorshift_nonzero(state_after(s, (n - 1) as nat));
    }
}

/// A zero seed never yields the zero state, whatever the clock reads.
pub proof fn lemma_clock_state_nonzero(clock: u128)
    ensures
        clock_state(clock) != 0,
{
    let c = clock as u64;
    assert(c | 1u64 != 0) by (bit_vector);
}

/// Two streams built from the same nonzero seed draw the same values, none
/// of them zero.
pub proof fn lemma_same_seed_same_draws(a: Rng, b: Rng, seed: i64, n: nat)
    requires
        seed != 0,
        a@ == seeded_state(seed),
        b@ == seeded_state(seed),
    ensures
        draws(a@, n) == draws(b@, n),
        forall|i: int| 0 <= i < n ==> #[trigger] draws(a@, n)[i] != 0,
{
    assert(seed as u64 != 0) by (bit_vector)
        requires
            seed != 0,
    ;
    assert forall|i: int| 0 <= i < n implies #[trigger] draws(a@, n)[i] != 0 by {
        lemma_state_never_zero(a@, (i + 1) as nat);
    }
}

/// Wall-clock time in nanoseconds since the Unix epoch (zero for a clock set
/// before the epoch).
///
/// Relies on std::time::SystemTime::elapsed, taken from UNIX_EPOCH; the value
/// depends on the moment of the call, so nothing is promised of it.
#[verifier::external_body]
pub(crate) fn unix_time_nanos() -> (r: u128) {
    match std::time::UNIX_EPOCH.elapsed() {
        Ok(d) => d.as_nanos(),
        Err(_) => 0,
    }
}

/// Whole milliseconds in `nanos` nanoseconds, capped at `i64::MAX`.
pub open spec fn millis_of(nanos: u128) -> i64 {
    if nanos / 1_000_000 > i64::MAX as u128 {
        i64::MAX
    } else {
        (nanos / 1_000_000) as i64
    }
}

/// Milliseconds since the Unix epoch, read from the wall clock.
pub fn now_ms() -> (r: i64)
    ensures
        exists|nanos: u128| r == millis_of(nanos),
        r >= 0,
{
    let nanos = unix_time_nanos();
    let ms = nanos / 1_000_000;
    let r = if ms > i64::MAX as u128 {
        i64::MAX
    } else {
        ms as i64
    };
    assert(r == millis_of(nanos));
    r
}

/// A xorshift64 stream: a single 64-bit state that is never zero.
pub struct Rng {
    state: u64,
}

impl View for Rng {
    type V = u64;

    closed spec fn view(&self) -> u64 {
        self.state
    }
}

impl Rng {
    #[verifier::type_invariant]
    spec fn state_nonzero(self) -> bool {
        self.state != 0
    }

    /// A stream from `seed`; a zero seed takes its state from `clock`
    /// (nanoseconds) with the lowest bit set, so the state is never zero.
    pub fn with_clock(seed: i64, clock: u128) -> (r: Rng)
        ensures
            seed != 0 ==> r@ == seeded_state(seed),
            seed == 0 ==> r@ == clock_state(clock),
            r@ != 0,
    {
        let state: u64 = if seed == 0 {
            (clock as u64) | 1u64
        } else {
            seed as u64
        };
        assert(seed != 0 ==> seed as u64 != 0) by (bit_vector);
        let c = clock as u64;
        assert(c | 1u64 != 0) by (bit_vector);
        Rng { state }
    }

    /// A stream from `seed`; a zero seed is replaced by the wall clock's
    /// nanoseconds with the lowest bit set.
    pub fn new(seed: i64) -> (r: Rng)
        ensures
            seed != 0 ==> r@ == seeded_state(seed),
            r@ != 0,
    {
        if seed == 0 {
            Rng::with_clock(seed, unix_time_nanos())
        } else {
            Rng::with_clock(seed, 0)
        }
    }

    /// Advances the state by one xorshift step and returns the new state.
    pub fn next_u64(&mut self) -> (r: u64)
        ensures
            r == xorshift(old(self)@),
            final(self)@ == r,
        no_unwind
    {
        proof {
            use_type_invariant(&*self);
            lemma_xorshift_nonzero(self.state);
        }
        let mut s = self.state;
        s = s ^ (s << 13u64);
        s = s ^ (s >> 7u64);
        s = s ^ (s << 17u64);
        self.state = s;
        s
    }

    /// A uniform draw in [0, 1), given as its numerator over 2^53: the high
    /// 53 bits of the next 64-bit draw.
    pub fn next_unit(&mut self) -> (r: u64)
        ensures
            r == xorshift(old(self)@) >> 11u64,
            r < 0x20_0000_0000_0000u64,
            final(self)@ == xorshift(old(self)@),
        no_unwind
    {
        let x = self.next_u64();
        assert(x >> 11u64 < 0x20_0000_0000_0000u64) by (bit_vector);
        x >> 11u64
    }

    /// A draw in [0, n): the next 64-bit draw modulo `n` (slightly biased
    /// when `n` is not a power of two).
    pub fn next_intn(&mut self, n: usize) -> (r: usize)
        requires
            n > 0,
        ensures
            r as int == xorshift(old(self)@) as int % n as int,
            r < n,
            final(self)@ == xorshift(old(self)@),
        no_unwind
    {
        let x = self.next_u64();
        (x % (n as u64)) as usize
    }
}

} // verus!
