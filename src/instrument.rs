//! Instruments: a bid price that walks at random within fixed bounds, with a
//! fixed spread and display precision.

use vstd::prelude::*;
use vstd::string::*;
use crate::rng::{Rng, xorshift};
use crate::text::{fixed_point, signed_decimal, pow10, push_fixed, push_signed, pow10_u64, lemma_pow10_bound};

verus! {

/// Prices are held in nano-units: 10^-9 of the quoted currency.
pub const NANO_DIGITS: u32 = 9;

/// The largest price, spread or step an instrument holds, in nano-units.
pub const PRICE_CEILING: u64 = 1_000_000_000_000_000_000;

/// 2^53: the denominator of a unit draw.
pub const UNIT_DENOMINATOR: u64 = 0x20_0000_0000_0000;

/// What an instrument holds, as plain values.
pub struct InstrumentView {
    pub name: Seq<char>,
    pub price: int,
    pub spread: int,
    pub decimals: int,
    pub step: int,
}

/// One random-walk move: `unit / 2^53` in [0, 1) becomes a move of
/// `(2 * unit / 2^53 - 1) * step`, rounded down; the price stays within
/// `[step, PRICE_CEILING]`.
pub open spec fn walk(price: int, step: int, unit: int) -> int {
    let p = price - step + (2 * unit * step) / (UNIT_DENOMINATOR as int);
    if p < step {
        step
    } else if p > PRICE_CEILING as int {
        PRICE_CEILING as int
    } else {
        p
    }
}

/// A nano-unit price rounded (half up) to `decimals` places, counted in
/// units of the last place.
pub open spec fn rounded(nanos: int, decimals: int) -> nat {
    let unit = pow10((NANO_DIGITS - decimals) as nat);
    ((nanos + unit / 2) / (unit as int)) as nat
}

/// A nano-unit price written with `decimals` places.
pub open spec fn price_text(nanos: int, decimals: int) -> Seq<char> {
    fixed_point(rounded(nanos, decimals), decimals as nat)
}

/// `{"symbol":NAME,"bid":BID,"ask":ASK` — a quote up to its closing brace.
pub open spec fn quote_fields(v: InstrumentView) -> Seq<char> {
    "{\"symbol\":\""@ + v.name + "\",\"bid\":"@ + price_text(v.price, v.decimals) + ",\"ask\":"@
        + price_text(v.price + v.spread, v.decimals)
}

/// The compact quote line `{"symbol":…,"bid":…,"ask":…}`.
pub open spec fn quote_json(v: InstrumentView) -> Seq<char> {
    quote_fields(v) + "}"@
}

/// The quote line with a timestamp: `{"symbol":…,"bid":…,"ask":…,"ts_ms":…}`.
pub open spec fn quote_json_ts(v: InstrumentView, ts_ms: int) -> Seq<char> {
    quote_fields(v) + ",\"ts_ms\":"@ + signed_decimal(ts_ms) + "}"@
}

/// The price after walking from `price` through each unit draw of `units`.
pub open spec fn walk_all(price: int, step: int, units: Seq<int>) -> int
    decreases units.len(),
{
    if units.len() == 0 {
        price
    } else {
        walk(walk_all(price, step, units.drop_last()), step, units.last())
    }
}

/// However many moves an instrument makes, its price stays within
/// `[step, PRICE_CEILING]`.
pub proof fn lemma_walk_stays_in_bounds(v: InstrumentView, units: Seq<int>)
    requires
        instrument_bounds(v),
    ensures
        v.step <= walk_all(v.price, v.step, units) <= PRICE_CEILING,
    decreases units.len(),
{
    if units.len() > 0 {
        lemma_walk_stays_in_bounds(v, units.drop_last());
    }
}

#[derive(Clone, Copy)]
pub struct Instrument {
    name: &'static str,
    price: u64,
    spread: u64,
    decimals: u32,
    step: u64,
}

impl View for Instrument {
    type V = InstrumentView;

    closed spec fn view(&self) -> InstrumentView {
        InstrumentView {
            name: self.name@,
            price: self.price as int,
            spread: self.spread as int,
            decimals: self.decimals as int,
            step: self.step as int,
        }
    }
}

/// Bounds that every instrument keeps.
pub open spec fn instrument_bounds(v: InstrumentView) -> bool {
    &&& 0 < v.step <= v.price <= PRICE_CEILING
    &&& 0 <= v.spread <= PRICE_CEILING
    &&& 0 <= v.decimals <= NANO_DIGITS
}

impl Instrument {
    #[verifier::type_invariant]
    spec fn bounded(self) -> bool {
        &&& 0 < self.step <= self.price <= PRICE_CEILING
        &&& self.spread <= PRICE_CEILING
        &&& self.decimals <= NANO_DIGITS
    }

    /// An instrument; the price is brought into `[step, PRICE_CEILING]`.
    pub fn new(name: &'static str, price: u64, spread: u64, decimals: u32, step: u64) -> (r: Instrument)
        requires
            0 < step <= PRICE_CEILING,
            spread <= PRICE_CEILING,
            decimals <= NANO_DIGITS,
        ensures
            r@.name == name@,
            r@.price == if price < step { step as int } else if price > PRICE_CEILING { PRICE_CEILING as int } else { price as int },
            r@.spread == spread,
            r@.decimals == decimals,
            r@.step == step,
    {
        let p = if price < step {
            step
        } else if price > PRICE_CEILING {
            PRICE_CEILING
        } else {
            price
        };
        Instrument { name, price: p, spread, decimals, step }
    }

    pub fn name(&self) -> (r: &'static str)
        ensures
            r@ == self@.name,
    {
        self.name
    }

    /// The bid price in nano-units.
    pub fn price(&self) -> (r: u64)
        ensures
            r == self@.price,
            instrument_bounds(self@),
    {
        proof {
            use_type_invariant(self);
        }
        self.price
    }

    pub fn spread(&self) -> (r: u64)
        ensures
            r == self@.spread,
    {
        self.spread
    }

    pub fn decimals(&self) -> (r: u32)
        ensures
            r == self@.decimals,
    {
        self.decimals
    }

    pub fn step(&self) -> (r: u64)
        ensures
            r == self@.step,
    {
        self.step
    }

    /// Sets the bid price, brought into `[step, PRICE_CEILING]`.
    pub fn set_price(&mut self, price: u64)
        ensures
            final(self)@ == (InstrumentView {
                price: if price < old(self)@.step { old(self)@.step } else if price > PRICE_CEILING { PRICE_CEILING as int } else { price as int },
                ..old(self)@
            }),
    {
        proof {
            use_type_invariant(&*self);
        }
        self.price = if price < self.step {
            self.step
        } else if price > PRICE_CEILING {
            PRICE_CEILING
        } else {
            price
        };
    }

    /// Moves the price by one random-walk step drawn from `rng`.
    pub fn tick(&mut self, rng: &mut Rng)
        ensures
            final(self)@ == (InstrumentView {
                price: walk(old(self)@.price, old(self)@.step, (xorshift(old(rng)@) >> 11u64) as int),
                ..old(self)@
            }),
            final(rng)@ == xorshift(old(rng)@),
            final(self)@.price >= final(self)@.step,
        no_unwind
    {
        proof {
            use_type_invariant(&*self);
        }
        let u = rng.next_unit();
        let step = self.step as u128;
        let twice: u128 = 2 * (u as u128);
        assert(twice * step <= 0x40_0000_0000_0000 * 1_000_000_000_000_000_000) by (nonlinear_arith)
            requires
                twice <= 0x40_0000_0000_0000,
                step <= 1_000_000_000_000_000_000,
        ;
        let scaled: u128 = twice * step;
        assert(scaled < 2 * (UNIT_DENOMINATOR as int) * step) by (nonlinear_arith)
            requires
                scaled == 2 * (u as int) * step,
                u < UNIT_DENOMINATOR,
                step > 0,
        ;
        let moved: u128 = scaled / (UNIT_DENOMINATOR as u128);
        assert(moved < 2 * step) by (nonlinear_arith)
            requires
                moved as int == scaled as int / (UNIT_DENOMINATOR as int),
                scaled < 2 * (UNIT_DENOMINATOR as int) * step,
        ;
        let p: u128 = (self.price - self.step) as u128 + moved;
        self.price = if p < step {
            self.step
        } else if p > PRICE_CEILING as u128 {
            PRICE_CEILING
        } else {
            p as u64
        };
    }

    fn push_quote_fields(&self, s: &mut String)
        ensures
            final(s)@ == old(s)@ + quote_fields(self@),
    {
        proof {
            use_type_invariant(self);
        }
        s.append("{\"symbol\":\"");
        s.append(self.name);
        s.append("\",\"bid\":");
        self.push_price(s, self.price);
        s.append(",\"ask\":");
        self.push_price(s, self.price + self.spread);
        proof {
            assert(s@ =~= old(s)@ + quote_fields(self@));
        }
    }

    fn push_price(&self, s: &mut String, nanos: u64)
        requires
            nanos <= 2 * PRICE_CEILING,
        ensures
            final(s)@ == old(s)@ + price_text(nanos as int, self@.decimals),
    {
        proof {
            use_type_invariant(self);
            lemma_pow10_bound((NANO_DIGITS - self.decimals) as nat);
        }
        let unit = pow10_u64(NANO_DIGITS - self.decimals);
        let r = (nanos + unit / 2) / unit;
        push_fixed(s, r, self.decimals);
    }

    /// The compact quote line.
    pub fn format_json(&self) -> (r: String)
        ensures
            r@ == quote_json(self@),
    {
        let mut s = String::new();
        self.push_quote_fields(&mut s);
        s.append("}");
        proof {
            assert(s@ =~= quote_json(self@));
        }
        s
    }

    /// The quote line with timestamp `ts_ms`.
    pub fn format_json_ts(&self, ts_ms: i64) -> (r: String)
        ensures
            r@ == quote_json_ts(self@, ts_ms as int),
    {
        let mut s = String::new();
        self.push_quote_fields(&mut s);
        s.append(",\"ts_ms\":");
        push_signed(&mut s, ts_ms);
        s.append("}");
        proof {
            assert(s@ =~= quote_json_ts(self@, ts_ms as int));
        }
        s
    }
}

} // verus!
