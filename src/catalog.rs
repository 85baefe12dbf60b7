//! The fixed universe of nine instruments and the choice among them.

use vstd::prelude::*;
use vstd::string::*;
use crate::instrument::{Instrument, InstrumentView, PRICE_CEILING};
use crate::text::{chars_vec, occurs_at, push_char};

verus! {

pub open spec fn entry(name: Seq<char>, price: int, spread: int, decimals: int, step: int) -> InstrumentView {
    InstrumentView { name, price, spread, decimals, step }
}

/// The catalog, prices in nano-units, in its fixed order.
pub open spec fn catalog_view() -> Seq<InstrumentView> {
    seq![
        entry("XAUUSD"@, 2_650_000_000_000, 700_000_000, 2, 2_000_000_000),
        entry("XAGUSD"@, 31_500_000_000, 30_000_000, 2, 50_000_000),
        entry("EURUSD"@, 1_085_000_000, 200_000, 5, 500_000),
        entry("GBPUSD"@, 1_265_000_000, 200_000, 5, 500_000),
        entry("USDJPY"@, 150_000_000_000, 20_000_000, 3, 50_000_000),
        entry("AUDUSD"@, 655_000_000, 200_000, 5, 500_000),
        entry("USDCHF"@, 880_000_000, 200_000, 5, 500_000),
        entry("USDCAD"@, 1_360_000_000, 200_000, 5, 500_000),
        entry("NZDUSD"@, 615_000_000, 200_000, 5, 500_000),
    ]
}

/// The views of a sequence of instruments.
pub open spec fn views(v: Seq<Instrument>) -> Seq<InstrumentView> {
    v.map_values(|i: Instrument| i@)
}

/// The nine instruments, in catalog order.
pub fn catalog() -> (r: Vec<Instrument>)
    ensures
        views(r@) == catalog_view(),
{
    let r = vec![
        Instrument::new("XAUUSD", 2_650_000_000_000, 700_000_000, 2, 2_000_000_000),
        Instrument::new("XAGUSD", 31_500_000_000, 30_000_000, 2, 50_000_000),
        Instrument::new("EURUSD", 1_085_000_000, 200_000, 5, 500_000),
        Instrument::new("GBPUSD", 1_265_000_000, 200_000, 5, 500_000),
        Instrument::new("USDJPY", 150_000_000_000, 20_000_000, 3, 50_000_000),
        Instrument::new("AUDUSD", 655_000_000, 200_000, 5, 500_000),
        Instrument::new("USDCHF", 880_000_000, 200_000, 5, 500_000),
        Instrument::new("USDCAD", 1_360_000_000, 200_000, 5, 500_000),
        Instrument::new("NZDUSD", 615_000_000, 200_000, 5, 500_000),
    ];
    assert(views(r@) =~= catalog_view());
    r
}

/// Two characters equal up to ASCII case.
pub open spec fn chars_match(a: char, b: char) -> bool {
    a == b || ('A' <= a <= 'Z' && a as u32 + 32 == b as u32) || ('A' <= b <= 'Z' && b as u32 + 32
        == a as u32)
}

/// Two names equal up to ASCII case.
pub open spec fn names_match(a: Seq<char>, b: Seq<char>) -> bool {
    a.len() == b.len() && forall|i: int| 0 <= i < a.len() ==> chars_match(#[trigger] a[i], b[i])
}

/// The catalog entries whose names match `filter` up to ASCII case, in order.
pub open spec fn matching(filter: Seq<char>) -> Seq<InstrumentView> {
    catalog_view().filter(|v: InstrumentView| names_match(v.name, filter))
}

/// The names of `v`, separated by single spaces.
pub open spec fn join_names(v: Seq<InstrumentView>) -> Seq<char>
    decreases v.len(),
{
    if v.len() == 0 {
        seq![]
    } else if v.len() == 1 {
        v[0].name
    } else {
        join_names(v.drop_last()) + seq![' '] + v.last().name
    }
}

/// The report of a filter that matches no instrument.
pub open spec fn unknown_message(filter: Seq<char>) -> Seq<char> {
    "unknown symbol: "@ + filter + "\navailable: "@ + join_names(catalog_view())
}

fn chars_match_exec(a: char, b: char) -> (r: bool)
    ensures
        r == chars_match(a, b),
{
    a == b || ('A' <= a && a <= 'Z' && a as u32 + 32 == b as u32) || ('A' <= b && b <= 'Z' && b
        as u32 + 32 == a as u32)
}

/// Whether two names are equal up to ASCII case.
pub fn eq_ignore_ascii_case(a: &str, b: &str) -> (r: bool)
    ensures
        r == names_match(a@, b@),
{
    let x = chars_vec(a);
    let y = chars_vec(b);
    if x.len() != y.len() {
        return false;
    }
    let mut i: usize = 0;
    while i < x.len()
        invariant
            x@ == a@,
            y@ == b@,
            x.len() == y.len(),
            i <= x.len(),
            forall|j: int| 0 <= j < i ==> chars_match(#[trigger] a@[j], b@[j]),
        decreases x.len() - i,
    {
        if !chars_match_exec(x[i], y[i]) {
            return false;
        }
        i = i + 1;
    }
    true
}

/// The catalog's names separated by single spaces.
fn catalog_names(all: &Vec<Instrument>) -> (r: String)
    requires
        views(all@) == catalog_view(),
    ensures
        r@ == join_names(catalog_view()),
{
    let mut s = String::new();
    let mut i: usize = 0;
    while i < all.len()
        invariant
            views(all@) == catalog_view(),
            i <= all.len(),
            s@ == join_names(catalog_view().take(i as int)),
        decreases all.len() - i,
    {
        if i > 0 {
            push_char(&mut s, ' ');
        }
        s.append(all[i].name());
        proof {
            let t = catalog_view().take(i + 1);
            assert(t.drop_last() =~= catalog_view().take(i as int));
            assert(views(all@)[i as int] == all@[i as int]@);
            if i == 0 {
                assert(catalog_view().take(0) =~= Seq::<InstrumentView>::empty());
            }
            assert(s@ =~= join_names(t));
        }
        i = i + 1;
    }
    proof {
        assert(catalog_view().take(9) =~= catalog_view());
    }
    s
}

/// The instruments that `filter` selects: all of the catalog when there is no
/// filter, otherwise those whose names equal it up to ASCII case. A filter
/// that matches nothing is an error that lists the catalog's names.
pub fn select_instruments(filter: Option<&str>) -> (r: Result<Vec<Instrument>, String>)
    ensures
        filter is None ==> r is Ok && views(r->Ok_0@) == catalog_view(),
        filter is Some ==> {
            let sel = matching(filter->Some_0@);
            &&& sel.len() > 0 ==> r is Ok && views(r->Ok_0@) == sel
            &&& sel.len() == 0 ==> r is Err && r->Err_0@ == unknown_message(filter->Some_0@)
        },
{
    let all = catalog();
    match filter {
        None => Ok(all),
        Some(f) => {
            let mut sel: Vec<Instrument> = Vec::new();
            let mut i: usize = 0;
            while i < all.len()
                invariant
                    views(all@) == catalog_view(),
                    i <= all.len(),
                    views(sel@) == catalog_view().take(i as int).filter(
                        |v: InstrumentView| names_match(v.name, f@),
                    ),
                decreases all.len() - i,
            {
                let inst = all[i];
                let keep = eq_ignore_ascii_case(inst.name(), f);
                if keep {
                    sel.push(inst);
                }
                proof {
                    let t = catalog_view().take(i + 1);
                    assert(t.drop_last() =~= catalog_view().take(i as int));
                    assert(views(all@)[i as int] == inst@);
                    reveal(Seq::filter);
                    assert(views(sel@) =~= t.filter(|v: InstrumentView| names_match(v.name, f@)));
                }
                i = i + 1;
            }
            proof {
                assert(catalog_view().take(9) =~= catalog_view());
            }
            if sel.len() == 0 {
                let mut msg = String::from_str("unknown symbol: ");
                msg.append(f);
                msg.append("\navailable: ");
                let names = catalog_names(&all);
                msg.append(names.as_str());
                Err(msg)
            } else {
                Ok(sel)
            }
        }
    }
}

/// With exactly one instrument selected, a positive `price` (nano-units)
/// replaces its bid, brought into `[step, PRICE_CEILING]`; otherwise nothing
/// changes.
pub fn apply_price_override(instruments: &mut Vec<Instrument>, price: u64)
    ensures
        price > 0 && old(instruments).len() == 1 ==> {
            &&& final(instruments).len() == 1
            &&& final(instruments)@[0]@ == (InstrumentView {
                price: if price < old(instruments)@[0]@.step {
                    old(instruments)@[0]@.step
                } else if price > PRICE_CEILING {
                    PRICE_CEILING as int
                } else {
                    price as int
                },
                ..old(instruments)@[0]@
            })
        },
        !(price > 0 && old(instruments).len() == 1) ==> final(instruments)@ == old(instruments)@,
{
    if price > 0 && instruments.len() == 1 {
        let mut inst = instruments[0];
        inst.set_price(price);
        instruments.set(0, inst);
    }
}

proof fn lemma_join_contains(v: Seq<InstrumentView>, i: int)
    requires
        0 <= i < v.len(),
    ensures
        exists|k: int| occurs_at(join_names(v), v[i].name, k),
    decreases v.len(),
{
    let j = join_names(v);
    if v.len() == 1 {
        assert(j.subrange(0, v[i].name.len() as int) =~= v[i].name);
        assert(occurs_at(j, v[i].name, 0));
    } else if i == v.len() - 1 {
        let k: int = join_names(v.drop_last()).len() as int + 1;
        assert(j.subrange(k, k + v[i].name.len()) =~= v[i].name);
        assert(occurs_at(j, v[i].name, k));
    } else {
        lemma_join_contains(v.drop_last(), i);
        let k = choose|k: int| occurs_at(join_names(v.drop_last()), v.drop_last()[i].name, k);
        assert(j.subrange(k, k + v[i].name.len()) =~= join_names(v.drop_last()).subrange(
            k,
            k + v[i].name.len(),
        ));
        assert(occurs_at(j, v[i].name, k));
    }
}

/// The report of an unknown filter names every instrument of the catalog.
pub proof fn lemma_unknown_lists_catalog(filter: Seq<char>, i: int)
    requires
        0 <= i < catalog_view().len(),
    ensures
        exists|k: int| occurs_at(unknown_message(filter), catalog_view()[i].name, k),
{
    lemma_join_contains(catalog_view(), i);
    let j = join_names(catalog_view());
    let k = choose|k: int| occurs_at(j, catalog_view()[i].name, k);
    let pre = "unknown symbol: "@ + filter + "\navailable: "@;
    let m = unknown_message(filter);
    let n = catalog_view()[i].name;
    assert(m == pre + j);
    assert(m.subrange(pre.len() + k, pre.len() + k + n.len()) =~= j.subrange(k, k + n.len()));
    assert(occurs_at(m, n, pre.len() + k));
}

} // verus!
