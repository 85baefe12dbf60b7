//! Decisions of the pipeline administration commands: which failures mean
//! the object is already in the wanted state, and how a candle rebuild is
//! scoped.

use vstd::prelude::*;
use vstd::string::*;
use crate::config::RebuildOhlcArgs;
use crate::text::{contains, contains_str};

verus! {

/// The database reports that the object already exists.
pub fn already_exists(err: &str) -> (r: bool)
    ensures
        r == contains(err@, "already exists"@),
{
    contains_str(err, "already exists")
}

/// The database reports that the object does not exist.
pub fn does_not_exist(err: &str) -> (r: bool)
    ensures
        r == (contains(err@, "doesn't exist"@) || contains(err@, "does not exist"@)),
{
    contains_str(err, "doesn't exist") || contains_str(err, "does not exist")
}

/// An attach that failed because the table is attached already or is
/// absent: either way there is nothing to do.
pub fn attach_needs_nothing(err: &str) -> (r: bool)
    ensures
        r == (contains(err@, "already exists"@) || contains(err@, "doesn't exist"@) || contains(
            err@,
            "does not exist"@,
        )),
{
    already_exists(err) || does_not_exist(err)
}

/// A topic deletion that failed because there is no such topic.
pub fn topic_missing(err: &str) -> (r: bool)
    ensures
        r == (contains(err@, "UnknownTopicOrPartition"@) || contains(err@, "does not exist"@)),
{
    contains_str(err, "UnknownTopicOrPartition") || contains_str(err, "does not exist")
}

/// A topic creation that failed because the topic is there already.
pub fn topic_exists(err: &str) -> (r: bool)
    ensures
        r == (contains(err@, "TopicExistsException"@) || contains(err@, "already exists"@)),
{
    contains_str(err, "TopicExistsException") || contains_str(err, "already exists")
}

/// `parts` separated by `sep`.
pub open spec fn join_with(parts: Seq<Seq<char>>, sep: Seq<char>) -> Seq<char>
    decreases parts.len(),
{
    if parts.len() == 0 {
        seq![]
    } else if parts.len() == 1 {
        parts[0]
    } else {
        join_with(parts.drop_last(), sep) + sep + parts.last()
    }
}

pub open spec fn opt_view(o: Option<String>) -> Option<Seq<char>> {
    match o {
        Some(s) => Some(s@),
        None => None,
    }
}

/// The filters of a rebuild: start, end and symbol, each when given.
pub open spec fn rebuild_conditions(args: RebuildOhlcArgs) -> Seq<Seq<char>> {
    let a = match opt_view(args.from) {
        Some(f) => seq!["ts >= '"@ + f + "'"@],
        None => seq![],
    };
    let b = match opt_view(args.to) {
        Some(t) => seq!["ts < '"@ + t + "'"@],
        None => seq![],
    };
    let c = match opt_view(args.symbol) {
        Some(s) => seq!["symbol = '"@ + s + "'"@],
        None => seq![],
    };
    a + b + c
}

/// The `WHERE` clause of a rebuild: empty when nothing is filtered.
pub open spec fn rebuild_where_sql(args: RebuildOhlcArgs) -> Seq<char> {
    let conds = rebuild_conditions(args);
    if conds.len() == 0 {
        seq![]
    } else {
        "WHERE "@ + join_with(conds, " AND "@)
    }
}

fn quoted(prefix: &str, value: &String) -> (r: String)
    ensures
        r@ == prefix@ + value@ + "'"@,
{
    let mut s = String::from_str(prefix);
    s.append(value.as_str());
    s.append("'");
    s
}

/// The `WHERE` clause of a rebuild, empty when the rebuild is full.
pub fn rebuild_where(args: &RebuildOhlcArgs) -> (r: String)
    ensures
        r@ == rebuild_where_sql(*args),
{
    let mut conds: Vec<String> = Vec::new();
    if let Some(f) = &args.from {
        conds.push(quoted("ts >= '", f));
    }
    if let Some(t) = &args.to {
        conds.push(quoted("ts < '", t));
    }
    if let Some(s) = &args.symbol {
        conds.push(quoted("symbol = '", s));
    }
    let ghost want = rebuild_conditions(*args);
    assert(conds.deep_view() =~= want);
    if conds.len() == 0 {
        return String::new();
    }
    let mut out = String::from_str("WHERE ");
    let mut i: usize = 0;
    while i < conds.len()
        invariant
            i <= conds.len(),
            conds.deep_view() == want,
            want.len() > 0,
            i == 0 ==> out@ == "WHERE "@,
            i > 0 ==> out@ == "WHERE "@ + join_with(want.take(i as int), " AND "@),
        decreases conds.len() - i,
    {
        if i > 0 {
            out.append(" AND ");
        }
        out.append(conds[i].as_str());
        proof {
            let t = want.take(i + 1);
            assert(t.drop_last() =~= want.take(i as int));
            assert(conds[i as int]@ == want[i as int]);
            if i == 0 {
                assert(join_with(t, " AND "@) == t[0]);
            }
            assert(out@ =~= "WHERE "@ + join_with(t, " AND "@));
        }
        i = i + 1;
    }
    proof {
        assert(want.take(conds.len() as int) =~= want);
    }
    out
}

/// How a rebuild describes its scope.
pub open spec fn rebuild_scope_text(args: RebuildOhlcArgs) -> Seq<char> {
    let from = match opt_view(args.from) {
        Some(f) => f,
        None => "*"@,
    };
    let to = match opt_view(args.to) {
        Some(t) => t,
        None => "*"@,
    };
    let has_range = args.from is Some || args.to is Some;
    match opt_view(args.symbol) {
        Some(s) => if has_range {
            s + " from "@ + from + " to "@ + to
        } else {
            s + " (full)"@
        },
        None => if has_range {
            "all symbols from "@ + from + " to "@ + to
        } else {
            "FULL REBUILD (all symbols, all time)"@
        },
    }
}

fn or_star(o: &Option<String>) -> (r: &str)
    ensures
        r@ == match opt_view(*o) {
            Some(v) => v,
            None => "*"@,
        },
{
    match o {
        Some(v) => v.as_str(),
        None => "*",
    }
}

/// The description of a rebuild's scope.
pub fn rebuild_scope(args: &RebuildOhlcArgs) -> (r: String)
    ensures
        r@ == rebuild_scope_text(*args),
{
    let has_range = args.from.is_some() || args.to.is_some();
    match &args.symbol {
        Some(s) => {
            let mut out = s.clone();
            if has_range {
                out.append(" from ");
                out.append(or_star(&args.from));
                out.append(" to ");
                out.append(or_star(&args.to));
            } else {
                out.append(" (full)");
            }
            out
        },
        None => {
            if has_range {
                let mut out = String::from_str("all symbols from ");
                out.append(or_star(&args.from));
                out.append(" to ");
                out.append(or_star(&args.to));
                out
            } else {
                String::from_str("FULL REBUILD (all symbols, all time)")
            }
        },
    }
}

} // verus!
