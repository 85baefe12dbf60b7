//! Statements that the administration commands send to the database.

use vstd::prelude::*;
use vstd::string::*;

verus! {

/// The text of `attach_table`.
pub open spec fn attach_table_sql(name: Seq<char>) -> Seq<char> {
    r#"ATTACH TABLE "#@
        + name
}

/// Attaches a detached table.
pub fn attach_table(name: &str) -> (r: String)
    ensures
        r@ == attach_table_sql(name@),
{
    let mut s = String::new();
    s.append(r#"ATTACH TABLE "#);
    s.append(name);
    proof {
        assert(s@ =~= attach_table_sql(name@));
    }
    s
}

/// The text of `detach_table`.
pub open spec fn detach_table_sql(name: Seq<char>) -> Seq<char> {
    r#"DETACH TABLE "#@
        + name
}

/// Detaches a table, stopping what it does without dropping it.
pub fn detach_table(name: &str) -> (r: String)
    ensures
        r@ == detach_table_sql(name@),
{
    let mut s = String::new();
    s.append(r#"DETACH TABLE "#);
    s.append(name);
    proof {
        assert(s@ =~= detach_table_sql(name@));
    }
    s
}

/// The text of `drop_view`.
pub open spec fn drop_view_sql(name: Seq<char>) -> Seq<char> {
    r#"DROP VIEW IF EXISTS "#@
        + name
}

/// Drops a view if there is one.
pub fn drop_view(name: &str) -> (r: String)
    ensures
        r@ == drop_view_sql(name@),
{
    let mut s = String::new();
    s.append(r#"DROP VIEW IF EXISTS "#);
    s.append(name);
    proof {
        assert(s@ =~= drop_view_sql(name@));
    }
    s
}

/// The text of `drop_table`.
pub open spec fn drop_table_sql(name: Seq<char>) -> Seq<char> {
    r#"DROP TABLE IF EXISTS "#@
        + name
}

/// Drops a table if there is one.
pub fn drop_table(name: &str) -> (r: String)
    ensures
        r@ == drop_table_sql(name@),
{
    let mut s = String::new();
    s.append(r#"DROP TABLE IF EXISTS "#);
    s.append(name);
    proof {
        assert(s@ =~= drop_table_sql(name@));
    }
    s
}

/// The text of `exists_table`.
pub open spec fn exists_table_sql(name: Seq<char>) -> Seq<char> {
    r#"EXISTS TABLE "#@
        + name
}

/// Asks whether a table exists (the answer is `1` or `0`).
pub fn exists_table(name: &str) -> (r: String)
    ensures
        r@ == exists_table_sql(name@),
{
    let mut s = String::new();
    s.append(r#"EXISTS TABLE "#);
    s.append(name);
    proof {
        assert(s@ =~= exists_table_sql(name@));
    }
    s
}

/// The text of `backup_name`.
pub open spec fn backup_name_sql(table: Seq<char>, stamp: Seq<char>) -> Seq<char> {
    table
        + r#"_bak_"#@
        + stamp
}

/// The name of the backup of `table` taken at `stamp`.
pub fn backup_name(table: &str, stamp: &str) -> (r: String)
    ensures
        r@ == backup_name_sql(table@, stamp@),
{
    let mut s = String::new();
    s.append(table);
    s.append(r#"_bak_"#);
    s.append(stamp);
    proof {
        assert(s@ =~= backup_name_sql(table@, stamp@));
    }
    s
}

/// The text of `create_table_as`.
pub open spec fn create_table_as_sql(name: Seq<char>, source: Seq<char>) -> Seq<char> {
    r#"CREATE TABLE "#@
        + name
        + r#" AS "#@
        + source
}

/// Creates an empty table with the structure of `source`.
pub fn create_table_as(name: &str, source: &str) -> (r: String)
    ensures
        r@ == create_table_as_sql(name@, source@),
{
    let mut s = String::new();
    s.append(r#"CREATE TABLE "#);
    s.append(name);
    s.append(r#" AS "#);
    s.append(source);
    proof {
        assert(s@ =~= create_table_as_sql(name@, source@));
    }
    s
}

/// The text of `exchange_tables`.
pub open spec fn exchange_tables_sql(a: Seq<char>, b: Seq<char>) -> Seq<char> {
    r#"EXCHANGE TABLES "#@
        + a
        + r#" AND "#@
        + b
}

/// Swaps two tables atomically.
pub fn exchange_tables(a: &str, b: &str) -> (r: String)
    ensures
        r@ == exchange_tables_sql(a@, b@),
{
    let mut s = String::new();
    s.append(r#"EXCHANGE TABLES "#);
    s.append(a);
    s.append(r#" AND "#);
    s.append(b);
    proof {
        assert(s@ =~= exchange_tables_sql(a@, b@));
    }
    s
}

/// The text of `delete_range`.
pub open spec fn delete_range_sql(table: Seq<char>, from: Seq<char>, to: Seq<char>, symbol: Seq<char>) -> Seq<char> {
    r#"DELETE FROM "#@
        + table
        + r#" WHERE ts >= '"#@
        + from
        + r#"' AND ts < '"#@
        + to
        + r#"' AND symbol = '"#@
        + symbol
        + r#"'"#@
}

/// Deletes the rows of `symbol` from `from` up to `to`.
pub fn delete_range(table: &str, from: &str, to: &str, symbol: &str) -> (r: String)
    ensures
        r@ == delete_range_sql(table@, from@, to@, symbol@),
{
    let mut s = String::new();
    s.append(r#"DELETE FROM "#);
    s.append(table);
    s.append(r#" WHERE ts >= '"#);
    s.append(from);
    s.append(r#"' AND ts < '"#);
    s.append(to);
    s.append(r#"' AND symbol = '"#);
    s.append(symbol);
    s.append(r#"'"#);
    proof {
        assert(s@ =~= delete_range_sql(table@, from@, to@, symbol@));
    }
    s
}

/// The text of `tick_summary`.
pub open spec fn tick_summary_sql(table: Seq<char>, from: Seq<char>, to: Seq<char>, symbol: Seq<char>) -> Seq<char> {
    r#"SELECT symbol, count() AS ticks, min(ts) AS first, max(ts) AS last FROM "#@
        + table
        + r#" FINAL WHERE ts >= '"#@
        + from
        + r#"' AND ts < '"#@
        + to
        + r#"' AND symbol = '"#@
        + symbol
        + r#"' GROUP BY symbol ORDER BY symbol FORMAT PrettyCompactMonoBlock"#@
}

/// Counts the ticks of `symbol` from `from` up to `to`, with the first and last instant.
pub fn tick_summary(table: &str, from: &str, to: &str, symbol: &str) -> (r: String)
    ensures
        r@ == tick_summary_sql(table@, from@, to@, symbol@),
{
    let mut s = String::new();
    s.append(r#"SELECT symbol, count() AS ticks, min(ts) AS first, max(ts) AS last FROM "#);
    s.append(table);
    s.append(r#" FINAL WHERE ts >= '"#);
    s.append(from);
    s.append(r#"' AND ts < '"#);
    s.append(to);
    s.append(r#"' AND symbol = '"#);
    s.append(symbol);
    s.append(r#"' GROUP BY symbol ORDER BY symbol FORMAT PrettyCompactMonoBlock"#);
    proof {
        assert(s@ =~= tick_summary_sql(table@, from@, to@, symbol@));
    }
    s
}

/// The text of `candle_summary`.
pub open spec fn candle_summary_sql(table: Seq<char>, from: Seq<char>, to: Seq<char>, symbol: Seq<char>) -> Seq<char> {
    r#"SELECT tf, count() AS candles FROM "#@
        + table
        + r#" WHERE ts >= '"#@
        + from
        + r#"' AND ts < '"#@
        + to
        + r#"' AND symbol = '"#@
        + symbol
        + r#"' GROUP BY tf ORDER BY tf FORMAT PrettyCompactMonoBlock"#@
}

/// Counts the candles of `symbol` per timeframe from `from` up to `to`.
pub fn candle_summary(table: &str, from: &str, to: &str, symbol: &str) -> (r: String)
    ensures
        r@ == candle_summary_sql(table@, from@, to@, symbol@),
{
    let mut s = String::new();
    s.append(r#"SELECT tf, count() AS candles FROM "#);
    s.append(table);
    s.append(r#" WHERE ts >= '"#);
    s.append(from);
    s.append(r#"' AND ts < '"#);
    s.append(to);
    s.append(r#"' AND symbol = '"#);
    s.append(symbol);
    s.append(r#"' GROUP BY tf ORDER BY tf FORMAT PrettyCompactMonoBlock"#);
    proof {
        assert(s@ =~= candle_summary_sql(table@, from@, to@, symbol@));
    }
    s
}

/// The text of `truncate_table`.
pub open spec fn truncate_table_sql(name: Seq<char>) -> Seq<char> {
    r#"TRUNCATE TABLE "#@
        + name
}

/// Removes every row of a table.
pub fn truncate_table(name: &str) -> (r: String)
    ensures
        r@ == truncate_table_sql(name@),
{
    let mut s = String::new();
    s.append(r#"TRUNCATE TABLE "#);
    s.append(name);
    proof {
        assert(s@ =~= truncate_table_sql(name@));
    }
    s
}

/// The text of `delete_where`.
pub open spec fn delete_where_sql(table: Seq<char>, where_clause: Seq<char>) -> Seq<char> {
    r#"DELETE FROM "#@
        + table
        + r#" "#@
        + where_clause
}

/// Deletes the rows that a `WHERE` clause selects.
pub fn delete_where(table: &str, where_clause: &str) -> (r: String)
    ensures
        r@ == delete_where_sql(table@, where_clause@),
{
    let mut s = String::new();
    s.append(r#"DELETE FROM "#);
    s.append(table);
    s.append(r#" "#);
    s.append(where_clause);
    proof {
        assert(s@ =~= delete_where_sql(table@, where_clause@));
    }
    s
}

/// The text of `rebuild_insert`.
pub open spec fn rebuild_insert_sql(table_ohlc: Seq<char>, table_quotes: Seq<char>, where_clause: Seq<char>) -> Seq<char> {
    r#"INSERT INTO "#@
        + table_ohlc
        + r#"
SELECT tf, symbol,
    fromUnixTimestamp64Milli(intDiv(toUnixTimestamp64Milli(ts), interval_ms) * interval_ms) AS bucket,
    argMinState(bid, ts) AS open, maxState(bid) AS high,
    minState(bid) AS low, argMaxState(bid, ts) AS close, countState() AS volume
FROM "#@
        + table_quotes
        + r#" FINAL
ARRAY JOIN
    [1000, 60000, 300000, 900000, 1800000, 3600000,
     14400000, 86400000, 604800000, 31536000000] AS interval_ms,
    ['1s', '1m', '5m', '15m', '30m', '1h',
     '4h', '1d', '1w', '1y'] AS tf
"#@
        + where_clause
        + r#"
GROUP BY tf, symbol, bucket"#@
}

/// Recomputes candles of every timeframe from the ticks that a `WHERE` clause selects.
pub fn rebuild_insert(table_ohlc: &str, table_quotes: &str, where_clause: &str) -> (r: String)
    ensures
        r@ == rebuild_insert_sql(table_ohlc@, table_quotes@, where_clause@),
{
    let mut s = String::new();
    s.append(r#"INSERT INTO "#);
    s.append(table_ohlc);
    s.append(r#"
SELECT tf, symbol,
    fromUnixTimestamp64Milli(intDiv(toUnixTimestamp64Milli(ts), interval_ms) * interval_ms) AS bucket,
    argMinState(bid, ts) AS open, maxState(bid) AS high,
    minState(bid) AS low, argMaxState(bid, ts) AS close, countState() AS volume
FROM "#);
    s.append(table_quotes);
    s.append(r#" FINAL
ARRAY JOIN
    [1000, 60000, 300000, 900000, 1800000, 3600000,
     14400000, 86400000, 604800000, 31536000000] AS interval_ms,
    ['1s', '1m', '5m', '15m', '30m', '1h',
     '4h', '1d', '1w', '1y'] AS tf
"#);
    s.append(where_clause);
    s.append(r#"
GROUP BY tf, symbol, bucket"#);
    proof {
        assert(s@ =~= rebuild_insert_sql(table_ohlc@, table_quotes@, where_clause@));
    }
    s
}

/// The text of `candle_counts`.
pub open spec fn candle_counts_sql(table_ohlc: Seq<char>, where_clause: Seq<char>) -> Seq<char> {
    r#"SELECT tf, count() AS candles FROM "#@
        + table_ohlc
        + r#" "#@
        + where_clause
        + r#" GROUP BY tf ORDER BY tf FORMAT PrettyCompactMonoBlock"#@
}

/// Counts candles per timeframe among those a `WHERE` clause selects.
pub fn candle_counts(table_ohlc: &str, where_clause: &str) -> (r: String)
    ensures
        r@ == candle_counts_sql(table_ohlc@, where_clause@),
{
    let mut s = String::new();
    s.append(r#"SELECT tf, count() AS candles FROM "#);
    s.append(table_ohlc);
    s.append(r#" "#);
    s.append(where_clause);
    s.append(r#" GROUP BY tf ORDER BY tf FORMAT PrettyCompactMonoBlock"#);
    proof {
        assert(s@ =~= candle_counts_sql(table_ohlc@, where_clause@));
    }
    s
}

/// The text of `pipeline_tables`.
pub open spec fn pipeline_tables_sql(table_kafka: Seq<char>, mv_kafka: Seq<char>, mv_ohlc: Seq<char>, table_quotes: Seq<char>, table_ohlc: Seq<char>) -> Seq<char> {
    r#"SELECT name, engine, total_rows, total_bytes
FROM system.tables
WHERE database = currentDatabase()
  AND name IN ('"#@
        + table_kafka
        + r#"', '"#@
        + mv_kafka
        + r#"',
               '"#@
        + mv_ohlc
        + r#"', '"#@
        + table_quotes
        + r#"', '"#@
        + table_ohlc
        + r#"')
ORDER BY name
FORMAT PrettyCompactMonoBlock"#@
}

/// Lists the pipeline's tables and views with their engines and sizes.
pub fn pipeline_tables(table_kafka: &str, mv_kafka: &str, mv_ohlc: &str, table_quotes: &str, table_ohlc: &str) -> (r: String)
    ensures
        r@ == pipeline_tables_sql(table_kafka@, mv_kafka@, mv_ohlc@, table_quotes@, table_ohlc@),
{
    let mut s = String::new();
    s.append(r#"SELECT name, engine, total_rows, total_bytes
FROM system.tables
WHERE database = currentDatabase()
  AND name IN ('"#);
    s.append(table_kafka);
    s.append(r#"', '"#);
    s.append(mv_kafka);
    s.append(r#"',
               '"#);
    s.append(mv_ohlc);
    s.append(r#"', '"#);
    s.append(table_quotes);
    s.append(r#"', '"#);
    s.append(table_ohlc);
    s.append(r#"')
ORDER BY name
FORMAT PrettyCompactMonoBlock"#);
    proof {
        assert(s@ =~= pipeline_tables_sql(table_kafka@, mv_kafka@, mv_ohlc@, table_quotes@, table_ohlc@));
    }
    s
}

/// The text of `tick_totals`.
pub open spec fn tick_totals_sql(table_quotes: Seq<char>) -> Seq<char> {
    r#"SELECT symbol, count() AS ticks, min(ts) AS first, max(ts) AS last
FROM "#@
        + table_quotes
        + r#" FINAL
GROUP BY symbol ORDER BY symbol
FORMAT PrettyCompactMonoBlock"#@
}

/// Counts ticks per symbol, with the first and last instant.
pub fn tick_totals(table_quotes: &str) -> (r: String)
    ensures
        r@ == tick_totals_sql(table_quotes@),
{
    let mut s = String::new();
    s.append(r#"SELECT symbol, count() AS ticks, min(ts) AS first, max(ts) AS last
FROM "#);
    s.append(table_quotes);
    s.append(r#" FINAL
GROUP BY symbol ORDER BY symbol
FORMAT PrettyCompactMonoBlock"#);
    proof {
        assert(s@ =~= tick_totals_sql(table_quotes@));
    }
    s
}

/// The text of `candle_totals`.
pub open spec fn candle_totals_sql(table_ohlc: Seq<char>) -> Seq<char> {
    r#"SELECT tf, count() AS candles
FROM "#@
        + table_ohlc
        + r#"
GROUP BY tf ORDER BY tf
FORMAT PrettyCompactMonoBlock"#@
}

/// Counts candles per timeframe.
pub fn candle_totals(table_ohlc: &str) -> (r: String)
    ensures
        r@ == candle_totals_sql(table_ohlc@),
{
    let mut s = String::new();
    s.append(r#"SELECT tf, count() AS candles
FROM "#);
    s.append(table_ohlc);
    s.append(r#"
GROUP BY tf ORDER BY tf
FORMAT PrettyCompactMonoBlock"#);
    proof {
        assert(s@ =~= candle_totals_sql(table_ohlc@));
    }
    s
}

/// Shows the state of every consumer of the topic.
pub fn consumer_state() -> (r: String)
    ensures
        r@ == r#"SELECT
    table,
    assignments.topic,
    assignments.partition_id,
    assignments.current_offset,
    last_poll_time,
    num_messages_read,
    last_commit_time,
    num_commits,
    is_currently_used,
    exceptions.time,
    exceptions.text
FROM system.kafka_consumers
WHERE database = currentDatabase()
FORMAT Vertical"#@,
{
    String::from_str(r#"SELECT
    table,
    assignments.topic,
    assignments.partition_id,
    assignments.current_offset,
    last_poll_time,
    num_messages_read,
    last_commit_time,
    num_commits,
    is_currently_used,
    exceptions.time,
    exceptions.text
FROM system.kafka_consumers
WHERE database = currentDatabase()
FORMAT Vertical"#)
}

} // verus!
