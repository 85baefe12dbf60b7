//! Statements that create the storage pipeline: tick and candle tables, the
//! table that reads the topic, and the two views that connect them.

use vstd::prelude::*;
use vstd::string::*;
use crate::config::Config;

verus! {

/// `prefix`, followed by `IF NOT EXISTS ` when asked.
pub open spec fn create_phrase(prefix: Seq<char>, if_not_exists: bool) -> Seq<char> {
    if if_not_exists {
        prefix + "IF NOT EXISTS "@
    } else {
        prefix
    }
}

fn push_create(s: &mut String, prefix: &str, if_not_exists: bool)
    ensures
        final(s)@ == old(s)@ + create_phrase(prefix@, if_not_exists),
{
    s.append(prefix);
    if if_not_exists {
        s.append("IF NOT EXISTS ");
    }
    proof {
        assert(s@ =~= old(s)@ + create_phrase(prefix@, if_not_exists));
    }
}

/// The tick storage table.
pub open spec fn quotes_table_sql(cfg: Config) -> Seq<char> {
    r#"CREATE TABLE IF NOT EXISTS "#@
        + cfg.table_quotes@
        + r#" (
    ts     DateTime64(3),
    symbol String,
    bid    Float64,
    ask    Float64
) ENGINE = ReplacingMergeTree()
ORDER BY (symbol, ts)"#@
}

fn quotes_table(cfg: &Config) -> (r: String)
    ensures
        r@ == quotes_table_sql(*cfg),
{
    let mut s = String::from_str(r#"CREATE TABLE IF NOT EXISTS "#);
    s.append(cfg.table_quotes.as_str());
    s.append(r#" (
    ts     DateTime64(3),
    symbol String,
    bid    Float64,
    ask    Float64
) ENGINE = ReplacingMergeTree()
ORDER BY (symbol, ts)"#);
    proof {
        assert(s@ =~= quotes_table_sql(*cfg));
    }
    s
}

/// The candle storage table, one aggregate row per timeframe, symbol and bucket.
pub open spec fn ohlc_table_sql(cfg: Config) -> Seq<char> {
    r#"CREATE TABLE IF NOT EXISTS "#@
        + cfg.table_ohlc@
        + r#" (
    tf     LowCardinality(String),
    symbol LowCardinality(String),
    ts     DateTime64(3, 'UTC'),
    open   AggregateFunction(argMin, Float64, DateTime64(3, 'UTC')),
    high   AggregateFunction(max, Float64),
    low    AggregateFunction(min, Float64),
    close  AggregateFunction(argMax, Float64, DateTime64(3, 'UTC')),
    volume AggregateFunction(count)
) ENGINE = AggregatingMergeTree()
ORDER BY (tf, symbol, ts)"#@
}

fn ohlc_table(cfg: &Config) -> (r: String)
    ensures
        r@ == ohlc_table_sql(*cfg),
{
    let mut s = String::from_str(r#"CREATE TABLE IF NOT EXISTS "#);
    s.append(cfg.table_ohlc.as_str());
    s.append(r#" (
    tf     LowCardinality(String),
    symbol LowCardinality(String),
    ts     DateTime64(3, 'UTC'),
    open   AggregateFunction(argMin, Float64, DateTime64(3, 'UTC')),
    high   AggregateFunction(max, Float64),
    low    AggregateFunction(min, Float64),
    close  AggregateFunction(argMax, Float64, DateTime64(3, 'UTC')),
    volume AggregateFunction(count)
) ENGINE = AggregatingMergeTree()
ORDER BY (tf, symbol, ts)"#);
    proof {
        assert(s@ =~= ohlc_table_sql(*cfg));
    }
    s
}

/// The table that reads the topic.
pub open spec fn queue_table_sql(cfg: Config, if_not_exists: bool) -> Seq<char> {
    create_phrase("CREATE TABLE "@, if_not_exists)
        + cfg.table_kafka@
        + r#" (
    symbol String,
    bid    Float64,
    ask    Float64,
    ts_ms  Nullable(UInt64)
) ENGINE = Kafka()
SETTINGS
    kafka_broker_list = '"#@
        + cfg.ch_kafka_broker@
        + r#"',
    kafka_topic_list = '"#@
        + cfg.topic@
        + r#"',
    kafka_group_name = '"#@
        + cfg.consumer_group@
        + r#"',
    kafka_format = 'JSONEachRow',
    kafka_skip_broken_messages = 10,
    kafka_security_protocol = '"#@
        + cfg.ch_kafka_security_protocol@
        + r#"',
    kafka_sasl_mechanism = 'PLAIN',
    kafka_sasl_username = '"#@
        + cfg.kafka_user@
        + r#"',
    kafka_sasl_password = '"#@
        + cfg.kafka_password@
        + r#"'"#@
}

fn queue_table(cfg: &Config, if_not_exists: bool) -> (r: String)
    ensures
        r@ == queue_table_sql(*cfg, if_not_exists),
{
    let mut s = String::new();
    push_create(&mut s, "CREATE TABLE ", if_not_exists);
    s.append(cfg.table_kafka.as_str());
    s.append(r#" (
    symbol String,
    bid    Float64,
    ask    Float64,
    ts_ms  Nullable(UInt64)
) ENGINE = Kafka()
SETTINGS
    kafka_broker_list = '"#);
    s.append(cfg.ch_kafka_broker.as_str());
    s.append(r#"',
    kafka_topic_list = '"#);
    s.append(cfg.topic.as_str());
    s.append(r#"',
    kafka_group_name = '"#);
    s.append(cfg.consumer_group.as_str());
    s.append(r#"',
    kafka_format = 'JSONEachRow',
    kafka_skip_broken_messages = 10,
    kafka_security_protocol = '"#);
    s.append(cfg.ch_kafka_security_protocol.as_str());
    s.append(r#"',
    kafka_sasl_mechanism = 'PLAIN',
    kafka_sasl_username = '"#);
    s.append(cfg.kafka_user.as_str());
    s.append(r#"',
    kafka_sasl_password = '"#);
    s.append(cfg.kafka_password.as_str());
    s.append(r#"'"#);
    proof {
        assert(s@ =~= queue_table_sql(*cfg, if_not_exists));
    }
    s
}

/// The view that moves queued ticks into tick storage.
pub open spec fn queue_view_sql(cfg: Config, if_not_exists: bool) -> Seq<char> {
    create_phrase("CREATE MATERIALIZED VIEW "@, if_not_exists)
        + cfg.mv_kafka@
        + r#" TO "#@
        + cfg.table_quotes@
        + r#" AS
SELECT
    coalesce(
        fromUnixTimestamp64Milli(ts_ms),
        _timestamp_ms,
        now64(3)
    ) AS ts,
    symbol, bid, ask
FROM "#@
        + cfg.table_kafka@
}

fn queue_view(cfg: &Config, if_not_exists: bool) -> (r: String)
    ensures
        r@ == queue_view_sql(*cfg, if_not_exists),
{
    let mut s = String::new();
    push_create(&mut s, "CREATE MATERIALIZED VIEW ", if_not_exists);
    s.append(cfg.mv_kafka.as_str());
    s.append(r#" TO "#);
    s.append(cfg.table_quotes.as_str());
    s.append(r#" AS
SELECT
    coalesce(
        fromUnixTimestamp64Milli(ts_ms),
        _timestamp_ms,
        now64(3)
    ) AS ts,
    symbol, bid, ask
FROM "#);
    s.append(cfg.table_kafka.as_str());
    proof {
        assert(s@ =~= queue_view_sql(*cfg, if_not_exists));
    }
    s
}

/// The view that folds ticks into candles for every timeframe.
pub open spec fn candle_view_sql(cfg: Config, if_not_exists: bool) -> Seq<char> {
    create_phrase("CREATE MATERIALIZED VIEW "@, if_not_exists)
        + cfg.mv_ohlc@
        + r#" TO "#@
        + cfg.table_ohlc@
        + r#" AS
SELECT tf, symbol, bucket AS ts, open, high, low, close, volume
FROM (
    SELECT
        tf, symbol,
        fromUnixTimestamp64Milli(
            intDiv(toUnixTimestamp64Milli(ts), interval_ms) * interval_ms
        ) AS bucket,
        argMinState(bid, ts) AS open,
        maxState(bid) AS high,
        minState(bid) AS low,
        argMaxState(bid, ts) AS close,
        countState() AS volume
    FROM "#@
        + cfg.table_quotes@
        + r#"
    ARRAY JOIN
        [1000, 60000, 300000, 900000, 1800000, 3600000,
         14400000, 86400000, 604800000, 31536000000] AS interval_ms,
        ['1s', '1m', '5m', '15m', '30m', '1h',
         '4h', '1d', '1w', '1y'] AS tf
    GROUP BY tf, symbol, bucket
)"#@
}

fn candle_view(cfg: &Config, if_not_exists: bool) -> (r: String)
    ensures
        r@ == candle_view_sql(*cfg, if_not_exists),
{
    let mut s = String::new();
    push_create(&mut s, "CREATE MATERIALIZED VIEW ", if_not_exists);
    s.append(cfg.mv_ohlc.as_str());
    s.append(r#" TO "#);
    s.append(cfg.table_ohlc.as_str());
    s.append(r#" AS
SELECT tf, symbol, bucket AS ts, open, high, low, close, volume
FROM (
    SELECT
        tf, symbol,
        fromUnixTimestamp64Milli(
            intDiv(toUnixTimestamp64Milli(ts), interval_ms) * interval_ms
        ) AS bucket,
        argMinState(bid, ts) AS open,
        maxState(bid) AS high,
        minState(bid) AS low,
        argMaxState(bid, ts) AS close,
        countState() AS volume
    FROM "#);
    s.append(cfg.table_quotes.as_str());
    s.append(r#"
    ARRAY JOIN
        [1000, 60000, 300000, 900000, 1800000, 3600000,
         14400000, 86400000, 604800000, 31536000000] AS interval_ms,
        ['1s', '1m', '5m', '15m', '30m', '1h',
         '4h', '1d', '1w', '1y'] AS tf
    GROUP BY tf, symbol, bucket
)"#);
    proof {
        assert(s@ =~= candle_view_sql(*cfg, if_not_exists));
    }
    s
}

/// The five statements, in the order they must run: storage first, then the
/// queue table, then the views.
pub open spec fn create_statements_sql(cfg: Config, if_not_exists: bool) -> Seq<Seq<char>> {
    seq![
        quotes_table_sql(cfg),
        ohlc_table_sql(cfg),
        queue_table_sql(cfg, if_not_exists),
        queue_view_sql(cfg, if_not_exists),
        candle_view_sql(cfg, if_not_exists),
    ]
}

/// The statements that create the pipeline. The storage tables are always
/// created only if missing; with `if_not_exists` the queue table and the
/// views are too, otherwise they are created outright.
pub fn build_create_statements(cfg: &Config, if_not_exists: bool) -> (r: Vec<String>)
    ensures
        r.deep_view() == create_statements_sql(*cfg, if_not_exists),
{
    let mut r: Vec<String> = Vec::new();
    r.push(quotes_table(cfg));
    r.push(ohlc_table(cfg));
    r.push(queue_table(cfg, if_not_exists));
    r.push(queue_view(cfg, if_not_exists));
    r.push(candle_view(cfg, if_not_exists));
    proof {
        assert(r.deep_view() =~= create_statements_sql(*cfg, if_not_exists));
    }
    r
}

/// Short names of the five statements, in the same order.
pub fn statement_names() -> (r: Vec<&'static str>)
    ensures
        r@.map_values(|n: &'static str| n@) == seq![
            "quotes"@,
            "ohlc"@,
            "kafka_quotes"@,
            "mv_kafka_to_quotes"@,
            "mv_quotes_to_ohlc"@,
        ],
{
    let r = vec!["quotes", "ohlc", "kafka_quotes", "mv_kafka_to_quotes", "mv_quotes_to_ohlc"];
    assert(r@.map_values(|n: &'static str| n@) =~= seq![
        "quotes"@,
        "ohlc"@,
        "kafka_quotes"@,
        "mv_kafka_to_quotes"@,
        "mv_quotes_to_ohlc"@,
    ]);
    r
}

} // verus!
