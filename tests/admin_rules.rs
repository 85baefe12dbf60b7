use quotes_ctl::admin::{
    already_exists, attach_needs_nothing, does_not_exist, rebuild_scope, rebuild_where,
    topic_exists, topic_missing,
};
use quotes_ctl::config::{Config, RebuildOhlcArgs};
use quotes_ctl::pipeline::{build_create_statements, statement_names};

fn config() -> Config {
    Config {
        ch_host: "h".to_string(),
        ch_port: 1,
        ch_user: "u".to_string(),
        ch_password: "p".to_string(),
        ch_database: "db".to_string(),
        ch_tls: false,
        kafka_broker: "b:9092".to_string(),
        kafka_user: "ku".to_string(),
        kafka_password: "kp".to_string(),
        kafka_tls: false,
        topic: "quotes".to_string(),
        consumer_group: "cg".to_string(),
        ch_kafka_broker: "kafka:9092".to_string(),
        ch_kafka_security_protocol: "SASL_PLAINTEXT".to_string(),
        table_quotes: "q".to_string(),
        table_ohlc: "o".to_string(),
        table_kafka: "k".to_string(),
        mv_kafka: "mvk".to_string(),
        mv_ohlc: "mvo".to_string(),
    }
}

#[test]
fn create_statements_fill_in_names() {
    let s = build_create_statements(&config(), false);
    assert_eq!(s.len(), 5);
    assert_eq!(
        s[0],
        "CREATE TABLE IF NOT EXISTS q (\n    ts     DateTime64(3),\n    symbol String,\n    bid    Float64,\n    ask    Float64\n) ENGINE = ReplacingMergeTree()\nORDER BY (symbol, ts)"
    );
    assert!(s[1].starts_with("CREATE TABLE IF NOT EXISTS o (\n"));
    assert!(s[2].starts_with("CREATE TABLE k (\n"));
    assert!(s[2].contains("kafka_broker_list = 'kafka:9092',"));
    assert!(s[2].contains("kafka_topic_list = 'quotes',"));
    assert!(s[2].contains("kafka_group_name = 'cg',"));
    assert!(s[2].ends_with("kafka_sasl_username = 'ku',\n    kafka_sasl_password = 'kp'"));
    assert!(s[3].starts_with("CREATE MATERIALIZED VIEW mvk TO q AS\n"));
    assert!(s[3].ends_with("FROM k"));
    assert!(s[4].starts_with("CREATE MATERIALIZED VIEW mvo TO o AS\n"));
    assert!(s[4].contains("    FROM q\n"));
}

#[test]
fn idempotent_statements_guard_every_object() {
    let s = build_create_statements(&config(), true);
    assert!(s[2].starts_with("CREATE TABLE IF NOT EXISTS k (\n"));
    assert!(s[3].starts_with("CREATE MATERIALIZED VIEW IF NOT EXISTS mvk TO q AS\n"));
    assert!(s[4].starts_with("CREATE MATERIALIZED VIEW IF NOT EXISTS mvo TO o AS\n"));
    assert_eq!(
        statement_names(),
        vec!["quotes", "ohlc", "kafka_quotes", "mv_kafka_to_quotes", "mv_quotes_to_ohlc"]
    );
}

#[test]
fn benign_failures_are_recognised() {
    assert!(already_exists("Code: 57. Table default.k already exists. (TABLE_ALREADY_EXISTS)"));
    assert!(!already_exists("Code: 60. Table default.k doesn't exist"));
    assert!(does_not_exist("Table default.k doesn't exist"));
    assert!(does_not_exist("table does not exist"));
    assert!(!does_not_exist("syntax error"));
    assert!(attach_needs_nothing("already exists"));
    assert!(attach_needs_nothing("x doesn't exist y"));
    assert!(!attach_needs_nothing("ACCESS_DENIED"));
    assert!(topic_missing("server error: UnknownTopicOrPartition"));
    assert!(topic_missing("topic does not exist"));
    assert!(!topic_missing("timeout"));
    assert!(topic_exists("TopicExistsException: quotes"));
    assert!(topic_exists("topic already exists"));
    assert!(!topic_exists(""));
}

fn args(from: Option<&str>, to: Option<&str>, symbol: Option<&str>) -> RebuildOhlcArgs {
    RebuildOhlcArgs {
        from: from.map(|s| s.to_string()),
        to: to.map(|s| s.to_string()),
        symbol: symbol.map(|s| s.to_string()),
    }
}

#[test]
fn rebuild_filters_join_with_and() {
    assert_eq!(rebuild_where(&args(None, None, None)), "");
    assert_eq!(rebuild_where(&args(Some("2026-02-15"), None, None)), "WHERE ts >= '2026-02-15'");
    assert_eq!(
        rebuild_where(&args(Some("a"), Some("b"), Some("EURUSD"))),
        "WHERE ts >= 'a' AND ts < 'b' AND symbol = 'EURUSD'"
    );
    assert_eq!(rebuild_where(&args(None, Some("b"), Some("X"))), "WHERE ts < 'b' AND symbol = 'X'");
}

#[test]
fn rebuild_scope_describes_filters() {
    assert_eq!(rebuild_scope(&args(None, None, None)), "FULL REBUILD (all symbols, all time)");
    assert_eq!(rebuild_scope(&args(None, None, Some("EURUSD"))), "EURUSD (full)");
    assert_eq!(rebuild_scope(&args(Some("a"), None, None)), "all symbols from a to *");
    assert_eq!(rebuild_scope(&args(None, Some("b"), Some("X"))), "X from * to b");
}
