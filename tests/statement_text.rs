use quotes_ctl::statements::{
    attach_table, backup_name, candle_counts, candle_summary, consumer_state, create_table_as,
    delete_range, delete_where, detach_table, drop_table, drop_view, exchange_tables,
    exists_table, pipeline_tables, rebuild_insert, tick_summary, tick_totals, candle_totals,
    truncate_table,
};

#[test]
fn table_lifecycle_statements() {
    assert_eq!(attach_table("kafka_quotes"), "ATTACH TABLE kafka_quotes");
    assert_eq!(detach_table("kafka_quotes"), "DETACH TABLE kafka_quotes");
    assert_eq!(drop_view("mv"), "DROP VIEW IF EXISTS mv");
    assert_eq!(drop_table("t"), "DROP TABLE IF EXISTS t");
    assert_eq!(exists_table("quotes"), "EXISTS TABLE quotes");
    assert_eq!(backup_name("quotes", "20260216_143052"), "quotes_bak_20260216_143052");
    assert_eq!(create_table_as("b", "a"), "CREATE TABLE b AS a");
    assert_eq!(exchange_tables("a", "b"), "EXCHANGE TABLES a AND b");
    assert_eq!(truncate_table("ohlc"), "TRUNCATE TABLE ohlc");
}

#[test]
fn range_statements() {
    assert_eq!(
        delete_range("quotes", "2026-02-15 00:00:00", "2026-02-16 00:00:00", "EURUSD"),
        "DELETE FROM quotes WHERE ts >= '2026-02-15 00:00:00' AND ts < '2026-02-16 00:00:00' AND symbol = 'EURUSD'"
    );
    assert_eq!(
        tick_summary("q", "a", "b", "S"),
        "SELECT symbol, count() AS ticks, min(ts) AS first, max(ts) AS last FROM q FINAL WHERE ts >= 'a' AND ts < 'b' AND symbol = 'S' GROUP BY symbol ORDER BY symbol FORMAT PrettyCompactMonoBlock"
    );
    assert_eq!(
        candle_summary("o", "a", "b", "S"),
        "SELECT tf, count() AS candles FROM o WHERE ts >= 'a' AND ts < 'b' AND symbol = 'S' GROUP BY tf ORDER BY tf FORMAT PrettyCompactMonoBlock"
    );
    assert_eq!(delete_where("o", "WHERE x"), "DELETE FROM o WHERE x");
    assert_eq!(
        candle_counts("o", ""),
        "SELECT tf, count() AS candles FROM o  GROUP BY tf ORDER BY tf FORMAT PrettyCompactMonoBlock"
    );
}

#[test]
fn rebuild_and_status_statements() {
    let ins = rebuild_insert("o", "q", "WHERE symbol = 'S'");
    assert!(ins.starts_with("INSERT INTO o\nSELECT tf, symbol,\n"));
    assert!(ins.contains("FROM q FINAL\n"));
    assert!(ins.ends_with("WHERE symbol = 'S'\nGROUP BY tf, symbol, bucket"));
    let t = pipeline_tables("k", "mk", "mo", "q", "o");
    assert!(t.contains("name IN ('k', 'mk',\n               'mo', 'q', 'o')"));
    assert!(consumer_state().starts_with("SELECT\n    table,\n"));
    assert!(consumer_state().ends_with("FORMAT Vertical"));
    assert!(tick_totals("q").contains("FROM q FINAL\n"));
    assert!(candle_totals("o").contains("FROM o\n"));
}
