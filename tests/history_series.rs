use quotes_ctl::config::{delivery_enabled, Config, KafkaAdmin};
use quotes_ctl::history::{history_lines, plan_history};

#[test]
fn series_has_one_line_per_minute() {
    let (from, to) = plan_history("2026-02-15 00:00:00", "2026-02-15 01:00:30").unwrap();
    let lines = history_lines("EURUSD", from, to);
    assert_eq!(lines.len(), 60);
    assert_eq!(lines[0].ts_ms, from * 1000);
    assert_eq!(lines[59].ts_ms, (from + 59 * 60) * 1000);
    assert_eq!(
        lines[0].line,
        format!(r#"{{"symbol":"EURUSD","bid":1.11547,"ask":1.11567,"ts_ms":{}}}"#, from * 1000)
    );
    assert_eq!(
        lines[1].line,
        format!(r#"{{"symbol":"EURUSD","bid":1.11614,"ask":1.11634,"ts_ms":{}}}"#, (from + 60) * 1000)
    );
}

#[test]
fn history_range_is_checked() {
    assert_eq!(
        plan_history("2026-02-16 00:00:00", "2026-02-15 00:00:00").err(),
        Some("--to must be after --from".to_string())
    );
    assert!(plan_history("2026-02-15", "2026-02-16 00:00:00").is_err());
}

fn config(password: &str) -> Config {
    Config {
        ch_host: "127.0.0.1".to_string(),
        ch_port: 8123,
        ch_user: "u".to_string(),
        ch_password: "p".to_string(),
        ch_database: "default".to_string(),
        ch_tls: false,
        kafka_broker: "127.0.0.1:9092".to_string(),
        kafka_user: "ku".to_string(),
        kafka_password: password.to_string(),
        kafka_tls: true,
        topic: "quotes".to_string(),
        consumer_group: "cg".to_string(),
        ch_kafka_broker: "kafka:9092".to_string(),
        ch_kafka_security_protocol: "SASL_PLAINTEXT".to_string(),
        table_quotes: "quotes".to_string(),
        table_ohlc: "ohlc".to_string(),
        table_kafka: "kafka_quotes".to_string(),
        mv_kafka: "mv_kafka_quotes_to_quotes".to_string(),
        mv_ohlc: "mv_quotes_to_ohlc".to_string(),
    }
}

#[test]
fn admin_takes_queue_settings() {
    let cfg = config("secret");
    let admin = KafkaAdmin::new(&cfg);
    assert_eq!(admin.broker, "127.0.0.1:9092");
    assert_eq!(admin.user, "ku");
    assert_eq!(admin.password, "secret");
    assert!(admin.use_tls);
}

#[test]
fn delivery_needs_a_password() {
    assert!(delivery_enabled(&config("x")));
    assert!(!delivery_enabled(&config("")));
}
