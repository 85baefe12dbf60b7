//! Connection and naming settings, and the queue administration handle.

use vstd::prelude::*;

verus! {

/// Settings for the analytical database, the message queue, the topic and
/// the pipeline's tables and views.
pub struct Config {
    pub ch_host: String,
    pub ch_port: u16,
    pub ch_user: String,
    pub ch_password: String,
    pub ch_database: String,
    pub ch_tls: bool,
    pub kafka_broker: String,
    pub kafka_user: String,
    pub kafka_password: String,
    pub kafka_tls: bool,
    pub topic: String,
    pub consumer_group: String,
    pub ch_kafka_broker: String,
    pub ch_kafka_security_protocol: String,
    pub table_quotes: String,
    pub table_ohlc: String,
    pub table_kafka: String,
    pub mv_kafka: String,
    pub mv_ohlc: String,
}

/// The range and symbol of a history reload, as given (`YYYY-MM-DD HH:MM:SS`).
pub struct HistoryReloadArgs {
    pub from: String,
    pub to: String,
    pub symbol: String,
}

/// The optional range and symbol of a candle rebuild.
pub struct RebuildOhlcArgs {
    pub from: Option<String>,
    pub to: Option<String>,
    pub symbol: Option<String>,
}

/// How to reach the message queue: broker, credentials, and whether to use
/// TLS.
pub struct KafkaAdmin {
    pub broker: String,
    pub user: String,
    pub password: String,
    pub use_tls: bool,
}

impl KafkaAdmin {
    /// The queue settings of `cfg`.
    pub fn new(cfg: &Config) -> (r: KafkaAdmin)
        ensures
            r.broker@ == cfg.kafka_broker@,
            r.user@ == cfg.kafka_user@,
            r.password@ == cfg.kafka_password@,
            r.use_tls == cfg.kafka_tls,
    {
        KafkaAdmin {
            broker: cfg.kafka_broker.clone(),
            user: cfg.kafka_user.clone(),
            password: cfg.kafka_password.clone(),
            use_tls: cfg.kafka_tls,
        }
    }
}

/// Whether messages go to the queue at all: only when a queue password is
/// configured.
pub fn delivery_enabled(cfg: &Config) -> (r: bool)
    ensures
        r == (cfg.kafka_password@.len() > 0),
{
    !cfg.kafka_password.as_str().is_empty()
}

} // verus!
