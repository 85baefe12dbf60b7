//! The library of a market-data pipeline tool: a deterministic random-walk
//! quote generator, calendar arithmetic, replay sources, the decisions of the
//! delivery loops, and the statements that the administration commands send.

pub mod admin;
pub mod calendar;
pub mod catalog;
pub mod config;
pub mod datetime;
pub mod delivery;
pub mod generate;
pub mod history;
pub mod instrument;
pub mod pipeline;
pub mod replay;
pub mod rng;
pub mod statements;
pub mod text;
