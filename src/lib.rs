//! Resampling of per-minute price observations into hourly bars of the
//! regular New York trading session.
//!
//! `exchange_clock` reads instants on the exchange's clock and does the
//! session and bucket arithmetic; `market` groups session minutes by
//! trading day, keeps the most recent days and folds each hourly bucket;
//! `laws` states and proves what the engine guarantees. Around the engine:
//! `chart_columns` assembles minutes from a chart answer, `mirror_retry`
//! decides how to walk a list of mirrors, `collectors` holds the data and
//! decisions of the news, insider and snapshot collectors, and `text` the
//! string operations they rely on.

pub mod exchange_clock;
pub mod market;
pub mod laws;
pub mod text;
pub mod collectors;
pub mod chart_columns;
pub mod mirror_retry;
