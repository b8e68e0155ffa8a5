//! A time-series store for brokerage accounts: balance and position readings
//! kept per account and per day in ascending order of the time they were
//! taken, with point-in-time and closest-to queries, and the decisions of the
//! engine that keeps the store in step with the broker.

pub mod account;
pub mod clock;
pub mod config;
pub mod http_server;
pub mod monitor;
pub mod myerrors;
pub mod storage;
