//! Order-book collection: the rules that decide which trading pairs are
//! polled, when each poll happens, and where each snapshot is stored.

pub mod binance_api;
pub mod bitkub_api;
pub mod cex_api;
mod clock;
pub mod config;
pub mod exchange;
pub mod orderbook_collector;
pub mod reconcile;
pub mod schedule;
pub mod storage;
pub mod text;
pub mod ticker;
pub mod worker;
