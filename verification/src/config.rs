//! The collector's configuration: an exchange and the trading pairs to
//! collect from it.

use crate::exchange::{exchange_for, exchange_named, Exchange};
use crate::orderbook_collector::{texts, OrderBookCollector, Reconciliation};
use crate::reconcile::reconciled;
use vstd::prelude::*;

verus! {

/// What to collect.
#[derive(Debug)]
pub struct Config {
    /// The name of the exchange.
    pub cex: String,
    /// The symbols of the trading pairs.
    pub tickers: Vec<String>,
}

impl Config {
    /// Where the configuration is kept.
    pub fn path() -> (path: &'static str)
        ensures
            path@ == "config.json"@,
    {
        "config.json"
    }
}

/// Brings `collector` to `config`. For a known exchange the result names it,
/// with the workers to stop and to start. For any other exchange there is no
/// result and the collector stays as it is.
pub fn update_tasks_based_on_config(collector: &mut OrderBookCollector, config: &Config) -> (update:
    Option<(Exchange, Reconciliation)>)
    ensures
        match update {
            Some((exchange, plan)) => {
                &&& exchange_for(config.cex@) == Some(exchange)
                &&& final(collector)@ == reconciled(old(collector)@, texts(config.tickers@))
                &&& old(collector).wf() ==> final(collector).wf()
                &&& plan.brings(old(collector)@, texts(config.tickers@))
            },
            None => exchange_for(config.cex@) is None && final(collector)@ == old(collector)@,
        },
{
    match exchange_named(config.cex.as_str()) {
        Some(exchange) => {
            let plan = collector.start_multiple(config.tickers.as_slice());
            Some((exchange, plan))
        },
        None => None,
    }
}

} // verus!
