//! The exchanges that order books can be collected from, by name.

use crate::binance_api::BinanceApi;
use crate::bitkub_api::BitkubApi;
use crate::cex_api::{CexApi, FetchError};
use crate::ticker::{Pair, Ticker};
use vstd::prelude::*;

verus! {

/// The exchanges that order books can be collected from.
#[derive(Clone, Copy, Debug, PartialEq, Eq, Structural)]
pub enum Exchange {
    Binance,
    Bitkub,
}

/// The exchange that goes by `name`, if a known one does.
pub open spec fn exchange_for(name: Seq<char>) -> Option<Exchange> {
    if name == "BINANCE"@ {
        Some(Exchange::Binance)
    } else if name == "BITKUB"@ {
        Some(Exchange::Bitkub)
    } else {
        None
    }
}

/// The exchange named `name`, if it is a known one.
pub fn exchange_named(name: &str) -> (exchange: Option<Exchange>)
    ensures
        exchange == exchange_for(name@),
{
    let name = name.to_owned();
    if name == String::from_str("BINANCE") {
        Some(Exchange::Binance)
    } else if name == String::from_str("BITKUB") {
        Some(Exchange::Bitkub)
    } else {
        None
    }
}

/// An exchange does what its own client does.
impl CexApi for Exchange {
    open spec fn exchange_name(&self) -> Seq<char> {
        match *self {
            Exchange::Binance => BinanceApi.exchange_name(),
            Exchange::Bitkub => BitkubApi.exchange_name(),
        }
    }

    open spec fn poll_interval(&self) -> u64 {
        match *self {
            Exchange::Binance => BinanceApi.poll_interval(),
            Exchange::Bitkub => BitkubApi.poll_interval(),
        }
    }

    open spec fn request_url(&self, pair: Pair, depth: u32) -> Seq<char> {
        match *self {
            Exchange::Binance => BinanceApi.request_url(pair, depth),
            Exchange::Bitkub => BitkubApi.request_url(pair, depth),
        }
    }

    open spec fn refusal(&self, body: Seq<char>) -> Option<FetchError> {
        match *self {
            Exchange::Binance => BinanceApi.refusal(body),
            Exchange::Bitkub => BitkubApi.refusal(body),
        }
    }

    fn name(&self) -> (name: &'static str) {
        match self {
            Exchange::Binance => BinanceApi.name(),
            Exchange::Bitkub => BitkubApi.name(),
        }
    }

    fn order_book_url(&self, symbol: &Ticker, depth: u32) -> (url: String) {
        match self {
            Exchange::Binance => BinanceApi.order_book_url(symbol, depth),
            Exchange::Bitkub => BitkubApi.order_book_url(symbol, depth),
        }
    }

    fn check_order_book(&self, body: String) -> (result: Result<String, FetchError>) {
        match self {
            Exchange::Binance => BinanceApi.check_order_book(body),
            Exchange::Bitkub => BitkubApi.check_order_book(body),
        }
    }

    fn get_order_book_interval(&self) -> (seconds: u64) {
        match self {
            Exchange::Binance => BinanceApi.get_order_book_interval(),
            Exchange::Bitkub => BitkubApi.get_order_book_interval(),
        }
    }
}

/// The name that an exchange gives itself is the name it is found by.
pub proof fn lemma_found_by_its_name(exchange: Exchange)
    ensures
        exchange_for(exchange.exchange_name()) == Some(exchange),
{
    reveal_strlit("BINANCE");
    reveal_strlit("BITKUB");
    assert("BINANCE"@.len() != "BITKUB"@.len());
}

} // verus!
