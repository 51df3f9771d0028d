//! The Binance exchange.

use crate::cex_api::{CexApi, FetchError};
use crate::text::{append_digits, contains_text, digits, occurs_in};
use crate::ticker::{Pair, Ticker};
use vstd::prelude::*;

verus! {

/// Binance: polled every second, pairs written without a separator.
pub struct BinanceApi;

impl CexApi for BinanceApi {
    open spec fn exchange_name(&self) -> Seq<char> {
        "BINANCE"@
    }

    open spec fn poll_interval(&self) -> u64 {
        1
    }

    open spec fn request_url(&self, pair: Pair, depth: u32) -> Seq<char> {
        "https://api.binance.com/api/v3/depth?symbol="@ + pair.base + pair.quote + "&limit="@
            + digits(depth as nat)
    }

    open spec fn refusal(&self, body: Seq<char>) -> Option<FetchError> {
        if occurs_in("\"code\":-"@, body) {
            Some(FetchError::InvalidSymbol)
        } else {
            None
        }
    }

    fn name(&self) -> (name: &'static str) {
        "BINANCE"
    }

    fn order_book_url(&self, symbol: &Ticker, depth: u32) -> (url: String) {
        let mut url = String::from_str("https://api.binance.com/api/v3/depth?symbol=");
        url.append(symbol.base.as_str());
        url.append(symbol.quote.as_str());
        url.append("&limit=");
        append_digits(&mut url, depth as u64);
        url
    }

    fn check_order_book(&self, body: String) -> (result: Result<String, FetchError>) {
        if contains_text(body.as_str(), "\"code\":-") {
            Err(FetchError::InvalidSymbol)
        } else {
            Ok(body)
        }
    }

    fn get_order_book_interval(&self) -> (seconds: u64) {
        1
    }
}

} // verus!
