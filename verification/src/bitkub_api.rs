//! The Bitkub exchange.

use crate::cex_api::{CexApi, FetchError};
use crate::text::{append_digits, contains_text, digits, occurs_in};
use crate::ticker::{Pair, Ticker};
use vstd::prelude::*;

verus! {

/// Bitkub: polled every two seconds, pairs written quote first.
pub struct BitkubApi;

impl CexApi for BitkubApi {
    open spec fn exchange_name(&self) -> Seq<char> {
        "BITKUB"@
    }

    open spec fn poll_interval(&self) -> u64 {
        2
    }

    open spec fn request_url(&self, pair: Pair, depth: u32) -> Seq<char> {
        "https://api.bitkub.com/api/market/depth?sym="@ + pair.quote + "_"@ + pair.base + "&lmt="@
            + digits(depth as nat)
    }

    open spec fn refusal(&self, body: Seq<char>) -> Option<FetchError> {
        if occurs_in("\"result\":null"@, body) {
            Some(FetchError::NullResult)
        } else {
            None
        }
    }

    fn name(&self) -> (name: &'static str) {
        "BITKUB"
    }

    fn order_book_url(&self, symbol: &Ticker, depth: u32) -> (url: String) {
        let mut url = String::from_str("https://api.bitkub.com/api/market/depth?sym=");
        url.append(symbol.quote.as_str());
        url.append("_");
        url.append(symbol.base.as_str());
        url.append("&lmt=");
        append_digits(&mut url, depth as u64);
        url
    }

    fn check_order_book(&self, body: String) -> (result: Result<String, FetchError>) {
        if contains_text(body.as_str(), "\"result\":null") {
            Err(FetchError::NullResult)
        } else {
            Ok(body)
        }
    }

    fn get_order_book_interval(&self) -> (seconds: u64) {
        2
    }
}

} // verus!
