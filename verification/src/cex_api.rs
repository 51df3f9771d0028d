//! What the collector asks of an exchange.

use crate::ticker::{Pair, Ticker};
use vstd::prelude::*;

verus! {

/// Why an answer of an exchange is no order book.
#[derive(Clone, Copy, Debug, PartialEq, Eq, Structural)]
pub enum FetchError {
    /// The exchange reported an error code, as it does for a symbol it does
    /// not trade.
    InvalidSymbol,
    /// The exchange answered with an empty result.
    NullResult,
}

impl FetchError {
    /// What to report for the error.
    pub fn message(&self) -> (text: &'static str)
        ensures
            text@ == match *self {
                FetchError::InvalidSymbol => "Invalid symbol in response from Binance"@,
                FetchError::NullResult => "Received null result in response"@,
            },
    {
        match self {
            FetchError::InvalidSymbol => "Invalid symbol in response from Binance",
            FetchError::NullResult => "Received null result in response",
        }
    }
}

/// An exchange that order books are collected from. Fetching an order book
/// is a request to `order_book_url`, whose answer goes through
/// `check_order_book`.
pub trait CexApi {
    /// The name of the exchange, which is also a directory name.
    spec fn exchange_name(&self) -> Seq<char>;

    /// Seconds between two polls of one trading pair.
    spec fn poll_interval(&self) -> u64;

    /// The address that serves the order book of `pair`, `depth` levels deep.
    spec fn request_url(&self, pair: Pair, depth: u32) -> Seq<char>;

    /// The error that an answer stands for, if it stands for one.
    spec fn refusal(&self, body: Seq<char>) -> Option<FetchError>;

    /// The name of the exchange.
    fn name(&self) -> (name: &'static str)
        ensures
            name@ == self.exchange_name(),
    ;

    /// The address to request for the order book of `symbol`.
    fn order_book_url(&self, symbol: &Ticker, depth: u32) -> (url: String)
        ensures
            url@ == self.request_url(symbol@, depth),
    ;

    /// Tells an order book from an error reported in place of one.
    fn check_order_book(&self, body: String) -> (result: Result<String, FetchError>)
        ensures
            match result {
                Ok(payload) => self.refusal(body@) is None && payload@ == body@,
                Err(error) => self.refusal(body@) == Some(error),
            },
    ;

    /// Seconds between two polls of one trading pair.
    fn get_order_book_interval(&self) -> (seconds: u64)
        ensures
            seconds == self.poll_interval(),
    ;
}

} // verus!
