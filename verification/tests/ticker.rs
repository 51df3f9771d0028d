use orderbook_collector::ticker::Ticker;

#[test]
fn test_ticker_new_valid() {
    let symbol = "BTC_USDT";
    let ticker = Ticker::new(symbol).unwrap();

    assert_eq!(ticker.base, "BTC");
    assert_eq!(ticker.quote, "USDT");
}

#[test]
fn test_ticker_new_invalid() {
    let symbol = "InvalidSymbol";
    assert!(Ticker::new(symbol).is_none());
}

#[test]
fn test_ticker_to_string() {
    let ticker = Ticker {
        base: "BTC".to_string(),
        quote: "USDT".to_string(),
    };

    assert_eq!(ticker.to_string(), "BTC_USDT");
}

#[test]
fn new_splits_at_the_first_separator() {
    let ticker = Ticker::new("A_B_C").unwrap();
    assert_eq!(ticker.base, "A");
    assert_eq!(ticker.quote, "B_C");
}

#[test]
fn new_keeps_the_case_of_the_symbol() {
    let ticker = Ticker::new("btc_Usdt").unwrap();
    assert_eq!(ticker.base, "btc");
    assert_eq!(ticker.quote, "Usdt");
}

#[test]
fn new_turns_down_an_empty_side() {
    assert!(Ticker::new("_USDT").is_none());
    assert!(Ticker::new("BTC_").is_none());
    assert!(Ticker::new("_").is_none());
    assert!(Ticker::new("").is_none());
}

#[test]
fn new_counts_characters_not_bytes() {
    let ticker = Ticker::new("\u{20bf}\u{00e9}_\u{20ac}").unwrap();
    assert_eq!(ticker.base, "\u{20bf}\u{00e9}");
    assert_eq!(ticker.quote, "\u{20ac}");
}

#[test]
fn symbol_round_trip() {
    for symbol in ["BTC_USDT", "ETH_THB", "A_B_C", "x_y"] {
        let ticker = Ticker::new(symbol).unwrap();
        assert_eq!(ticker.to_string(), symbol);
        let again = Ticker::new(&ticker.to_string()).unwrap();
        assert_eq!(again.base, ticker.base);
        assert_eq!(again.quote, ticker.quote);
    }
}
