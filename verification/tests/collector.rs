use orderbook_collector::config::{update_tasks_based_on_config, Config};
use orderbook_collector::exchange::{exchange_named, Exchange};
use orderbook_collector::orderbook_collector::{OrderBookCollector, StartOutcome};
use orderbook_collector::ticker::Ticker;
use orderbook_collector::worker::Worker;

fn symbols(list: &[&str]) -> Vec<String> {
    list.iter().map(|symbol| symbol.to_string()).collect()
}

fn written(tickers: &[Ticker]) -> Vec<String> {
    tickers.iter().map(|ticker| ticker.to_string()).collect()
}

/// The configuration that a document with the members `cex` and `tickers`
/// stands for.
fn config_from(document: &str) -> Config {
    let value: serde_json::Value = serde_json::from_str(document).unwrap();
    Config {
        cex: value.get("cex").unwrap().as_str().unwrap().to_string(),
        tickers: value
            .get("tickers")
            .unwrap()
            .as_array()
            .unwrap()
            .iter()
            .map(|symbol| symbol.as_str().unwrap().to_string())
            .collect(),
    }
}

#[test]
fn a_new_collector_runs_nothing() {
    let collector = OrderBookCollector::new();
    assert!(collector.running().is_empty());
    assert!(!collector.is_running("BTC_USDT"));
}

#[test]
fn start_asks_for_a_worker_once() {
    let mut collector = OrderBookCollector::new();
    match collector.start("BTC_USDT") {
        StartOutcome::Spawn(ticker) => {
            assert_eq!(ticker.base, "BTC");
            assert_eq!(ticker.quote, "USDT");
        }
        other => panic!("no worker asked for: {:?}", other),
    }
    assert!(collector.is_running("BTC_USDT"));
    assert_eq!(collector.running(), &symbols(&["BTC_USDT"]));
    assert!(matches!(
        collector.start("BTC_USDT"),
        StartOutcome::AlreadyRunning
    ));
    assert_eq!(collector.running(), &symbols(&["BTC_USDT"]));
}

#[test]
fn start_turns_down_what_is_no_symbol() {
    let mut collector = OrderBookCollector::new();
    collector.start("BTC_USDT");
    for symbol in ["InvalidSymbol", "", "_", "_USDT", "BTC_"] {
        assert!(matches!(
            collector.start(symbol),
            StartOutcome::InvalidSymbol
        ));
        assert!(!collector.is_running(symbol));
    }
    assert_eq!(collector.running(), &symbols(&["BTC_USDT"]));
}

#[test]
fn stop_takes_the_symbol_off_the_list() {
    let mut collector = OrderBookCollector::new();
    collector.start("BTC_USDT");
    collector.start("ETH_USDT");
    collector.start("XRP_USDT");
    assert!(collector.stop("ETH_USDT"));
    assert!(!collector.is_running("ETH_USDT"));
    assert_eq!(collector.running(), &symbols(&["BTC_USDT", "XRP_USDT"]));
    assert!(!collector.stop("ETH_USDT"));
    assert!(!collector.stop("DOGE_USDT"));
    assert!(!collector.stop("no symbol"));
    assert_eq!(collector.running(), &symbols(&["BTC_USDT", "XRP_USDT"]));
    assert!(matches!(collector.start("ETH_USDT"), StartOutcome::Spawn(_)));
    assert_eq!(
        collector.running(),
        &symbols(&["BTC_USDT", "XRP_USDT", "ETH_USDT"])
    );
}

#[test]
fn start_multiple_starts_what_is_missing() {
    let mut collector = OrderBookCollector::new();
    let plan = collector.start_multiple(&symbols(&["BTC_USDT", "ETH_USDT"]));
    assert!(plan.to_stop.is_empty());
    assert_eq!(written(&plan.to_start), symbols(&["BTC_USDT", "ETH_USDT"]));
    assert!(plan.invalid.is_empty());
    assert_eq!(collector.running(), &symbols(&["BTC_USDT", "ETH_USDT"]));
}

#[test]
fn start_multiple_twice_changes_nothing() {
    let mut collector = OrderBookCollector::new();
    let desired = symbols(&["BTC_USDT", "broken", "ETH_USDT", "BTC_USDT"]);
    let first = collector.start_multiple(&desired);
    assert_eq!(written(&first.to_start), symbols(&["BTC_USDT", "ETH_USDT"]));
    assert_eq!(first.invalid, symbols(&["broken"]));
    let running = collector.running().clone();
    let second = collector.start_multiple(&desired);
    assert!(second.to_stop.is_empty());
    assert!(second.to_start.is_empty());
    assert_eq!(second.invalid, symbols(&["broken"]));
    assert_eq!(collector.running(), &running);
    assert_eq!(running, symbols(&["BTC_USDT", "ETH_USDT"]));
}

#[test]
fn start_multiple_stops_exactly_what_is_no_longer_desired() {
    let mut collector = OrderBookCollector::new();
    collector.start_multiple(&symbols(&["A_X", "B_X"]));
    let plan = collector.start_multiple(&symbols(&["A_X"]));
    assert_eq!(plan.to_stop, symbols(&["B_X"]));
    assert!(plan.to_start.is_empty());
    assert!(plan.invalid.is_empty());
    assert_eq!(collector.running(), &symbols(&["A_X"]));
    assert!(collector.is_running("A_X"));
    assert!(!collector.is_running("B_X"));
}

#[test]
fn start_multiple_stops_and_starts_in_one_go() {
    let mut collector = OrderBookCollector::new();
    collector.start_multiple(&symbols(&["A_X", "B_X", "C_X", "D_X"]));
    let plan = collector.start_multiple(&symbols(&["E_X", "D_X", "bad", "B_X", "F_X", "E_X"]));
    assert_eq!(plan.to_stop, symbols(&["A_X", "C_X"]));
    assert_eq!(written(&plan.to_start), symbols(&["E_X", "F_X"]));
    assert_eq!(plan.invalid, symbols(&["bad"]));
    assert_eq!(
        collector.running(),
        &symbols(&["B_X", "D_X", "E_X", "F_X"])
    );
}

#[test]
fn start_multiple_with_nothing_desired_stops_all() {
    let mut collector = OrderBookCollector::new();
    collector.start_multiple(&symbols(&["A_X", "B_X"]));
    let plan = collector.start_multiple(&[]);
    assert_eq!(plan.to_stop, symbols(&["A_X", "B_X"]));
    assert!(plan.to_start.is_empty());
    assert!(collector.running().is_empty());
}

#[test]
fn stop_all_hands_out_every_symbol() {
    let mut collector = OrderBookCollector::new();
    collector.start_multiple(&symbols(&["A_X", "B_X", "C_X"]));
    assert_eq!(collector.stop_all(), symbols(&["A_X", "B_X", "C_X"]));
    assert!(collector.running().is_empty());
    assert!(collector.stop_all().is_empty());
    assert!(matches!(collector.start("A_X"), StartOutcome::Spawn(_)));
}

#[test]
fn exchanges_are_known_by_name() {
    assert_eq!(exchange_named("BINANCE"), Some(Exchange::Binance));
    assert_eq!(exchange_named("BITKUB"), Some(Exchange::Bitkub));
    assert_eq!(exchange_named("binance"), None);
    assert_eq!(exchange_named("BINANCE "), None);
    assert_eq!(exchange_named("KRAKEN"), None);
    assert_eq!(exchange_named(""), None);
}

#[test]
fn the_configuration_is_kept_in_one_place() {
    assert_eq!(Config::path(), "config.json");
}

#[test]
fn an_unknown_exchange_leaves_the_collector_alone() {
    let mut collector = OrderBookCollector::new();
    collector.start_multiple(&symbols(&["BTC_USDT", "ETH_USDT"]));
    let config = Config {
        cex: "KRAKEN".to_string(),
        tickers: symbols(&["XRP_USDT"]),
    };
    assert!(update_tasks_based_on_config(&mut collector, &config).is_none());
    assert_eq!(collector.running(), &symbols(&["BTC_USDT", "ETH_USDT"]));
}

#[test]
fn a_changed_exchange_keeps_the_workers_of_the_old_one() {
    let mut collector = OrderBookCollector::new();
    let first = config_from("{\"cex\":\"BINANCE\",\"tickers\":[\"BTC_USDT\"]}");
    update_tasks_based_on_config(&mut collector, &first).unwrap();
    let second = config_from("{\"cex\":\"BITKUB\",\"tickers\":[\"BTC_USDT\",\"BTC_THB\"]}");
    let (exchange, plan) = update_tasks_based_on_config(&mut collector, &second).unwrap();
    assert_eq!(exchange, Exchange::Bitkub);
    assert!(plan.to_stop.is_empty());
    assert_eq!(written(&plan.to_start), symbols(&["BTC_THB"]));
    assert_eq!(collector.running(), &symbols(&["BTC_USDT", "BTC_THB"]));
}

#[test]
fn two_pairs_then_one() {
    let mut collector = OrderBookCollector::new();
    let config = config_from("{\"cex\":\"BINANCE\",\"tickers\":[\"BTC_USDT\",\"ETH_USDT\"]}");
    let (exchange, plan) = update_tasks_based_on_config(&mut collector, &config).unwrap();
    assert_eq!(exchange, Exchange::Binance);
    assert!(plan.to_stop.is_empty());
    assert!(plan.invalid.is_empty());
    assert_eq!(plan.to_start.len(), 2);
    let directories: Vec<String> = plan
        .to_start
        .iter()
        .map(|ticker| {
            let worker = Worker::for_exchange(ticker, "BINANCE", 1).unwrap();
            worker.files().directory().to_string()
        })
        .collect();
    assert_eq!(
        directories,
        vec![
            "data/BINANCE/BTC_USDT".to_string(),
            "data/BINANCE/ETH_USDT".to_string()
        ]
    );
    assert_eq!(collector.running(), &symbols(&["BTC_USDT", "ETH_USDT"]));

    let update = config_from("{\"cex\":\"BINANCE\",\"tickers\":[\"BTC_USDT\"]}");
    let (exchange, plan) = update_tasks_based_on_config(&mut collector, &update).unwrap();
    assert_eq!(exchange, Exchange::Binance);
    assert_eq!(plan.to_stop, symbols(&["ETH_USDT"]));
    assert!(plan.to_start.is_empty());
    assert!(plan.invalid.is_empty());
    assert_eq!(collector.running(), &symbols(&["BTC_USDT"]));
    assert!(collector.is_running("BTC_USDT"));
    assert!(!collector.is_running("ETH_USDT"));
}
