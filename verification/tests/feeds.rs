use polymarket_rust_rl::config::{
    default_episode_secs, default_max_active_markets, validate_live_key, ExchangeWsConfig,
    ExecutionMode, PolymarketConfig,
};
use polymarket_rust_rl::exchange_ws::ExchangeWsClient;
use polymarket_rust_rl::polymarket_rest::{classify_status, side_label, OrderSide, ResponseStatus};
use polymarket_rust_rl::polymarket_ws::PolymarketWsClient;
use polymarket_rust_rl::reconnect::{ReconnectPolicy, ReconnectStep};
use polymarket_rust_rl::signal::Exchange;

fn ws_config(symbols: &[&str]) -> ExchangeWsConfig {
    ExchangeWsConfig {
        ws_url: "wss://stream.example.invalid/ws".to_string(),
        symbols: symbols.iter().map(|s| s.to_string()).collect(),
    }
}

#[test]
fn binance_subscribe_message() {
    let client = ExchangeWsClient::new(Exchange::BinanceSpot, &ws_config(&["BTCUSDT", "ethusdt"]));
    assert_eq!(
        client.subscribe_msg(),
        "{\"id\":1,\"method\":\"SUBSCRIBE\",\"params\":[\"btcusdt@trade\",\"ethusdt@trade\"]}"
    );
    let futures = ExchangeWsClient::new(Exchange::BinanceFutures, &ws_config(&["SOLUSDT"]));
    assert_eq!(
        futures.subscribe_msg(),
        "{\"id\":1,\"method\":\"SUBSCRIBE\",\"params\":[\"solusdt@trade\"]}"
    );
}

#[test]
fn binance_subscribe_message_matches_serde_object() {
    let client = ExchangeWsClient::new(Exchange::BinanceSpot, &ws_config(&["BTCUSDT"]));
    let mut map = serde_json::Map::new();
    map.insert("method".to_string(), serde_json::Value::from("SUBSCRIBE"));
    map.insert(
        "params".to_string(),
        serde_json::Value::from(vec!["btcusdt@trade".to_string()]),
    );
    map.insert("id".to_string(), serde_json::Value::from(1));
    assert_eq!(client.subscribe_msg(), serde_json::Value::Object(map).to_string());
}

#[test]
fn bybit_subscribe_message() {
    let client = ExchangeWsClient::new(Exchange::Bybit, &ws_config(&["BTCUSDT", "ETHUSDT"]));
    assert_eq!(
        client.subscribe_msg(),
        "{\"args\":[\"publicTrade.BTCUSDT\",\"publicTrade.ETHUSDT\"],\"op\":\"subscribe\"}"
    );
}

#[test]
fn client_keeps_endpoint() {
    let client = ExchangeWsClient::new(Exchange::Bybit, &ws_config(&[]));
    assert_eq!(client.ws_url_str(), "wss://stream.example.invalid/ws");
    assert_eq!(client.subscribe_msg(), "{\"args\":[],\"op\":\"subscribe\"}");
}

fn polymarket_config(private_key: &str) -> PolymarketConfig {
    PolymarketConfig {
        ws_url: "wss://ws.example.invalid".to_string(),
        rest_url: "https://clob.example.invalid".to_string(),
        gamma_url: "https://gamma.example.invalid".to_string(),
        private_key: private_key.to_string(),
        api_key: "key".to_string(),
        api_secret: "secret".to_string(),
        passphrase: "pass".to_string(),
    }
}

#[test]
fn polymarket_book_subscription() {
    let client = PolymarketWsClient::new(&polymarket_config(""));
    assert_eq!(client.ws_url_str(), "wss://ws.example.invalid");
    let ids = vec!["123".to_string(), "456".to_string()];
    assert_eq!(
        PolymarketWsClient::subscribe_message(&ids),
        "{\"assets_ids\":[\"123\",\"456\"],\"channel\":\"book\",\"type\":\"subscribe\"}"
    );
}

#[test]
fn reconnect_backoff_sequence() {
    let mut policy = ReconnectPolicy::new();
    let expected = [1u64, 2, 4, 8, 16, 32, 60, 60, 60, 60, 60, 60, 60, 60, 60, 60, 60, 60, 60, 60];
    for pause in expected {
        assert_eq!(policy.on_attempt_end(false), ReconnectStep::RetryAfter(pause));
    }
    assert_eq!(policy.on_attempt_end(false), ReconnectStep::GiveUp);
}

#[test]
fn reconnect_finishes_on_normal_end() {
    let mut policy = ReconnectPolicy::new();
    assert_eq!(policy.on_attempt_end(false), ReconnectStep::RetryAfter(1));
    assert_eq!(policy.on_attempt_end(true), ReconnectStep::Finish);
    assert_eq!(policy.on_attempt_end(false), ReconnectStep::RetryAfter(2));
}

#[test]
fn status_classification() {
    assert_eq!(classify_status(200), ResponseStatus::Success);
    assert_eq!(classify_status(299), ResponseStatus::Success);
    assert_eq!(classify_status(429), ResponseStatus::RateLimited);
    assert_eq!(classify_status(300), ResponseStatus::Rejected);
    assert_eq!(classify_status(404), ResponseStatus::Rejected);
    assert_eq!(classify_status(500), ResponseStatus::Rejected);
    assert_eq!(classify_status(199), ResponseStatus::Rejected);
}

#[test]
fn order_side_labels() {
    assert_eq!(side_label(OrderSide::Buy), "BUY");
    assert_eq!(side_label(OrderSide::Sell), "SELL");
}

#[test]
fn live_mode_needs_private_key() {
    assert_eq!(
        validate_live_key(ExecutionMode::Live, &String::new()),
        Err("Live mode requires a non-empty private_key".to_string())
    );
    assert_eq!(validate_live_key(ExecutionMode::Live, &"0xkey".to_string()), Ok(()));
    assert_eq!(validate_live_key(ExecutionMode::DryRun, &String::new()), Ok(()));
}

#[test]
fn config_defaults() {
    assert_eq!(default_episode_secs(), 300);
    assert_eq!(default_max_active_markets(), 5);
}
