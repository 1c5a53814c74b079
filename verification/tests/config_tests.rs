use stock_monitor::config::{
    Config, MAX_RECONNECT_ATTEMPTS, PING_INTERVAL_SECS, RECONNECT_DELAY_SECS, WS_URL,
};

#[test]
fn websocket_url_appends_the_token() {
    let config = Config::new(String::from("abc123"), vec![String::from("AAPL")]);
    assert_eq!(config.websocket_url(), "wss://ws.finnhub.io?token=abc123");
}

#[test]
fn constants_match_the_policy() {
    assert_eq!(WS_URL, "wss://ws.finnhub.io");
    assert_eq!(RECONNECT_DELAY_SECS, 5);
    assert_eq!(PING_INTERVAL_SECS, 30);
    assert_eq!(MAX_RECONNECT_ATTEMPTS, 10);
}

#[test]
fn config_keeps_its_fields() {
    let config = Config::new(
        String::from("t"),
        vec![String::from("AAPL"), String::from("MSFT")],
    );
    assert_eq!(config.api_token, "t");
    assert_eq!(config.symbols, vec!["AAPL", "MSFT"]);
}
