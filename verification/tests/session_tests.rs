use stock_monitor::config::Config;
use stock_monitor::session::{Action, ActiveEvent, Session, SessionState};
use stock_monitor::store::PriceStore;

fn bytes(s: &str) -> Vec<u8> {
    s.as_bytes().to_vec()
}

fn config() -> Config {
    Config::new(
        String::from("token"),
        vec![String::from("AAPL"), String::from("MSFT")],
    )
}

fn active_session() -> Session {
    let mut s = Session::new(config());
    assert!(matches!(s.state, SessionState::Connecting));
    s.on_connected();
    assert!(matches!(s.state, SessionState::Subscribing));
    s.on_subscribed();
    assert!(matches!(s.state, SessionState::Active));
    s
}

#[test]
fn subscribe_frames_follow_symbol_order() {
    let mut s = Session::new(config());
    s.on_connected();
    let frames = s.subscribe_frames();
    assert_eq!(frames.len(), 2);
    assert_eq!(frames[0], bytes("{\"type\":\"subscribe\",\"symbol\":\"AAPL\"}"));
    assert_eq!(frames[1], bytes("{\"type\":\"subscribe\",\"symbol\":\"MSFT\"}"));
}

#[test]
fn connect_failure_fails_session() {
    let mut s = Session::new(config());
    s.on_connect_failed();
    assert!(matches!(s.state, SessionState::Failed));
}

#[test]
fn subscribe_send_failure_fails_session() {
    let mut s = Session::new(config());
    s.on_connected();
    s.on_send_failed();
    assert!(matches!(s.state, SessionState::Failed));
}

#[test]
fn trade_frame_updates_store() {
    let mut s = active_session();
    let mut running = true;
    let mut store = PriceStore::new();
    let frame = bytes(
        "{\"type\":\"trade\",\"data\":[{\"s\":\"AAPL\",\"p\":150.25,\"t\":1700000000000,\"v\":100}]}",
    );
    let actions = s.on_event(&mut running, &mut store, ActiveEvent::Text(frame), 42);
    assert_eq!(actions.len(), 1);
    assert!(matches!(&actions[0], Action::Emit(p) if p.symbol == bytes("AAPL")));
    assert!(matches!(s.state, SessionState::Active));
    assert!(running);
    let p = store.get(&bytes("AAPL")).expect("entry");
    assert_eq!(p.price, bytes("150.25"));
    assert_eq!(p.volume, bytes("100"));
    assert_eq!(p.timestamp_ms, 1700000000000);
}

#[test]
fn undecodable_frame_changes_nothing() {
    let mut s = active_session();
    let mut running = true;
    let mut store = PriceStore::new();
    let actions = s.on_event(
        &mut running,
        &mut store,
        ActiveEvent::Text(bytes("garbage")),
        42,
    );
    assert!(actions.is_empty());
    assert!(matches!(s.state, SessionState::Active));
    assert!(store.is_empty());
}

#[test]
fn peer_ping_is_answered_in_kind() {
    let mut s = active_session();
    let mut running = true;
    let mut store = PriceStore::new();
    let actions = s.on_event(
        &mut running,
        &mut store,
        ActiveEvent::Ping(vec![1, 2, 3]),
        42,
    );
    assert_eq!(actions.len(), 1);
    assert!(matches!(&actions[0], Action::SendPong(d) if *d == vec![1, 2, 3]));
    assert!(matches!(s.state, SessionState::Active));
}

#[test]
fn tick_asks_for_one_keepalive() {
    let mut s = active_session();
    let mut running = true;
    let mut store = PriceStore::new();
    let actions = s.on_event(&mut running, &mut store, ActiveEvent::Tick, 42);
    assert_eq!(actions.len(), 1);
    assert!(matches!(actions[0], Action::SendPing));
}

#[test]
fn peer_close_closes_cleanly() {
    let mut s = active_session();
    let mut running = true;
    let mut store = PriceStore::new();
    let actions = s.on_event(&mut running, &mut store, ActiveEvent::PeerClose, 42);
    assert!(actions.is_empty());
    assert!(matches!(s.state, SessionState::Closing));
    s.finish_close();
    assert!(matches!(s.state, SessionState::Closed));
    assert!(running);
}

#[test]
fn read_error_fails_session() {
    let mut s = active_session();
    let mut running = true;
    let mut store = PriceStore::new();
    s.on_event(&mut running, &mut store, ActiveEvent::ReadError, 42);
    assert!(matches!(s.state, SessionState::Failed));
}

#[test]
fn shutdown_clears_flag_and_closes_within_one_iteration() {
    let mut s = active_session();
    let mut running = true;
    let mut store = PriceStore::new();
    let actions = s.on_event(&mut running, &mut store, ActiveEvent::Shutdown, 42);
    assert!(actions.is_empty());
    assert!(!running);
    assert!(matches!(s.state, SessionState::Closing));
    s.finish_close();
    assert!(matches!(s.state, SessionState::Closed));
}

#[test]
fn cleared_flag_stops_the_loop_with_no_sends() {
    let mut s = active_session();
    let mut running = false;
    let mut store = PriceStore::new();
    let actions = s.on_event(&mut running, &mut store, ActiveEvent::Tick, 42);
    assert!(actions.is_empty());
    assert!(matches!(s.state, SessionState::Closing));
    assert!(store.is_empty());
}
