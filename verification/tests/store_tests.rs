use stock_monitor::store::PriceStore;
use stock_monitor::types::StockPrice;

fn bytes(s: &str) -> Vec<u8> {
    s.as_bytes().to_vec()
}

fn sample(symbol: &str, price: &str, volume: &str, ts: i64) -> StockPrice {
    StockPrice {
        symbol: bytes(symbol),
        price: bytes(price),
        volume: bytes(volume),
        timestamp_ms: ts,
    }
}

#[test]
fn new_store_is_empty() {
    let store = PriceStore::new();
    assert!(store.is_empty());
    assert_eq!(store.snapshot().len(), 0);
    assert!(store.get(&bytes("AAPL")).is_none());
}

#[test]
fn put_then_get() {
    let mut store = PriceStore::new();
    store.put(sample("AAPL", "150.25", "100", 1));
    assert!(!store.is_empty());
    let p = store.get(&bytes("AAPL")).expect("entry");
    assert_eq!(p.price, bytes("150.25"));
    assert!(store.get(&bytes("MSFT")).is_none());
}

#[test]
fn last_write_wins_per_symbol() {
    let mut store = PriceStore::new();
    store.put_all(vec![
        sample("AAPL", "1", "10", 1),
        sample("MSFT", "2", "20", 2),
        sample("AAPL", "3", "30", 3),
        sample("AAPL", "4", "40", 4),
        sample("TSLA", "5", "50", 5),
    ]);
    let snap = store.snapshot();
    assert_eq!(snap.len(), 3);
    assert_eq!(store.get(&bytes("AAPL")).expect("entry").price, bytes("4"));
    assert_eq!(store.get(&bytes("MSFT")).expect("entry").price, bytes("2"));
    assert_eq!(store.get(&bytes("TSLA")).expect("entry").price, bytes("5"));
}

#[test]
fn snapshot_is_a_copy() {
    let mut store = PriceStore::new();
    store.put(sample("AAPL", "1", "10", 1));
    let snap = store.snapshot();
    store.put(sample("AAPL", "2", "20", 2));
    assert_eq!(snap[0].price, bytes("1"));
    assert_eq!(store.get(&bytes("AAPL")).expect("entry").price, bytes("2"));
}
