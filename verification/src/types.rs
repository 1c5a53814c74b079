//! Wire-facing data of the feed: subscribe requests, decoded trade
//! records, and the price samples kept in the store.
//!
//! Record fields hold the raw bytes of the wire text.  Prices and
//! volumes are carried as the decimal text of the upstream number, which
//! the rendering shell may interpret; the monitor's own logic never
//! computes with them.

use crate::json;
use crate::time;
use vstd::prelude::*;
use vstd::string::StringSliceAdditionalSpecFns;

verus! {

/// One outbound request, serialized by `to_json` as a two-member JSON
/// object.
pub struct SubscribeMessage {
    pub msg_type: String,
    pub symbol: String,
}

/// Wire form of a request: `{"type":<t>,"symbol":<sym>}` with both
/// values written as escaped JSON string literals of the texts' UTF-8
/// bytes.
pub open spec fn subscribe_json_spec(t: Seq<char>, sym: Seq<char>) -> Seq<u8> {
    "{\"type\":\"".spec_bytes() + json::spec_json_escape(vstd::utf8::encode_utf8(t))
        + "\",\"symbol\":\"".spec_bytes() + json::spec_json_escape(vstd::utf8::encode_utf8(sym))
        + "\"}".spec_bytes()
}

impl SubscribeMessage {
    /// Serializes the request as its wire JSON object.
    pub fn to_json(&self) -> (r: Vec<u8>)
        ensures
            r@ == subscribe_json_spec(self.msg_type@, self.symbol@),
    {
        let mut out: Vec<u8> = Vec::new();
        let head: &str = "{\"type\":\"";
        let mid: &str = "\",\"symbol\":\"";
        let tail: &str = "\"}";
        json::append_slice(&mut out, head.as_bytes());
        json::append_escaped(&mut out, self.msg_type.as_str().as_bytes());
        json::append_slice(&mut out, mid.as_bytes());
        json::append_escaped(&mut out, self.symbol.as_str().as_bytes());
        json::append_slice(&mut out, tail.as_bytes());
        out
    }
}

/// One trade record of an inbound envelope, fields as wire bytes: `s`
/// (symbol), `p` (price number), `t` (epoch-millisecond number), `v`
/// (volume number).
pub struct Trade {
    pub symbol: Vec<u8>,
    pub price: Vec<u8>,
    pub timestamp: Vec<u8>,
    pub volume: Vec<u8>,
}

pub ghost struct TradeModel {
    pub symbol: Seq<u8>,
    pub price: Seq<u8>,
    pub timestamp: Seq<u8>,
    pub volume: Seq<u8>,
}

impl View for Trade {
    type V = TradeModel;

    open spec fn view(&self) -> TradeModel {
        TradeModel {
            symbol: self.symbol@,
            price: self.price@,
            timestamp: self.timestamp@,
            volume: self.volume@,
        }
    }
}

/// A decoded trade envelope: the discriminator value and the records.
pub struct TradeData {
    pub msg_type: Vec<u8>,
    pub data: Vec<Trade>,
}

/// The latest known price of one instrument.  The timestamp is the
/// upstream epoch-millisecond count where that was representable, and
/// the local receipt instant otherwise.
pub struct StockPrice {
    pub symbol: Vec<u8>,
    pub price: Vec<u8>,
    pub volume: Vec<u8>,
    pub timestamp_ms: i64,
}

pub ghost struct StockPriceModel {
    pub symbol: Seq<u8>,
    pub price: Seq<u8>,
    pub volume: Seq<u8>,
    pub timestamp_ms: int,
}

impl View for StockPrice {
    type V = StockPriceModel;

    open spec fn view(&self) -> StockPriceModel {
        StockPriceModel {
            symbol: self.symbol@,
            price: self.price@,
            volume: self.volume@,
            timestamp_ms: self.timestamp_ms as int,
        }
    }
}

/// Timestamp a sample takes from a trade record: the record's own count
/// where it is a plain integer that chrono can represent, the receipt
/// instant otherwise.
pub open spec fn spec_trade_timestamp(tok: Seq<u8>, receipt_ms: int) -> int {
    match json::spec_token_int(tok) {
        Some(v) => if time::chrono_millis_in_range(v as i64) {
            v
        } else {
            receipt_ms
        },
        None => receipt_ms,
    }
}

/// The sample a trade record maps to, given the receipt instant.
pub open spec fn spec_from_trade(t: TradeModel, receipt_ms: int) -> StockPriceModel {
    StockPriceModel {
        symbol: t.symbol,
        price: t.price,
        volume: t.volume,
        timestamp_ms: spec_trade_timestamp(t.timestamp, receipt_ms),
    }
}

fn clone_bytes(v: &Vec<u8>) -> (r: Vec<u8>)
    ensures
        r@ == v@,
{
    let n = v.len();
    let mut r: Vec<u8> = Vec::new();
    let mut i: usize = 0;
    while i < n
        invariant
            i <= n,
            n == v@.len(),
            r@ == v@.subrange(0, i as int),
        decreases n - i,
    {
        r.push(v[i]);
        i = i + 1;
        proof {
            assert(v@.subrange(0, i as int) =~= v@.subrange(0, i - 1) + seq![v@[i - 1]]);
        }
    }
    proof {
        assert(v@.subrange(0, n as int) =~= v@);
    }
    r
}

impl StockPrice {
    /// A copy of the sample, field for field.
    pub fn duplicate(&self) -> (r: Self)
        ensures
            r@ == self@,
    {
        StockPrice {
            symbol: clone_bytes(&self.symbol),
            price: clone_bytes(&self.price),
            volume: clone_bytes(&self.volume),
            timestamp_ms: self.timestamp_ms,
        }
    }

    /// Maps a trade record to a sample against an already-read receipt
    /// instant.
    pub fn from_trade_at(trade: Trade, receipt_ms: i64) -> (r: Self)
        ensures
            r@ == spec_from_trade(trade@, receipt_ms as int),
    {
        let ts: i64 = match json::token_int(&trade.timestamp) {
            Some(v) => {
                if time::timestamp_millis_valid(v) {
                    v
                } else {
                    receipt_ms
                }
            },
            None => receipt_ms,
        };
        StockPrice { symbol: trade.symbol, price: trade.price, volume: trade.volume, timestamp_ms: ts }
    }

    /// Maps a trade record to a sample, reading the clock for the
    /// receipt instant.
    pub fn from_trade(trade: Trade) -> (r: Self)
        ensures
            exists|receipt_ms: int| r@ == spec_from_trade(trade@, receipt_ms),
    {
        let now = time::now_millis();
        let r = Self::from_trade_at(trade, now);
        proof {
            assert(r@ == spec_from_trade(trade@, now as int));
        }
        r
    }
}

} // verus!
