//! Decoding of inbound frames into trade envelopes and price samples.
//!
//! A frame is one JSON object `{"type": ..., "data": [...]}`; members
//! may come in any order, unknown members are stepped over, and a
//! duplicated member, a missing one, or any departure from the grammar
//! leaves the frame without a parse — the caller then ignores it, as
//! unrelated control frames from the feed are expected.  Each record of
//! a `"trade"` envelope carries `s` (a string), and `p`, `t`, `v`
//! (numbers), plus arbitrary further members.

use crate::json::{
    number_end, parse_string_body, skip_value, skip_ws, spec_number_end, spec_skip_value,
    spec_skip_ws, spec_string_body,
};
use crate::types::{spec_from_trade, StockPrice, StockPriceModel, Trade, TradeData, TradeModel};
use vstd::prelude::*;

verus! {

/// What a frame parses to: the discriminator value and the records.
pub ghost struct EnvelopeModel {
    pub msg_type: Seq<u8>,
    pub trades: Seq<TradeModel>,
}

pub open spec fn trades_model(ts: Seq<Trade>) -> Seq<TradeModel> {
    ts.map_values(|t: Trade| t@)
}

pub open spec fn opt_bytes(o: Option<Vec<u8>>) -> Option<Seq<u8>> {
    match o {
        Some(v) => Some(v@),
        None => None,
    }
}

pub open spec fn opt_trades(o: Option<Vec<Trade>>) -> Option<Seq<TradeModel>> {
    match o {
        Some(v) => Some(trades_model(v@)),
        None => None,
    }
}

// member keys, as byte sequences: "type", "data", "s", "p", "t", "v",
// and the discriminator value "trade"
pub open spec fn type_key() -> Seq<u8> {
    seq![116u8, 121u8, 112u8, 101u8]
}

pub open spec fn data_key() -> Seq<u8> {
    seq![100u8, 97u8, 116u8, 97u8]
}

pub open spec fn skey() -> Seq<u8> {
    seq![115u8]
}

pub open spec fn pkey() -> Seq<u8> {
    seq![112u8]
}

pub open spec fn tkey() -> Seq<u8> {
    seq![116u8]
}

pub open spec fn vkey() -> Seq<u8> {
    seq![118u8]
}

pub open spec fn trade_kind() -> Seq<u8> {
    seq![116u8, 114u8, 97u8, 100u8, 101u8]
}

// --- one trade record ------------------------------------------------------

/// A record is complete only when all four fields were seen.
pub open spec fn spec_trade_done(
    sym: Option<Seq<u8>>,
    pr: Option<Seq<u8>>,
    ts: Option<Seq<u8>>,
    vol: Option<Seq<u8>>,
    end: int,
) -> Option<(TradeModel, int)> {
    match (sym, pr, ts, vol) {
        (Some(s), Some(p), Some(t), Some(v)) => Some(
            (TradeModel { symbol: s, price: p, timestamp: t, volume: v }, end),
        ),
        _ => None,
    }
}

/// Members of a trade object from position `i` on, with the fields
/// already accumulated; `first` allows an immediately closing brace.
pub open spec fn spec_trade_fields(
    s: Seq<u8>,
    i: int,
    first: bool,
    sym: Option<Seq<u8>>,
    pr: Option<Seq<u8>>,
    ts: Option<Seq<u8>>,
    vol: Option<Seq<u8>>,
    fuel: nat,
) -> Option<(TradeModel, int)>
    decreases fuel,
{
    if fuel == 0 || !(0 <= i && i < s.len()) {
        None
    } else if first && s[i] == 125 {
        spec_trade_done(sym, pr, ts, vol, i + 1)
    } else if s[i] == 34 {
        match spec_string_body(s, i + 1) {
            Some(k) => {
                let c = spec_skip_ws(s, k.1);
                if 0 <= c && c < s.len() && s[c] == 58 {
                    let v = spec_skip_ws(s, c + 1);
                    let key = k.0;
                    if key == skey() {
                        if sym is Some {
                            None
                        } else if 0 <= v && v < s.len() && s[v] == 34 {
                            match spec_string_body(s, v + 1) {
                                Some(p) => spec_trade_tail(
                                    s,
                                    p.1,
                                    Some(p.0),
                                    pr,
                                    ts,
                                    vol,
                                    (fuel - 1) as nat,
                                ),
                                None => None,
                            }
                        } else {
                            None
                        }
                    } else if key == pkey() {
                        if pr is Some {
                            None
                        } else {
                            match spec_number_end(s, v) {
                                Some(e) => spec_trade_tail(
                                    s,
                                    e,
                                    sym,
                                    Some(s.subrange(v, e)),
                                    ts,
                                    vol,
                                    (fuel - 1) as nat,
                                ),
                                None => None,
                            }
                        }
                    } else if key == tkey() {
                        if ts is Some {
                            None
                        } else {
                            match spec_number_end(s, v) {
                                Some(e) => spec_trade_tail(
                                    s,
                                    e,
                                    sym,
                                    pr,
                                    Some(s.subrange(v, e)),
                                    vol,
                                    (fuel - 1) as nat,
                                ),
                                None => None,
                            }
                        }
                    } else if key == vkey() {
                        if vol is Some {
                            None
                        } else {
                            match spec_number_end(s, v) {
                                Some(e) => spec_trade_tail(
                                    s,
                                    e,
                                    sym,
                                    pr,
                                    ts,
                                    Some(s.subrange(v, e)),
                                    (fuel - 1) as nat,
                                ),
                                None => None,
                            }
                        }
                    } else {
                        match spec_skip_value(s, v, (fuel - 1) as nat) {
                            Some(e) => spec_trade_tail(s, e, sym, pr, ts, vol, (fuel - 1) as nat),
                            None => None,
                        }
                    }
                } else {
                    None
                }
            },
            None => None,
        }
    } else {
        None
    }
}

/// After a member's value ends at `e`: a comma continues the object, a
/// brace closes it.
pub open spec fn spec_trade_tail(
    s: Seq<u8>,
    e: int,
    sym: Option<Seq<u8>>,
    pr: Option<Seq<u8>>,
    ts: Option<Seq<u8>>,
    vol: Option<Seq<u8>>,
    fuel: nat,
) -> Option<(TradeModel, int)>
    decreases fuel,
{
    if fuel == 0 {
        None
    } else {
        let j = spec_skip_ws(s, e);
        if 0 <= j && j < s.len() && s[j] == 44 {
            spec_trade_fields(s, spec_skip_ws(s, j + 1), false, sym, pr, ts, vol, (fuel - 1) as nat)
        } else if 0 <= j && j < s.len() && s[j] == 125 {
            spec_trade_done(sym, pr, ts, vol, j + 1)
        } else {
            None
        }
    }
}

/// One trade object starting exactly at `i`.
pub open spec fn spec_trade_obj(s: Seq<u8>, i: int, fuel: nat) -> Option<(TradeModel, int)>
    decreases fuel,
{
    if fuel == 0 {
        None
    } else if 0 <= i && i < s.len() && s[i] == 123 {
        spec_trade_fields(s, spec_skip_ws(s, i + 1), true, None, None, None, None, (fuel - 1) as nat)
    } else {
        None
    }
}

/// Elements of the `data` array from position `i` on.
pub open spec fn spec_trades(s: Seq<u8>, i: int, first: bool, fuel: nat) -> Option<
    (Seq<TradeModel>, int),
>
    decreases fuel,
{
    if fuel == 0 || !(0 <= i && i < s.len()) {
        None
    } else if first && s[i] == 93 {
        Some((Seq::empty(), i + 1))
    } else {
        match spec_trade_obj(s, i, (fuel - 1) as nat) {
            Some(te) => {
                let j = spec_skip_ws(s, te.1);
                if 0 <= j && j < s.len() && s[j] == 44 {
                    match spec_trades(s, spec_skip_ws(s, j + 1), false, (fuel - 1) as nat) {
                        Some(re) => Some((seq![te.0] + re.0, re.1)),
                        None => None,
                    }
                } else if 0 <= j && j < s.len() && s[j] == 93 {
                    Some((seq![te.0], j + 1))
                } else {
                    None
                }
            },
            None => None,
        }
    }
}

// --- the envelope -----------------------------------------------------------

pub open spec fn spec_env_done(ty: Option<Seq<u8>>, data: Option<Seq<TradeModel>>, end: int) -> Option<
    (EnvelopeModel, int),
> {
    match (ty, data) {
        (Some(t), Some(d)) => Some((EnvelopeModel { msg_type: t, trades: d }, end)),
        _ => None,
    }
}

/// Members of the envelope object from position `i` on.
pub open spec fn spec_env_fields(
    s: Seq<u8>,
    i: int,
    first: bool,
    ty: Option<Seq<u8>>,
    data: Option<Seq<TradeModel>>,
    fuel: nat,
) -> Option<(EnvelopeModel, int)>
    decreases fuel,
{
    if fuel == 0 || !(0 <= i && i < s.len()) {
        None
    } else if first && s[i] == 125 {
        spec_env_done(ty, data, i + 1)
    } else if s[i] == 34 {
        match spec_string_body(s, i + 1) {
            Some(k) => {
                let c = spec_skip_ws(s, k.1);
                if 0 <= c && c < s.len() && s[c] == 58 {
                    let v = spec_skip_ws(s, c + 1);
                    let key = k.0;
                    if key == type_key() {
                        if ty is Some {
                            None
                        } else if 0 <= v && v < s.len() && s[v] == 34 {
                            match spec_string_body(s, v + 1) {
                                Some(p) => spec_env_tail(s, p.1, Some(p.0), data, (fuel - 1) as nat),
                                None => None,
                            }
                        } else {
                            None
                        }
                    } else if key == data_key() {
                        if data is Some {
                            None
                        } else if 0 <= v && v < s.len() && s[v] == 91 {
                            match spec_trades(s, spec_skip_ws(s, v + 1), true, (fuel - 1) as nat) {
                                Some(de) => spec_env_tail(s, de.1, ty, Some(de.0), (fuel - 1) as nat),
                                None => None,
                            }
                        } else {
                            None
                        }
                    } else {
                        match spec_skip_value(s, v, (fuel - 1) as nat) {
                            Some(e) => spec_env_tail(s, e, ty, data, (fuel - 1) as nat),
                            None => None,
                        }
                    }
                } else {
                    None
                }
            },
            None => None,
        }
    } else {
        None
    }
}

/// After an envelope member's value ends at `e`.
pub open spec fn spec_env_tail(
    s: Seq<u8>,
    e: int,
    ty: Option<Seq<u8>>,
    data: Option<Seq<TradeModel>>,
    fuel: nat,
) -> Option<(EnvelopeModel, int)>
    decreases fuel,
{
    if fuel == 0 {
        None
    } else {
        let j = spec_skip_ws(s, e);
        if 0 <= j && j < s.len() && s[j] == 44 {
            spec_env_fields(s, spec_skip_ws(s, j + 1), false, ty, data, (fuel - 1) as nat)
        } else if 0 <= j && j < s.len() && s[j] == 125 {
            spec_env_done(ty, data, j + 1)
        } else {
            None
        }
    }
}

/// The grammar of one whole frame: an envelope object with both members
/// present, and nothing but whitespace after it.
pub open spec fn spec_envelope(s: Seq<u8>) -> Option<EnvelopeModel> {
    let i = spec_skip_ws(s, 0);
    if 0 <= i && i < s.len() && s[i] == 123 {
        match spec_env_fields(s, spec_skip_ws(s, i + 1), true, None, None, (s.len() + 1) as nat) {
            Some(ee) => if spec_skip_ws(s, ee.1) == s.len() {
                Some(ee.0)
            } else {
                None
            },
            None => None,
        }
    } else {
        None
    }
}

/// The samples one frame contributes: the records of a `"trade"`
/// envelope, mapped against the receipt instant; anything else yields
/// none.
pub open spec fn spec_frame_samples(s: Seq<u8>, receipt_ms: int) -> Seq<StockPriceModel> {
    match spec_envelope(s) {
        Some(env) => if env.msg_type == trade_kind() {
            env.trades.map_values(|t: TradeModel| spec_from_trade(t, receipt_ms))
        } else {
            Seq::empty()
        },
        None => Seq::empty(),
    }
}

// --- executable decoder -----------------------------------------------------

fn copy_range(s: &Vec<u8>, a: usize, b: usize) -> (r: Vec<u8>)
    requires
        a <= b <= s.len(),
    ensures
        r@ == s@.subrange(a as int, b as int),
{
    let mut r: Vec<u8> = Vec::new();
    proof {
        assert(r@ =~= s@.subrange(a as int, a as int));
    }
    let mut i = a;
    while i < b
        invariant
            a <= i <= b <= s.len(),
            r@ == s@.subrange(a as int, i as int),
        decreases b - i,
    {
        r.push(s[i]);
        i = i + 1;
        proof {
            assert(s@.subrange(a as int, i as int) =~= s@.subrange(a as int, i - 1) + seq![
                s@[i - 1],
            ]);
        }
    }
    r
}

/// Which trade-record member a key names: 0 `s`, 1 `p`, 2 `t`, 3 `v`,
/// 4 anything else.
fn trade_key_kind(k: &Vec<u8>) -> (r: u8)
    ensures
        (r == 0) <==> k@ == skey(),
        (r == 1) <==> k@ == pkey(),
        (r == 2) <==> k@ == tkey(),
        (r == 3) <==> k@ == vkey(),
        r <= 4,
{
    if k.len() == 1 {
        let b = k[0];
        if b == 115 {
            proof {
                assert(k@ =~= skey());
            }
            0
        } else if b == 112 {
            proof {
                assert(k@ =~= pkey());
            }
            1
        } else if b == 116 {
            proof {
                assert(k@ =~= tkey());
            }
            2
        } else if b == 118 {
            proof {
                assert(k@ =~= vkey());
            }
            3
        } else {
            4
        }
    } else {
        4
    }
}

/// Which envelope member a key names: 0 `type`, 1 `data`, 2 anything
/// else.
fn env_key_kind(k: &Vec<u8>) -> (r: u8)
    ensures
        (r == 0) <==> k@ == type_key(),
        (r == 1) <==> k@ == data_key(),
        r <= 2,
{
    if k.len() == 4 {
        if k[0] == 116 && k[1] == 121 && k[2] == 112 && k[3] == 101 {
            proof {
                assert(k@ =~= type_key());
            }
            0
        } else if k[0] == 100 && k[1] == 97 && k[2] == 116 && k[3] == 97 {
            proof {
                assert(k@ =~= data_key());
            }
            1
        } else {
            2
        }
    } else {
        2
    }
}

/// Whether a discriminator value reads `trade`.
pub fn is_trade_kind(k: &Vec<u8>) -> (r: bool)
    ensures
        r == (k@ == trade_kind()),
{
    if k.len() == 5 && k[0] == 116 && k[1] == 114 && k[2] == 97 && k[3] == 100 && k[4] == 101 {
        proof {
            assert(k@ =~= trade_kind());
        }
        true
    } else {
        false
    }
}

fn trade_done(
    sym: Option<Vec<u8>>,
    pr: Option<Vec<u8>>,
    ts: Option<Vec<u8>>,
    vol: Option<Vec<u8>>,
    end: usize,
) -> (r: Option<(Trade, usize)>)
    ensures
        ({
            let sp = spec_trade_done(opt_bytes(sym), opt_bytes(pr), opt_bytes(ts), opt_bytes(vol), end as int);
            match r {
                Some(p) => sp is Some && p.0@ == sp.unwrap().0 && p.1 as int == sp.unwrap().1,
                None => sp is None,
            }
        }),
{
    match (sym, pr, ts, vol) {
        (Some(s), Some(p), Some(t), Some(v)) => Some(
            (Trade { symbol: s, price: p, timestamp: t, volume: v }, end),
        ),
        _ => None,
    }
}

#[verifier::rlimit(100)]
fn trade_fields(
    s: &Vec<u8>,
    i: usize,
    first: bool,
    sym: Option<Vec<u8>>,
    pr: Option<Vec<u8>>,
    ts: Option<Vec<u8>>,
    vol: Option<Vec<u8>>,
    fuel: usize,
) -> (r: Option<(Trade, usize)>)
    requires
        i <= s.len(),
    ensures
        ({
            let sp = spec_trade_fields(
                s@,
                i as int,
                first,
                opt_bytes(sym),
                opt_bytes(pr),
                opt_bytes(ts),
                opt_bytes(vol),
                fuel as nat,
            );
            match r {
                Some(p) => sp is Some && p.0@ == sp.unwrap().0 && p.1 as int == sp.unwrap().1 && p.1
                    <= s.len(),
                None => sp is None,
            }
        }),
    decreases fuel,
{
    if fuel == 0 || i >= s.len() {
        return None;
    }
    if first && s[i] == 125 {
        return trade_done(sym, pr, ts, vol, i + 1);
    }
    if s[i] != 34 {
        return None;
    }
    match parse_string_body(s, i + 1) {
        Some((key, kend)) => {
            let c = skip_ws(s, kend);
            if !(c < s.len() && s[c] == 58) {
                return None;
            }
            let v = skip_ws(s, c + 1);
            let kind = trade_key_kind(&key);
            if kind == 0 {
                if sym.is_some() {
                    return None;
                }
                if !(v < s.len() && s[v] == 34) {
                    return None;
                }
                match parse_string_body(s, v + 1) {
                    Some((sv, e)) => trade_tail(s, e, Some(sv), pr, ts, vol, fuel - 1),
                    None => None,
                }
            } else if kind == 1 {
                if pr.is_some() {
                    return None;
                }
                match number_end(s, v) {
                    Some(e) => {
                        let tokv = copy_range(s, v, e);
                        trade_tail(s, e, sym, Some(tokv), ts, vol, fuel - 1)
                    },
                    None => None,
                }
            } else if kind == 2 {
                if ts.is_some() {
                    return None;
                }
                match number_end(s, v) {
                    Some(e) => {
                        let tokv = copy_range(s, v, e);
                        trade_tail(s, e, sym, pr, Some(tokv), vol, fuel - 1)
                    },
                    None => None,
                }
            } else if kind == 3 {
                if vol.is_some() {
                    return None;
                }
                match number_end(s, v) {
                    Some(e) => {
                        let tokv = copy_range(s, v, e);
                        trade_tail(s, e, sym, pr, ts, Some(tokv), fuel - 1)
                    },
                    None => None,
                }
            } else {
                match skip_value(s, v, fuel - 1) {
                    Some(e) => trade_tail(s, e, sym, pr, ts, vol, fuel - 1),
                    None => None,
                }
            }
        },
        None => None,
    }
}

#[verifier::rlimit(60)]
fn trade_tail(
    s: &Vec<u8>,
    e: usize,
    sym: Option<Vec<u8>>,
    pr: Option<Vec<u8>>,
    ts: Option<Vec<u8>>,
    vol: Option<Vec<u8>>,
    fuel: usize,
) -> (r: Option<(Trade, usize)>)
    requires
        e <= s.len(),
    ensures
        ({
            let sp = spec_trade_tail(
                s@,
                e as int,
                opt_bytes(sym),
                opt_bytes(pr),
                opt_bytes(ts),
                opt_bytes(vol),
                fuel as nat,
            );
            match r {
                Some(p) => sp is Some && p.0@ == sp.unwrap().0 && p.1 as int == sp.unwrap().1 && p.1
                    <= s.len(),
                None => sp is None,
            }
        }),
    decreases fuel,
{
    if fuel == 0 {
        return None;
    }
    let j = skip_ws(s, e);
    if j < s.len() && s[j] == 44 {
        let k = skip_ws(s, j + 1);
        trade_fields(s, k, false, sym, pr, ts, vol, fuel - 1)
    } else if j < s.len() && s[j] == 125 {
        trade_done(sym, pr, ts, vol, j + 1)
    } else {
        None
    }
}

fn trade_obj(s: &Vec<u8>, i: usize, fuel: usize) -> (r: Option<(Trade, usize)>)
    requires
        i <= s.len(),
    ensures
        ({
            let sp = spec_trade_obj(s@, i as int, fuel as nat);
            match r {
                Some(p) => sp is Some && p.0@ == sp.unwrap().0 && p.1 as int == sp.unwrap().1 && p.1
                    <= s.len(),
                None => sp is None,
            }
        }),
    decreases fuel,
{
    if fuel == 0 {
        return None;
    }
    if i < s.len() && s[i] == 123 {
        let j = skip_ws(s, i + 1);
        trade_fields(s, j, true, None, None, None, None, fuel - 1)
    } else {
        None
    }
}

#[verifier::rlimit(60)]
fn trades(s: &Vec<u8>, i: usize, first: bool, fuel: usize) -> (r: Option<(Vec<Trade>, usize)>)
    requires
        i <= s.len(),
    ensures
        ({
            let sp = spec_trades(s@, i as int, first, fuel as nat);
            match r {
                Some(p) => sp is Some && trades_model(p.0@) == sp.unwrap().0 && p.1 as int
                    == sp.unwrap().1 && p.1 <= s.len(),
                None => sp is None,
            }
        }),
    decreases fuel,
{
    if fuel == 0 || i >= s.len() {
        return None;
    }
    if first && s[i] == 93 {
        let out: Vec<Trade> = Vec::new();
        proof {
            assert(trades_model(out@) =~= Seq::<TradeModel>::empty());
        }
        return Some((out, i + 1));
    }
    match trade_obj(s, i, fuel - 1) {
        Some((t, e)) => {
            let j = skip_ws(s, e);
            if j < s.len() && s[j] == 44 {
                let k = skip_ws(s, j + 1);
                match trades(s, k, false, fuel - 1) {
                    Some((rest, e2)) => {
                        let ghost tm = t@;
                        let ghost restm = trades_model(rest@);
                        let mut out: Vec<Trade> = Vec::new();
                        out.push(t);
                        let mut r2 = rest;
                        out.append(&mut r2);
                        proof {
                            assert(trades_model(out@) =~= seq![tm] + restm);
                        }
                        Some((out, e2))
                    },
                    None => None,
                }
            } else if j < s.len() && s[j] == 93 {
                let ghost tm = t@;
                let mut out: Vec<Trade> = Vec::new();
                out.push(t);
                proof {
                    assert(trades_model(out@) =~= seq![tm]);
                }
                Some((out, j + 1))
            } else {
                None
            }
        },
        None => None,
    }
}

fn env_done(ty: Option<Vec<u8>>, data: Option<Vec<Trade>>, end: usize) -> (r: Option<
    (Vec<u8>, Vec<Trade>, usize),
>)
    ensures
        ({
            let sp = spec_env_done(opt_bytes(ty), opt_trades(data), end as int);
            match r {
                Some(p) => sp is Some && p.0@ == sp.unwrap().0.msg_type && trades_model(p.1@)
                    == sp.unwrap().0.trades && p.2 as int == sp.unwrap().1,
                None => sp is None,
            }
        }),
{
    match (ty, data) {
        (Some(t), Some(d)) => Some((t, d, end)),
        _ => None,
    }
}

#[verifier::rlimit(100)]
fn env_fields(
    s: &Vec<u8>,
    i: usize,
    first: bool,
    ty: Option<Vec<u8>>,
    data: Option<Vec<Trade>>,
    fuel: usize,
) -> (r: Option<(Vec<u8>, Vec<Trade>, usize)>)
    requires
        i <= s.len(),
    ensures
        ({
            let sp = spec_env_fields(
                s@,
                i as int,
                first,
                opt_bytes(ty),
                opt_trades(data),
                fuel as nat,
            );
            match r {
                Some(p) => sp is Some && p.0@ == sp.unwrap().0.msg_type && trades_model(p.1@)
                    == sp.unwrap().0.trades && p.2 as int == sp.unwrap().1 && p.2 <= s.len(),
                None => sp is None,
            }
        }),
    decreases fuel,
{
    if fuel == 0 || i >= s.len() {
        return None;
    }
    if first && s[i] == 125 {
        return env_done(ty, data, i + 1);
    }
    if s[i] != 34 {
        return None;
    }
    match parse_string_body(s, i + 1) {
        Some((key, kend)) => {
            let c = skip_ws(s, kend);
            if !(c < s.len() && s[c] == 58) {
                return None;
            }
            let v = skip_ws(s, c + 1);
            let kind = env_key_kind(&key);
            if kind == 0 {
                if ty.is_some() {
                    return None;
                }
                if !(v < s.len() && s[v] == 34) {
                    return None;
                }
                match parse_string_body(s, v + 1) {
                    Some((tv, e)) => env_tail(s, e, Some(tv), data, fuel - 1),
                    None => None,
                }
            } else if kind == 1 {
                if data.is_some() {
                    return None;
                }
                if !(v < s.len() && s[v] == 91) {
                    return None;
                }
                let w = skip_ws(s, v + 1);
                match trades(s, w, true, fuel - 1) {
                    Some((ds, e)) => env_tail(s, e, ty, Some(ds), fuel - 1),
                    None => None,
                }
            } else {
                match skip_value(s, v, fuel - 1) {
                    Some(e) => env_tail(s, e, ty, data, fuel - 1),
                    None => None,
                }
            }
        },
        None => None,
    }
}

#[verifier::rlimit(60)]
fn env_tail(
    s: &Vec<u8>,
    e: usize,
    ty: Option<Vec<u8>>,
    data: Option<Vec<Trade>>,
    fuel: usize,
) -> (r: Option<(Vec<u8>, Vec<Trade>, usize)>)
    requires
        e <= s.len(),
    ensures
        ({
            let sp = spec_env_tail(s@, e as int, opt_bytes(ty), opt_trades(data), fuel as nat);
            match r {
                Some(p) => sp is Some && p.0@ == sp.unwrap().0.msg_type && trades_model(p.1@)
                    == sp.unwrap().0.trades && p.2 as int == sp.unwrap().1 && p.2 <= s.len(),
                None => sp is None,
            }
        }),
    decreases fuel,
{
    if fuel == 0 {
        return None;
    }
    let j = skip_ws(s, e);
    if j < s.len() && s[j] == 44 {
        let k = skip_ws(s, j + 1);
        env_fields(s, k, false, ty, data, fuel - 1)
    } else if j < s.len() && s[j] == 125 {
        env_done(ty, data, j + 1)
    } else {
        None
    }
}

/// Parses one frame as a trade envelope, exactly as `spec_envelope`
/// describes it.
pub fn parse_envelope(frame: &Vec<u8>) -> (r: Option<TradeData>)
    requires
        frame.len() < usize::MAX,
    ensures
        ({
            let sp = spec_envelope(frame@);
            match r {
                Some(td) => sp is Some && td.msg_type@ == sp.unwrap().msg_type && trades_model(
                    td.data@,
                ) == sp.unwrap().trades,
                None => sp is None,
            }
        }),
{
    let i = skip_ws(frame, 0);
    if !(i < frame.len() && frame[i] == 123) {
        return None;
    }
    let j = skip_ws(frame, i + 1);
    let fuel = frame.len() + 1;
    match env_fields(frame, j, true, None, None, fuel) {
        Some((mt, data, e)) => {
            let k = skip_ws(frame, e);
            if k == frame.len() {
                Some(TradeData { msg_type: mt, data })
            } else {
                None
            }
        },
        None => None,
    }
}

/// Decodes one frame into its price samples against the given receipt
/// instant.  A frame outside the grammar, or with another
/// discriminator, yields no samples and is no error.
pub fn process_message(frame: &Vec<u8>, receipt_ms: i64) -> (samples: Vec<StockPrice>)
    requires
        frame.len() < usize::MAX,
    ensures
        samples@.map_values(|p: StockPrice| p@) == spec_frame_samples(frame@, receipt_ms as int),
        spec_envelope(frame@) is None ==> samples@.len() == 0,
        spec_envelope(frame@) is Some && spec_envelope(frame@).unwrap().msg_type != trade_kind()
            ==> samples@.len() == 0,
{
    let ghost gfs = spec_frame_samples(frame@, receipt_ms as int);
    match parse_envelope(frame) {
        Some(td) => {
            if is_trade_kind(&td.msg_type) {
                let ghost all = trades_model(td.data@);
                let mut rest = td.data;
                let mut out: Vec<StockPrice> = Vec::new();
                proof {
                    assert(forall|m: int|
                        0 <= m < rest@.len() ==> #[trigger] rest@[m]@ == all[out@.len() + m]);
                }
                while rest.len() > 0
                    invariant
                        out@.len() + rest@.len() == all.len(),
                        forall|m: int|
                            0 <= m < rest@.len() ==> #[trigger] rest@[m]@ == all[out@.len() + m],
                        forall|m: int|
                            0 <= m < out@.len() ==> #[trigger] out@[m]@ == spec_from_trade(
                                all[m],
                                receipt_ms as int,
                            ),
                    decreases rest@.len(),
                {
                    let ghost k = out@.len() as int;
                    let ghost prevr = rest@;
                    let tr = rest.remove(0);
                    proof {
                        assert(tr@ == all[k]);
                        assert(forall|m: int|
                            0 <= m < rest@.len() ==> #[trigger] rest@[m]@ == all[k + 1 + m]);
                    }
                    let sp = StockPrice::from_trade_at(tr, receipt_ms);
                    out.push(sp);
                }
                proof {
                    let f = |p: StockPrice| p@;
                    let g = |t: TradeModel| spec_from_trade(t, receipt_ms as int);
                    assert forall|m: int| 0 <= m < all.len() implies out@.map_values(f)[m]
                        == all.map_values(g)[m] by {
                        assert(out@.map_values(f)[m] == f(out@[m]));
                        assert(all.map_values(g)[m] == g(all[m]));
                    }
                    assert(out@.map_values(f) =~= all.map_values(g));
                    assert(out@.map_values(|p: StockPrice| p@) == gfs);
                }
                out
            } else {
                let out: Vec<StockPrice> = Vec::new();
                proof {
                    assert(out@.map_values(|p: StockPrice| p@) =~= gfs);
                }
                out
            }
        },
        None => {
            let out: Vec<StockPrice> = Vec::new();
            proof {
                assert(out@.map_values(|p: StockPrice| p@) =~= gfs);
            }
            out
        },
    }
}

} // verus!
