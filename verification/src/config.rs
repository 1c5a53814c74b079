//! Startup parameters of the monitor and the constants of its policy.

use vstd::prelude::*;
use vstd::string::StringExecFns;

verus! {

/// Endpoint of the market-data feed; the bearer token is appended as a
/// query parameter.
pub const WS_URL: &'static str = "wss://ws.finnhub.io";

/// Seconds waited between two connection attempts (constant, not growing).
pub const RECONNECT_DELAY_SECS: u64 = 5;

/// Period of the keepalive signal, in seconds.
pub const PING_INTERVAL_SECS: u64 = 30;

/// Ceiling of consecutive failed connection attempts before the run is
/// reported as a terminal failure.
pub const MAX_RECONNECT_ATTEMPTS: u32 = 10;

/// Bearer token and ordered subscription list, fixed for the process
/// lifetime.
#[derive(Clone, Debug)]
pub struct Config {
    pub api_token: String,
    pub symbols: Vec<String>,
}

impl Config {
    pub fn new(api_token: String, symbols: Vec<String>) -> (r: Self)
        ensures
            r.api_token == api_token,
            r.symbols == symbols,
    {
        Self { api_token, symbols }
    }

    /// The connection URL: the constant endpoint with the token as its
    /// only query parameter.
    pub fn websocket_url(&self) -> (r: String)
        ensures
            r@ == WS_URL@ + "?token="@ + self.api_token@,
    {
        let mut r = String::from_str(WS_URL);
        r.append("?token=");
        r.append(self.api_token.as_str());
        r
    }
}

} // verus!
