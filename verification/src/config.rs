//! Configuration of the streaming connection and of the REST poller, with
//! their documented defaults.

use vstd::prelude::*;

verus! {

broadcast use vstd::string::group_string_axioms;

/// Configuration of the streaming market-data connection.
#[derive(Debug, PartialEq, Eq, Clone)]
pub struct OkexMdConnectionConfig {
    /// How many tickers to put on one channel batch (exchange guidance:
    /// under 30 channels per connection).
    pub channel_tickers_amount: usize,
    /// The websocket endpoint.
    pub ws_url: String,
    /// Keepalive period, in seconds.
    pub ping_frequency_seconds: u64,
    /// Delay between successive subscribe frames, in milliseconds.
    pub subscribe_interval_ms: u64,
}

impl Default for OkexMdConnectionConfig {
    /// The documented defaults: 60 tickers per batch, the public endpoint,
    /// a ping every 3 seconds, 100 ms between subscribe frames.
    fn default() -> (r: Self)
        ensures
            r.channel_tickers_amount == 60,
            r.ws_url@ == "wss://ws.okx.com:8443/ws/v5/public"@,
            r.ping_frequency_seconds == 3,
            r.subscribe_interval_ms == 100,
    {
        Self {
            channel_tickers_amount: 60,
            ws_url: "wss://ws.okx.com:8443/ws/v5/public".to_string(),
            ping_frequency_seconds: 3,
            subscribe_interval_ms: 100,
        }
    }
}

/// Configuration of the REST poller.
#[derive(Debug, PartialEq, Eq, Clone)]
pub struct OkexPollerConfig {
    /// The REST base URL.
    pub http_url: String,
}

impl Default for OkexPollerConfig {
    /// The documented default base URL.
    fn default() -> (r: Self)
        ensures
            r.http_url@ == "https://www.okx.com"@,
    {
        Self { http_url: "https://www.okx.com".to_string() }
    }
}

} // verus!
