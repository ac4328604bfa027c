//! Fixed settings of the tracker.

use crate::types::Asset;
use vstd::prelude::*;

verus! {

/// How often the polling loop fetches prices, in seconds.
pub const REFRESH_INTERVAL_SECS: u64 = 60;

/// Age in seconds past which a cached price is stale.
pub const STALE_THRESHOLD_SECS: u64 = 300;

/// Time limit of one HTTP request, in seconds.
pub const REQUEST_TIMEOUT_SECS: u64 = 10;

/// Attempts of one fetch cycle before it gives up.
pub const MAX_RETRY_ATTEMPTS: u32 = 3;

/// Delay before the second attempt, in milliseconds.
pub const INITIAL_BACKOFF_MS: u64 = 1000;

/// Upper bound of the delay between attempts, in milliseconds.
pub const MAX_BACKOFF_MS: u64 = 30000;

/// Delay before the stream reconnects after it ends, in seconds.
pub const STREAM_RECONNECT_DELAY_SECS: u64 = 5;

/// CoinGecko API base URL.
pub const COINGECKO_API_URL: &'static str = "https://api.coingecko.com/api/v3";

/// CoinGecko endpoint for simple price queries.
pub const COINGECKO_SIMPLE_PRICE_ENDPOINT: &'static str = "/simple/price";

/// Hyperliquid info endpoint.
pub const HYPERLIQUID_API_URL: &'static str = "https://api.hyperliquid.xyz/info";

/// Pyth Hermes price stream endpoint.
pub const HERMES_STREAM_URL: &'static str = "https://hermes.pyth.network/v2/updates/price/stream";

/// User agent of HTTP requests.
pub const USER_AGENT: &'static str = "solana-sniper-bot/0.1.0";

pub open spec fn spec_enabled_assets() -> Seq<Asset> {
    seq![Asset::SOL, Asset::BTC]
}

/// The assets the tracker fetches.
pub fn enabled_assets() -> (r: &'static [Asset])
    ensures
        r@ == spec_enabled_assets(),
{
    let r: &'static [Asset] = &[Asset::SOL, Asset::BTC];
    assert(r@ =~= spec_enabled_assets());
    r
}

} // verus!
