//! Assets, prices and the records the cache holds.

use crate::clock::now_millis;
use vstd::prelude::*;

verus! {

/// One of the tracked instruments.
#[derive(Debug, Clone, Copy, PartialEq, Eq, Hash, Structural)]
pub enum Asset {
    /// Solana
    SOL,
    /// Bitcoin
    BTC,
    /// Ethereum
    ETH,
    /// USD Coin
    USDC,
    /// Tether
    USDT,
    /// Wrapped Bitcoin
    WBTC,
    /// Wrapped Ethereum
    WETH,
}

/// Number of tracked assets.
pub const ASSET_COUNT: usize = 7;

impl Asset {
    /// Position of the asset in the canonical order of `all`.
    pub open spec fn spec_index(self) -> nat {
        match self {
            Asset::SOL => 0,
            Asset::BTC => 1,
            Asset::ETH => 2,
            Asset::USDC => 3,
            Asset::USDT => 4,
            Asset::WBTC => 5,
            Asset::WETH => 6,
        }
    }

    /// The asset at position `i` of the canonical order.
    pub open spec fn spec_at(i: nat) -> Asset {
        if i == 0 {
            Asset::SOL
        } else if i == 1 {
            Asset::BTC
        } else if i == 2 {
            Asset::ETH
        } else if i == 3 {
            Asset::USDC
        } else if i == 4 {
            Asset::USDT
        } else if i == 5 {
            Asset::WBTC
        } else {
            Asset::WETH
        }
    }

    pub open spec fn spec_symbol(self) -> Seq<char> {
        match self {
            Asset::SOL => "SOL"@,
            Asset::BTC => "BTC"@,
            Asset::ETH => "ETH"@,
            Asset::USDC => "USDC"@,
            Asset::USDT => "USDT"@,
            Asset::WBTC => "WBTC"@,
            Asset::WETH => "WETH"@,
        }
    }

    pub open spec fn spec_coingecko_id(self) -> Seq<char> {
        match self {
            Asset::SOL => "solana"@,
            Asset::BTC => "bitcoin"@,
            Asset::ETH => "ethereum"@,
            Asset::USDC => "usd-coin"@,
            Asset::USDT => "tether"@,
            Asset::WBTC => "wrapped-bitcoin"@,
            Asset::WETH => "weth"@,
        }
    }

    pub open spec fn spec_stale_threshold_secs(self) -> u64 {
        match self {
            Asset::SOL | Asset::ETH => 120,
            Asset::BTC | Asset::WBTC | Asset::WETH => 180,
            Asset::USDC | Asset::USDT => 300,
        }
    }

    /// All assets in canonical order.
    pub open spec fn spec_all() -> Seq<Asset> {
        Seq::new(ASSET_COUNT as nat, |i: int| Asset::spec_at(i as nat))
    }

    pub open spec fn spec_pyth_feed_id(self) -> Option<Seq<char>> {
        match self {
            Asset::SOL => Some("0xef0d8b6fda2ceba41da15d4095d1da392a0d2f8ed0c6c7bc0f4cfac8c280b56d"@),
            Asset::BTC => Some("0xe62df6c8b4a85fe1a67db44dc12de5db330f7ac66b72dc658afedf0f4a415b43"@),
            Asset::ETH => Some("0xff61491a931112ddf1bd8147cd1b641375f79f5825126d665480874634fd0ace"@),
            Asset::USDC => Some("0xeaa020c61cc479712813461ce153894a96a6c00b21ed0cfc2798d1f9a9e9c94a"@),
            Asset::USDT => Some("0x2b89b9dc8fdf9f34709a5b106b472f0f39bb6ca9ce04b0fd7f2e971688e2e53b"@),
            Asset::WBTC | Asset::WETH => None,
        }
    }

    pub proof fn lemma_index_bijective(self)
        ensures
            self.spec_index() < ASSET_COUNT,
            Asset::spec_at(self.spec_index()) == self,
    {
    }

    /// Position of the asset in the canonical order of `all`.
    pub fn index(&self) -> (r: usize)
        ensures
            r == self.spec_index(),
            r < ASSET_COUNT,
    {
        match self {
            Asset::SOL => 0,
            Asset::BTC => 1,
            Asset::ETH => 2,
            Asset::USDC => 3,
            Asset::USDT => 4,
            Asset::WBTC => 5,
            Asset::WETH => 6,
        }
    }

    /// The ticker symbol of the asset.
    pub fn symbol(&self) -> (r: &'static str)
        ensures
            r@ == self.spec_symbol(),
    {
        match self {
            Asset::SOL => "SOL",
            Asset::BTC => "BTC",
            Asset::ETH => "ETH",
            Asset::USDC => "USDC",
            Asset::USDT => "USDT",
            Asset::WBTC => "WBTC",
            Asset::WETH => "WETH",
        }
    }

    /// The identifier CoinGecko uses for the asset.
    pub fn coingecko_id(&self) -> (r: &'static str)
        ensures
            r@ == self.spec_coingecko_id(),
    {
        match self {
            Asset::SOL => "solana",
            Asset::BTC => "bitcoin",
            Asset::ETH => "ethereum",
            Asset::USDC => "usd-coin",
            Asset::USDT => "tether",
            Asset::WBTC => "wrapped-bitcoin",
            Asset::WETH => "weth",
        }
    }

    /// The symbol Hyperliquid uses for the asset (its ticker symbol).
    pub fn hyperliquid_symbol(&self) -> (r: &'static str)
        ensures
            r@ == self.spec_symbol(),
    {
        match self {
            Asset::SOL => "SOL",
            Asset::BTC => "BTC",
            Asset::ETH => "ETH",
            Asset::USDC => "USDC",
            Asset::USDT => "USDT",
            Asset::WBTC => "WBTC",
            Asset::WETH => "WETH",
        }
    }

    /// Every supported asset, in canonical order.
    pub fn all() -> (r: &'static [Asset])
        ensures
            r@.len() == ASSET_COUNT,
            forall|i: int| 0 <= i < ASSET_COUNT ==> #[trigger] r@[i] == Asset::spec_at(i as nat),
            r@ == Asset::spec_all(),
    {
        let r: &'static [Asset] = &[
            Asset::SOL,
            Asset::BTC,
            Asset::ETH,
            Asset::USDC,
            Asset::USDT,
            Asset::WBTC,
            Asset::WETH,
        ];
        assert(r@ =~= Asset::spec_all());
        r
    }

    /// The identifier of the asset's Pyth price feed (USD quote), where the
    /// stream carries one.
    pub fn pyth_feed_id(&self) -> (r: Option<&'static str>)
        ensures
            r matches Some(f) ==> self.spec_pyth_feed_id() == Some(f@),
            r is None ==> self.spec_pyth_feed_id() is None,
    {
        match self {
            Asset::SOL => Some("0xef0d8b6fda2ceba41da15d4095d1da392a0d2f8ed0c6c7bc0f4cfac8c280b56d"),
            Asset::BTC => Some("0xe62df6c8b4a85fe1a67db44dc12de5db330f7ac66b72dc658afedf0f4a415b43"),
            Asset::ETH => Some("0xff61491a931112ddf1bd8147cd1b641375f79f5825126d665480874634fd0ace"),
            Asset::USDC => Some("0xeaa020c61cc479712813461ce153894a96a6c00b21ed0cfc2798d1f9a9e9c94a"),
            Asset::USDT => Some("0x2b89b9dc8fdf9f34709a5b106b472f0f39bb6ca9ce04b0fd7f2e971688e2e53b"),
            Asset::WBTC | Asset::WETH => None,
        }
    }

    /// The asset's own freshness threshold in seconds.
    pub fn stale_threshold_secs(&self) -> (r: u64)
        ensures
            r == self.spec_stale_threshold_secs(),
    {
        match self {
            Asset::SOL | Asset::ETH => 120,
            Asset::BTC | Asset::WBTC | Asset::WETH => 180,
            Asset::USDC | Asset::USDT => 300,
        }
    }
}


/// A decimal amount of US dollars: `mantissa * 10^exponent`.
#[derive(Debug, Clone, Copy, PartialEq, Eq, Structural)]
pub struct Price {
    pub mantissa: i64,
    pub exponent: i32,
}

impl Price {
    /// A price from its mantissa and base-ten exponent.
    pub fn new(mantissa: i64, exponent: i32) -> (r: Price)
        ensures
            r.mantissa == mantissa,
            r.exponent == exponent,
    {
        Price { mantissa, exponent }
    }
}

/// Whole seconds elapsed from `at_ms` to `now_ms` (both milliseconds since the
/// Unix epoch), truncated; zero when `at_ms` lies in the future.
pub open spec fn elapsed_secs(at_ms: int, now_ms: int) -> int {
    if now_ms >= at_ms {
        (now_ms - at_ms) / 1000
    } else {
        0
    }
}

/// Whole seconds from `at_ms` to `now_ms`, as `elapsed_secs` states.
pub fn elapsed_secs_between(at_ms: i64, now_ms: i64) -> (r: u64)
    ensures
        r == elapsed_secs(at_ms as int, now_ms as int),
{
    let d: i128 = now_ms as i128 - at_ms as i128;
    if d < 0 {
        0
    } else {
        assert(d / 1000 <= u64::MAX) by (nonlinear_arith)
            requires
                0 <= d <= 0x1_0000_0000_0000_0000i128,
        ;
        (d / 1000) as u64
    }
}

/// A price observation for one asset. Never changed once made: a newer price
/// is a new value.
#[derive(Debug)]
pub struct PriceData {
    pub asset: Asset,
    /// Price in US dollars.
    pub price_usd: Price,
    /// Change over the last 24 hours, in percent, where the source gives it.
    pub price_change_24h: Option<Price>,
    /// When the price was captured, in milliseconds since the Unix epoch.
    pub last_updated_ms: i64,
    /// The label of the source that gave the price.
    pub source: String,
}

/// What a `PriceData` holds, with its source label as characters.
pub struct PriceDataView {
    pub asset: Asset,
    pub price_usd: Price,
    pub price_change_24h: Option<Price>,
    pub last_updated_ms: i64,
    pub source: Seq<char>,
}

impl View for PriceData {
    type V = PriceDataView;

    open spec fn view(&self) -> PriceDataView {
        PriceDataView {
            asset: self.asset,
            price_usd: self.price_usd,
            price_change_24h: self.price_change_24h,
            last_updated_ms: self.last_updated_ms,
            source: self.source@,
        }
    }
}

impl Clone for PriceData {
    fn clone(&self) -> (r: Self)
        ensures
            r@ == self@,
    {
        PriceData {
            asset: self.asset,
            price_usd: self.price_usd,
            price_change_24h: self.price_change_24h,
            last_updated_ms: self.last_updated_ms,
            source: self.source.clone(),
        }
    }
}

impl PriceDataView {
    /// The price is older than `threshold_secs` at `now_ms`.
    pub open spec fn is_stale_at(self, threshold_secs: u64, now_ms: int) -> bool {
        elapsed_secs(self.last_updated_ms as int, now_ms) > threshold_secs
    }
}

impl PriceData {
    /// A price captured at `captured_ms`, with a 24-hour change where known.
    pub fn captured_at(
        asset: Asset,
        price_usd: Price,
        price_change_24h: Option<Price>,
        source: String,
        captured_ms: i64,
    ) -> (r: PriceData)
        ensures
            r@ == (PriceDataView {
                asset,
                price_usd,
                price_change_24h,
                last_updated_ms: captured_ms,
                source: source@,
            }),
    {
        PriceData { asset, price_usd, price_change_24h, last_updated_ms: captured_ms, source }
    }

    /// A price captured now, without a 24-hour change.
    pub fn new(asset: Asset, price_usd: Price, source: String) -> (r: PriceData)
        ensures
            r.asset == asset,
            r.price_usd == price_usd,
            r.price_change_24h.is_none(),
            r.source@ == source@,
    {
        let now = now_millis();
        PriceData::captured_at(asset, price_usd, None, source, now)
    }

    /// A price captured now, with the given 24-hour change.
    pub fn with_change(
        asset: Asset,
        price_usd: Price,
        price_change_24h: Option<Price>,
        source: String,
    ) -> (r: PriceData)
        ensures
            r.asset == asset,
            r.price_usd == price_usd,
            r.price_change_24h == price_change_24h,
            r.source@ == source@,
    {
        let now = now_millis();
        PriceData::captured_at(asset, price_usd, price_change_24h, source, now)
    }

    /// The price is older than `threshold_seconds` at `now_ms`.
    pub fn is_stale_at(&self, threshold_seconds: u64, now_ms: i64) -> (r: bool)
        ensures
            r == self@.is_stale_at(threshold_seconds, now_ms as int),
    {
        elapsed_secs_between(self.last_updated_ms, now_ms) > threshold_seconds
    }

    /// Whole seconds since capture at `now_ms` (zero for a capture time ahead
    /// of `now_ms`).
    pub fn age_at(&self, now_ms: i64) -> (r: u64)
        ensures
            r == elapsed_secs(self.last_updated_ms as int, now_ms as int),
    {
        elapsed_secs_between(self.last_updated_ms, now_ms)
    }

    /// The price is older than `threshold_seconds` now.
    pub fn is_stale(&self, threshold_seconds: u64) -> (r: bool)
        ensures
            exists|now: i64| r == self@.is_stale_at(threshold_seconds, now as int),
    {
        let now = now_millis();
        self.is_stale_at(threshold_seconds, now)
    }

    /// Whole seconds since capture, now.
    pub fn age(&self) -> (r: u64)
        ensures
            exists|now: i64| r == elapsed_secs(self.last_updated_ms as int, now as int),
    {
        let now = now_millis();
        self.age_at(now)
    }
}


/// A UUID, carried through as an opaque value.
#[verifier::external_type_specification]
#[verifier::external_body]
pub struct ExUuid(uuid::Uuid);

/// Relies on `uuid::Uuid`'s derived `Clone` (the type is also `Copy`): the
/// clone is the same value.
pub assume_specification[ <uuid::Uuid as Clone>::clone ](u: &uuid::Uuid) -> (r: uuid::Uuid)
    ensures
        r == *u,
;

/// Events of the tracker, for consumers that react to them.
#[derive(Debug, Clone)]
pub enum MarketPriceEvent {
    /// A price was updated for an asset.
    PriceUpdated {
        id: uuid::Uuid,
        asset: Asset,
        old_price_usd: Option<Price>,
        new_price_usd: Price,
        price_change_24h: Option<Price>,
        timestamp_ms: i64,
    },
    /// A price fetch failed.
    PriceFetchFailed { id: uuid::Uuid, asset: Asset, error_message: String, timestamp_ms: i64 },
    /// A provider's status changed.
    ProviderStatusChanged {
        id: uuid::Uuid,
        provider: String,
        status: ProviderStatus,
        timestamp_ms: i64,
    },
}

impl MarketPriceEvent {
    pub open spec fn spec_id(&self) -> uuid::Uuid {
        match self {
            MarketPriceEvent::PriceUpdated { id, .. } => *id,
            MarketPriceEvent::PriceFetchFailed { id, .. } => *id,
            MarketPriceEvent::ProviderStatusChanged { id, .. } => *id,
        }
    }

    pub open spec fn spec_event_type(&self) -> Seq<char> {
        match self {
            MarketPriceEvent::PriceUpdated { .. } => "PRICE_UPDATED"@,
            MarketPriceEvent::PriceFetchFailed { .. } => "PRICE_FETCH_FAILED"@,
            MarketPriceEvent::ProviderStatusChanged { .. } => "PROVIDER_STATUS_CHANGED"@,
        }
    }

    /// The event's identifier.
    pub fn id(&self) -> (r: uuid::Uuid)
        ensures
            r == self.spec_id(),
    {
        match self {
            MarketPriceEvent::PriceUpdated { id, .. } => *id,
            MarketPriceEvent::PriceFetchFailed { id, .. } => *id,
            MarketPriceEvent::ProviderStatusChanged { id, .. } => *id,
        }
    }

    /// The event's kind, in upper snake case.
    pub fn event_type(&self) -> (r: &'static str)
        ensures
            r@ == self.spec_event_type(),
    {
        match self {
            MarketPriceEvent::PriceUpdated { .. } => "PRICE_UPDATED",
            MarketPriceEvent::PriceFetchFailed { .. } => "PRICE_FETCH_FAILED",
            MarketPriceEvent::ProviderStatusChanged { .. } => "PROVIDER_STATUS_CHANGED",
        }
    }
}

/// Status of a provider.
#[derive(Debug, Clone, Copy, PartialEq, Eq, Structural)]
pub enum ProviderStatus {
    /// Provider is healthy.
    Healthy,
    /// Provider is experiencing issues.
    Degraded,
    /// Provider is unavailable.
    Unavailable,
}

/// Overall health of the tracker.
#[derive(Debug, Clone, Copy, PartialEq, Eq, Structural)]
pub enum HealthStatus {
    /// Fresh prices for every enabled asset.
    Healthy,
    /// Some prices, but some enabled asset has no fresh one.
    Degraded,
    /// No fresh price at all.
    Unhealthy,
}

/// A health report of the tracker.
#[derive(Debug, Clone)]
pub struct ComponentHealth {
    pub name: String,
    pub status: HealthStatus,
    pub message: Option<String>,
    /// Number of assets with a fresh price.
    pub available_prices: usize,
    /// Label of the active provider.
    pub provider_name: String,
    /// Symbols of the enabled assets without a fresh price.
    pub stale_prices: Vec<String>,
    /// When the report was made, in milliseconds since the Unix epoch.
    pub last_checked_ms: i64,
}

} // verus!
