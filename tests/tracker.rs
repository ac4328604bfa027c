use market_price_sdk::constants::{enabled_assets, MAX_RETRY_ATTEMPTS};
use market_price_sdk::error::ProviderError;
use market_price_sdk::failover::{Failover, FailoverStep};
use market_price_sdk::metrics::MetricsCollector;
use market_price_sdk::store::MarketPriceStore;
use market_price_sdk::tracker::{
    apply_fetched, poll_step, refresh_mode, CycleStep, PollStep, RefreshMode, health_check_at, provider_choice, provider_choice_of_lowered,
    resolve_fallback, should_fall_back, FetchCycle, ProviderChoice, RetryStep,
};
use market_price_sdk::text::decimal_text;
use market_price_sdk::{Asset, HealthStatus, Price, PriceData, PriceError};

const T0: i64 = 1_700_000_000_000;

fn price(asset: Asset, mantissa: i64, at_ms: i64) -> PriceData {
    PriceData::captured_at(asset, Price::new(mantissa, 0), None, "mock".to_string(), at_ms)
}

#[test]
fn failover_returns_second_provider_success() {
    let mut run = Failover::new(2);
    let step: FailoverStep<u32> = run.start();
    assert!(matches!(step, FailoverStep::Try(0)));
    let step: FailoverStep<u32> = run.on_result(Err(ProviderError::Timeout));
    assert!(matches!(step, FailoverStep::Try(1)));
    match run.on_result(Ok(42u32)) {
        FailoverStep::Finish(Ok(v)) => assert_eq!(v, 42),
        _ => panic!("expected the second provider's price"),
    }
}

#[test]
fn failover_returns_last_error_when_all_fail() {
    let mut run = Failover::new(2);
    let _: FailoverStep<u32> = run.start();
    let _: FailoverStep<u32> = run.on_result(Err(ProviderError::RateLimitExceeded));
    match run.on_result::<u32>(Err(ProviderError::ApiError("B down".to_string()))) {
        FailoverStep::Finish(Err(ProviderError::ApiError(m))) => assert_eq!(m, "B down"),
        _ => panic!("expected the last provider's error"),
    }
}

#[test]
fn failover_stops_at_first_success() {
    let mut run = Failover::new(3);
    let _: FailoverStep<u32> = run.start();
    assert!(matches!(run.on_result(Ok(1u32)), FailoverStep::Finish(Ok(1))));
}

#[test]
fn failover_without_providers() {
    let run = Failover::new(0);
    match run.start::<u32>() {
        FailoverStep::Finish(Err(ProviderError::InvalidResponse(m))) => {
            assert_eq!(m, "No providers configured for failover")
        }
        _ => panic!("expected the empty-list error"),
    }
}

#[test]
fn retry_backoff_doubles_until_attempts_run_out() {
    assert_eq!(MAX_RETRY_ATTEMPTS, 3);
    let mut c = FetchCycle::new();
    assert_eq!(c.attempt(), 1);
    assert_eq!(c.on_failure(), RetryStep::RetryAfter(1000));
    assert_eq!(c.on_failure(), RetryStep::RetryAfter(2000));
    assert_eq!(c.attempt(), 3);
    assert_eq!(c.on_failure(), RetryStep::GiveUp);
    assert_eq!(c.on_failure(), RetryStep::GiveUp);
}

#[test]
fn retry_succeeds_on_third_attempt_with_one_sample() {
    let mut store = MarketPriceStore::new();
    let mut metrics = MetricsCollector::new("mock");
    let mut cycle = FetchCycle::new();
    let step = cycle.on_fetched(&mut store, Err(ProviderError::Timeout));
    assert!(matches!(step, CycleStep::RetryAfter(1000)));
    let step = cycle.on_fetched(&mut store, Err(ProviderError::RateLimitExceeded));
    assert!(matches!(step, CycleStep::RetryAfter(2000)));
    assert!(!store.has_price(Asset::SOL));
    let batch = vec![(Asset::SOL, price(Asset::SOL, 150, T0))];
    match cycle.on_fetched(&mut store, Ok(batch)) {
        CycleStep::Published(published) => {
            assert_eq!(published.len(), 1);
            assert_eq!(published[0].price_usd.mantissa, 150);
            cycle.finish(&mut metrics, 3_500_000);
        }
        other => panic!("expected the batch to be published, got {:?}", other),
    }
    assert_eq!(store.get_price_at(Asset::SOL, T0).unwrap().price_usd.mantissa, 150);
    let m = metrics.get_metrics();
    assert_eq!(metrics.sample_count(), 1);
    assert_eq!(m.total_requests, 1);
    assert_eq!(m.failed_requests, 0);
    assert_eq!(m.latency_p50_us, 3_500_000);
    assert_eq!(m.success_rate(), (1, 1));
}

#[test]
fn retry_gives_up_with_last_error() {
    let mut store = MarketPriceStore::new();
    let mut cycle = FetchCycle::new();
    let _ = cycle.on_fetched(&mut store, Err(ProviderError::Timeout));
    let _ = cycle.on_fetched(&mut store, Err(ProviderError::Timeout));
    match cycle.on_fetched(&mut store, Err(ProviderError::ApiError("last".to_string()))) {
        CycleStep::GiveUp(ProviderError::ApiError(m)) => assert_eq!(m, "last"),
        other => panic!("expected to give up, got {:?}", other),
    }
    let mut metrics = MetricsCollector::new("mock");
    cycle.finish(&mut metrics, 3_100_000);
    let m = metrics.get_metrics();
    assert_eq!(m.total_requests, 1);
    assert_eq!(m.failed_requests, 1);
    assert_eq!(m.latency_p50_us, 0);
}

#[test]
fn refresh_loop_decisions() {
    assert_eq!(refresh_mode(true), RefreshMode::Streaming);
    assert_eq!(refresh_mode(false), RefreshMode::Polling);
    assert_eq!(poll_step(false), PollStep::FetchThenWait);
    assert_eq!(poll_step(true), PollStep::Stop);
}

#[test]
fn error_messages() {
    assert_eq!(PriceError::not_available("SOL").message(), "Price data not available for SOL");
    assert_eq!(PriceError::stale("BTC", 301).message(), "Price data for BTC is stale (age: 301s)");
    assert_eq!(PriceError::provider_failure("x".to_string()).message(), "All providers failed: x");
    assert_eq!(PriceError::internal("y".to_string()).message(), "Internal error: y");
    assert_eq!(ProviderError::RateLimitExceeded.message(), "Rate limit exceeded");
    assert_eq!(ProviderError::Timeout.message(), "Request timeout");
    assert_eq!(ProviderError::ApiError("HTTP 500".to_string()).message(), "Provider API error: HTTP 500");
    assert_eq!(ProviderError::NetworkError("reset".to_string()).message(), "Network error: reset");
    assert_eq!(ProviderError::InvalidResponse("bad".to_string()).message(), "Invalid response: bad");
    assert_eq!(ProviderError::UnsupportedAsset("SOL".to_string()).message(), "Asset not supported: SOL");
}

#[test]
fn apply_fetched_publishes_in_batch_order() {
    let mut store = MarketPriceStore::new();
    let published = apply_fetched(
        &mut store,
        vec![(Asset::BTC, price(Asset::BTC, 2, T0)), (Asset::SOL, price(Asset::SOL, 1, T0))],
    );
    assert_eq!(published.len(), 2);
    assert_eq!(published[0].asset, Asset::BTC);
    assert_eq!(published[1].asset, Asset::SOL);
    assert_eq!(store.get_all_prices_at(T0).len(), 2);
}

#[test]
fn fallback_only_on_missing_or_stale() {
    assert!(should_fall_back(&Err(PriceError::not_available("SOL"))));
    assert!(should_fall_back(&Err(PriceError::stale("SOL", 400))));
    assert!(!should_fall_back(&Err(PriceError::internal("x".to_string()))));
    assert!(!should_fall_back(&Ok(price(Asset::SOL, 1, T0))));
}

#[test]
fn fallback_keeps_cache_error_when_provider_fails() {
    let r = resolve_fallback(PriceError::not_available("BTC"), Err(ProviderError::Timeout));
    assert!(matches!(r, Err(PriceError::NotAvailable { .. })));
    let r = resolve_fallback(PriceError::not_available("BTC"), Ok(price(Asset::BTC, 9, T0)));
    assert_eq!(r.unwrap().price_usd.mantissa, 9);
}

#[test]
fn health_unhealthy_without_prices() {
    let store = MarketPriceStore::new();
    let h = health_check_at(&store, "coingecko", T0);
    assert_eq!(h.status, HealthStatus::Unhealthy);
    assert_eq!(h.available_prices, 0);
    assert_eq!(h.stale_prices, vec!["SOL".to_string(), "BTC".to_string()]);
    assert_eq!(h.message.as_deref(), Some("Market price tracker has no available price data"));
    assert_eq!(h.name, "market_price_tracker");
    assert_eq!(h.provider_name, "coingecko");
    assert_eq!(h.last_checked_ms, T0);
}

#[test]
fn health_degraded_with_a_stale_enabled_asset() {
    let mut store = MarketPriceStore::new();
    store.update_price(Asset::SOL, price(Asset::SOL, 1, T0));
    let h = health_check_at(&store, "p", T0);
    assert_eq!(h.status, HealthStatus::Degraded);
    assert_eq!(h.available_prices, 1);
    assert_eq!(h.stale_prices, vec!["BTC".to_string()]);
    assert_eq!(h.message.as_deref(), Some("Market price tracker has 1 stale prices"));
}

#[test]
fn health_healthy_with_all_enabled_fresh() {
    let mut store = MarketPriceStore::new();
    for a in enabled_assets() {
        store.update_price(*a, price(*a, 1, T0));
    }
    store.update_price(Asset::ETH, price(Asset::ETH, 1, T0));
    let h = health_check_at(&store, "p", T0);
    assert_eq!(h.status, HealthStatus::Healthy);
    assert_eq!(h.available_prices, 3);
    assert!(h.stale_prices.is_empty());
    assert_eq!(h.message.as_deref(), Some("Market price tracker is operational with fresh data"));
}

#[test]
fn decimal_text_writes_numbers() {
    assert_eq!(decimal_text(0), "0");
    assert_eq!(decimal_text(7), "7");
    assert_eq!(decimal_text(1205), "1205");
    assert_eq!(decimal_text(u64::MAX), "18446744073709551615");
}

#[test]
fn provider_choice_ignores_case() {
    assert_eq!(provider_choice("HyperLiquid"), ProviderChoice::Hyperliquid);
    assert_eq!(provider_choice("COINGECKO"), ProviderChoice::CoinGecko);
    assert_eq!(provider_choice("Failover"), ProviderChoice::Failover);
    assert_eq!(provider_choice(""), ProviderChoice::Hermes);
    assert_eq!(provider_choice_of_lowered("HYPERLIQUID"), ProviderChoice::Hermes);
}
