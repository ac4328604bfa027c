use market_price_sdk::constants::STALE_THRESHOLD_SECS;
use market_price_sdk::store::MarketPriceStore;
use market_price_sdk::{Asset, Price, PriceData, PriceError};

const T0: i64 = 1_700_000_000_000;

fn price(asset: Asset, mantissa: i64, at_ms: i64) -> PriceData {
    PriceData::captured_at(asset, Price::new(mantissa, -2), None, "test".to_string(), at_ms)
}

#[test]
fn never_written_is_not_available() {
    let store = MarketPriceStore::new();
    for a in Asset::all() {
        match store.get_price_at(*a, T0) {
            Err(PriceError::NotAvailable { asset }) => assert_eq!(asset, a.symbol()),
            other => panic!("unexpected {:?}", other),
        }
        assert!(!store.has_price(*a));
        assert!(store.is_stale_at(*a, T0));
    }
}

#[test]
fn written_price_is_returned_until_stale() {
    let mut store = MarketPriceStore::new();
    store.update_price(Asset::SOL, price(Asset::SOL, 14_250, T0));
    let got = store.get_price_at(Asset::SOL, T0 + 1_000).unwrap();
    assert_eq!(got.price_usd, Price::new(14_250, -2));
    assert_eq!(got.last_updated_ms, T0);
    assert_eq!(got.source, "test");
    // Exactly at the threshold the price is still fresh.
    let at_limit = T0 + (STALE_THRESHOLD_SECS as i64) * 1000 + 999;
    assert!(store.get_price_at(Asset::SOL, at_limit).is_ok());
    // One second more and it is stale, with its age.
    let later = T0 + 301_000;
    match store.get_price_at(Asset::SOL, later) {
        Err(PriceError::Stale { asset, age_secs }) => {
            assert_eq!(asset, "SOL");
            assert_eq!(age_secs, 301);
        }
        other => panic!("unexpected {:?}", other),
    }
    assert!(store.has_price(Asset::SOL));
    assert!(store.is_stale_at(Asset::SOL, later));
}

#[test]
fn overwrite_replaces_unconditionally() {
    let mut store = MarketPriceStore::new();
    store.update_price(Asset::BTC, price(Asset::BTC, 100, T0));
    // An older capture still replaces the newer one.
    store.update_price(Asset::BTC, price(Asset::BTC, 200, T0 - 5_000));
    let got = store.get_price_at(Asset::BTC, T0).unwrap();
    assert_eq!(got.price_usd.mantissa, 200);
}

#[test]
fn get_all_prices_returns_exactly_the_fresh_ones() {
    let mut store = MarketPriceStore::new();
    store.update_prices(vec![
        (Asset::ETH, price(Asset::ETH, 3, T0)),
        (Asset::SOL, price(Asset::SOL, 1, T0)),
        (Asset::USDC, price(Asset::USDC, 2, T0)),
    ]);
    let all = store.get_all_prices_at(T0);
    let assets: Vec<Asset> = all.iter().map(|(a, _)| *a).collect();
    assert_eq!(assets, vec![Asset::SOL, Asset::ETH, Asset::USDC]);
    assert_eq!(all[1].1.price_usd.mantissa, 3);
}

#[test]
fn get_all_prices_skips_stale_and_absent() {
    let mut store = MarketPriceStore::new();
    store.update_price(Asset::SOL, price(Asset::SOL, 1, T0 - 400_000));
    store.update_price(Asset::BTC, price(Asset::BTC, 2, T0));
    let all = store.get_all_prices_at(T0);
    assert_eq!(all.len(), 1);
    assert_eq!(all[0].0, Asset::BTC);
    assert!(store.is_stale_at(Asset::SOL, T0));
    assert!(!store.is_stale_at(Asset::BTC, T0));
}

#[test]
fn batch_later_entry_wins() {
    let mut store = MarketPriceStore::new();
    store.update_prices(vec![
        (Asset::SOL, price(Asset::SOL, 1, T0)),
        (Asset::SOL, price(Asset::SOL, 2, T0)),
    ]);
    assert_eq!(store.get_price_at(Asset::SOL, T0).unwrap().price_usd.mantissa, 2);
}

#[test]
fn updates_of_two_assets_in_either_order() {
    let mut a = MarketPriceStore::new();
    a.update_price(Asset::SOL, price(Asset::SOL, 1, T0));
    a.update_price(Asset::BTC, price(Asset::BTC, 2, T0));
    let mut b = MarketPriceStore::new();
    b.update_price(Asset::BTC, price(Asset::BTC, 2, T0));
    b.update_price(Asset::SOL, price(Asset::SOL, 1, T0));
    for s in [&a, &b] {
        assert_eq!(s.get_price_at(Asset::SOL, T0).unwrap().price_usd.mantissa, 1);
        assert_eq!(s.get_price_at(Asset::BTC, T0).unwrap().price_usd.mantissa, 2);
    }
}

#[test]
fn future_capture_is_fresh_with_zero_age() {
    let p = price(Asset::SOL, 1, T0 + 10_000);
    assert!(!p.is_stale_at(0, T0));
    assert_eq!(p.age_at(T0), 0);
    assert_eq!(p.age_at(T0 + 12_500), 2);
    assert!(p.is_stale_at(1, T0 + 12_000));
}

#[test]
fn clock_based_reads_on_a_fresh_price() {
    let mut store = MarketPriceStore::default();
    let p = PriceData::new(Asset::ETH, Price::new(1, 0), "live".to_string());
    assert!(!p.is_stale(STALE_THRESHOLD_SECS));
    assert!(p.age() < 5);
    store.update_price(Asset::ETH, p);
    assert!(store.get_price(Asset::ETH).is_ok());
    assert!(!store.is_stale(Asset::ETH));
    assert_eq!(store.get_all_prices().len(), 1);
}

#[test]
fn price_with_change_keeps_it() {
    let p = PriceData::with_change(Asset::BTC, Price::new(5, 0), Some(Price::new(-12, -1)), "x".to_string());
    assert_eq!(p.price_change_24h, Some(Price::new(-12, -1)));
    let q = p.clone();
    assert_eq!(q.source, "x");
    assert_eq!(q.price_usd, Price::new(5, 0));
}

#[test]
fn error_constructors() {
    match PriceError::not_available("SOL") {
        PriceError::NotAvailable { asset } => assert_eq!(asset, "SOL"),
        e => panic!("{:?}", e),
    }
    match PriceError::stale("BTC", 7) {
        PriceError::Stale { asset, age_secs } => {
            assert_eq!(asset, "BTC");
            assert_eq!(age_secs, 7);
        }
        e => panic!("{:?}", e),
    }
    match PriceError::provider_failure("down".to_string()) {
        PriceError::ProviderFailure(m) => assert_eq!(m, "down"),
        e => panic!("{:?}", e),
    }
    match PriceError::internal("oops".to_string()) {
        PriceError::Internal(m) => assert_eq!(m, "oops"),
        e => panic!("{:?}", e),
    }
}

#[test]
fn asset_tables() {
    assert_eq!(Asset::all().len(), 7);
    assert_eq!(Asset::WBTC.symbol(), "WBTC");
    assert_eq!(Asset::USDC.coingecko_id(), "usd-coin");
    assert_eq!(Asset::WBTC.coingecko_id(), "wrapped-bitcoin");
    assert_eq!(Asset::ETH.hyperliquid_symbol(), "ETH");
    assert_eq!(Asset::SOL.stale_threshold_secs(), 120);
    assert_eq!(Asset::WETH.stale_threshold_secs(), 180);
    assert_eq!(Asset::USDT.stale_threshold_secs(), 300);
    assert!(Asset::WETH.pyth_feed_id().is_none());
    assert!(Asset::SOL.pyth_feed_id().unwrap().starts_with("0x"));
}
