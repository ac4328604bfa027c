use market_price_sdk::decimal::parse_decimal;
use market_price_sdk::error::ProviderError;
use market_price_sdk::hermes::{carries_prices, feed_asset, hermes_stream_url, HermesIngest, HermesUpdate, HERMES_NAME};
use market_price_sdk::quotes::{
    classify_status, coingecko_fetch_result, coingecko_url, hyperliquid_fetch_result, needs_request, parse_coingecko_quotes, parse_hyperliquid_quotes, price_for,
    require_prices, StatusClass,
};
use market_price_sdk::{Asset, Price};

const T0: i64 = 1_700_000_000_000;

fn quotes(pairs: &[(&str, &str)]) -> Vec<(String, String)> {
    pairs.iter().map(|(k, v)| (k.to_string(), v.to_string())).collect()
}

#[test]
fn decimal_text_forms() {
    assert_eq!(parse_decimal("142.35"), Some(Price::new(14235, -2)));
    assert_eq!(parse_decimal("-0.5"), Some(Price::new(-5, -1)));
    assert_eq!(parse_decimal("6400512"), Some(Price::new(6400512, 0)));
    assert_eq!(parse_decimal("007"), Some(Price::new(7, 0)));
    assert_eq!(parse_decimal("-9223372036854775808"), Some(Price::new(i64::MIN, 0)));
    assert_eq!(parse_decimal("9223372036854775807"), Some(Price::new(i64::MAX, 0)));
}

#[test]
fn decimal_text_rejects() {
    for bad in ["", "-", ".5", "5.", "1.2.3", "1e5", "+1", " 1", "12a", "9223372036854775808", "99999999999999999999.1"] {
        assert_eq!(parse_decimal(bad), None, "{bad}");
    }
}

#[test]
fn coingecko_url_lists_ids() {
    assert_eq!(
        coingecko_url(&[Asset::SOL, Asset::BTC]),
        "https://api.coingecko.com/api/v3/simple/price?ids=solana,bitcoin&vs_currencies=usd"
    );
    assert_eq!(
        coingecko_url(&[]),
        "https://api.coingecko.com/api/v3/simple/price?ids=&vs_currencies=usd"
    );
}

#[test]
fn http_status_classes() {
    assert_eq!(classify_status(200), StatusClass::Success);
    assert_eq!(classify_status(204), StatusClass::Success);
    assert_eq!(classify_status(429), StatusClass::RateLimited);
    assert_eq!(classify_status(500), StatusClass::Failed);
    assert_eq!(classify_status(301), StatusClass::Failed);
}

#[test]
fn coingecko_quotes_in_asset_order() {
    let q = quotes(&[("bitcoin", "64000.5"), ("solana", "142.1"), ("tether", "oops")]);
    let r = parse_coingecko_quotes(&q, &[Asset::SOL, Asset::ETH, Asset::BTC, Asset::USDT], T0);
    assert_eq!(r.len(), 2);
    assert_eq!(r[0].0, Asset::SOL);
    assert_eq!(r[0].1.price_usd, Price::new(1421, -1));
    assert_eq!(r[0].1.source, "coingecko");
    assert_eq!(r[0].1.last_updated_ms, T0);
    assert_eq!(r[1].0, Asset::BTC);
    assert_eq!(r[1].1.price_usd, Price::new(640005, -1));
}

#[test]
fn hyperliquid_quotes_by_symbol() {
    let q = quotes(&[("SOL", "150.25"), ("solana", "1")]);
    let r = parse_hyperliquid_quotes(&q, &[Asset::SOL, Asset::BTC], T0);
    assert_eq!(r.len(), 1);
    assert_eq!(r[0].1.price_usd, Price::new(15025, -2));
    assert_eq!(r[0].1.source, "hyperliquid");
}

#[test]
fn empty_batch_is_invalid_response() {
    match require_prices(Vec::new(), "CoinGecko") {
        Err(ProviderError::InvalidResponse(m)) => assert_eq!(m, "No prices returned from CoinGecko"),
        other => panic!("{:?}", other),
    }
    let q = quotes(&[("SOL", "1")]);
    let r = parse_hyperliquid_quotes(&q, &[Asset::SOL], T0);
    assert_eq!(require_prices(r, "Hyperliquid").unwrap().len(), 1);
}

#[test]
fn single_price_from_batch() {
    let q = quotes(&[("SOL", "2")]);
    let r = parse_hyperliquid_quotes(&q, &[Asset::SOL], T0);
    assert_eq!(price_for(&r, Asset::SOL).unwrap().price_usd, Price::new(2, 0));
    match price_for(&r, Asset::BTC) {
        Err(ProviderError::UnsupportedAsset(s)) => assert_eq!(s, "BTC"),
        other => panic!("{:?}", other),
    }
}

#[test]
fn feed_ids_match_with_or_without_prefix() {
    let sol = Asset::SOL.pyth_feed_id().unwrap();
    assert_eq!(feed_asset(sol), Some(Asset::SOL));
    assert_eq!(feed_asset(&sol[2..]), Some(Asset::SOL));
    assert_eq!(feed_asset("0x1234"), None);
    assert_eq!(feed_asset(""), None);
}

#[test]
fn stream_url_asks_for_every_feed() {
    let url = hermes_stream_url();
    assert!(url.starts_with("https://hermes.pyth.network/v2/updates/price/stream?ids[]=0x"));
    assert_eq!(url.matches("ids[]=").count(), 5);
    assert!(!url.ends_with('&'));
    assert!(url.contains(Asset::BTC.pyth_feed_id().unwrap()));
}

fn update(asset: Asset, price: &str, expo: i32) -> HermesUpdate {
    let id = asset.pyth_feed_id().unwrap()[2..].to_string();
    HermesUpdate { id, price: price.to_string(), expo }
}

#[test]
fn stream_event_updates_local_cache() {
    let mut ingest = HermesIngest::new();
    assert!(matches!(ingest.fetch_price(Asset::SOL), Err(ProviderError::UnsupportedAsset(_))));
    let updates = vec![
        update(Asset::SOL, "14234567890", -8),
        HermesUpdate { id: "ffff".to_string(), price: "1".to_string(), expo: 0 },
        update(Asset::BTC, "not a number", -8),
        update(Asset::ETH, "350012", -2),
    ];
    let out = ingest.apply_event("price_update", &updates, T0);
    assert_eq!(out.len(), 2);
    assert_eq!(out[0].asset, Asset::SOL);
    assert_eq!(out[0].price_usd, Price::new(14234567890, -8));
    assert_eq!(out[0].source, HERMES_NAME);
    assert_eq!(out[1].asset, Asset::ETH);
    let sol = ingest.fetch_price(Asset::SOL).unwrap();
    assert_eq!(sol.price_usd, Price::new(14234567890, -8));
    match ingest.fetch_price(Asset::BTC) {
        Err(ProviderError::UnsupportedAsset(m)) => assert_eq!(m, "Price not available for BTC"),
        other => panic!("{:?}", other),
    }
    let batch = ingest.fetch_prices(&[Asset::BTC, Asset::ETH, Asset::SOL]).unwrap();
    let assets: Vec<Asset> = batch.iter().map(|(a, _)| *a).collect();
    assert_eq!(assets, vec![Asset::ETH, Asset::SOL]);
}

#[test]
fn other_stream_events_are_ignored() {
    let mut ingest = HermesIngest::new();
    let out = ingest.apply_event("heartbeat", &vec![update(Asset::SOL, "1", 0)], T0);
    assert!(out.is_empty());
    match ingest.fetch_prices(&[Asset::SOL]) {
        Err(ProviderError::UnsupportedAsset(m)) => assert_eq!(m, "No prices available in cache yet"),
        other => panic!("{:?}", other),
    }
    let out = ingest.apply_event("message", &vec![update(Asset::USDC, "99990000", -8)], T0);
    assert_eq!(out.len(), 1);
}

#[test]
fn update_with_overflowing_exponent_is_skipped() {
    let u = update(Asset::SOL, "1.5", i32::MIN);
    assert!(HermesIngest::record_of(&u, T0).is_none());
    let u = update(Asset::SOL, "1.5", 3);
    assert_eq!(HermesIngest::record_of(&u, T0).unwrap().price_usd, Price::new(15, 2));
}

#[test]
fn fetch_result_for_no_assets_is_empty() {
    assert!(!needs_request(&[]));
    assert!(needs_request(&[Asset::SOL]));
    let r = coingecko_fetch_result(&[], 500, "HTTP 500".to_string(), Err("x".to_string()), T0);
    assert!(r.unwrap().is_empty());
    let r = hyperliquid_fetch_result(&[], 429, String::new(), Ok(Vec::new()), T0);
    assert!(r.unwrap().is_empty());
}

#[test]
fn fetch_result_maps_statuses() {
    let ok = quotes(&[("solana", "1")]);
    match coingecko_fetch_result(&[Asset::SOL], 429, "HTTP 429".to_string(), Ok(ok.clone()), T0) {
        Err(ProviderError::RateLimitExceeded) => {}
        other => panic!("{:?}", other),
    }
    match coingecko_fetch_result(&[Asset::SOL], 503, "HTTP 503: down".to_string(), Ok(ok.clone()), T0) {
        Err(ProviderError::ApiError(m)) => assert_eq!(m, "HTTP 503: down"),
        other => panic!("{:?}", other),
    }
    match hyperliquid_fetch_result(&[Asset::SOL], 200, String::new(), Err("not json".to_string()), T0) {
        Err(ProviderError::InvalidResponse(m)) => assert_eq!(m, "not json"),
        other => panic!("{:?}", other),
    }
}

#[test]
fn fetch_result_parses_or_reports_empty() {
    let q = quotes(&[("solana", "142.5"), ("bitcoin", "x")]);
    let r = coingecko_fetch_result(&[Asset::SOL, Asset::BTC], 200, String::new(), Ok(q), T0).unwrap();
    assert_eq!(r.len(), 1);
    assert_eq!(r[0].1.price_usd, Price::new(1425, -1));
    assert_eq!(r[0].1.source, "coingecko");
    let q = quotes(&[("ETH", "3")]);
    match hyperliquid_fetch_result(&[Asset::SOL], 200, String::new(), Ok(q), T0) {
        Err(ProviderError::InvalidResponse(m)) => assert_eq!(m, "No prices returned from Hyperliquid"),
        other => panic!("{:?}", other),
    }
}

#[test]
fn price_event_types() {
    assert!(carries_prices("price_update"));
    assert!(carries_prices("message"));
    assert!(!carries_prices("heartbeat"));
}
