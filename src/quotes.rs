//! The computing part of the pull providers (CoinGecko, Hyperliquid): the
//! request URL, what an HTTP status means, and turning a decoded response
//! (identifier to price text) into prices.

use crate::constants::{COINGECKO_API_URL, COINGECKO_SIMPLE_PRICE_ENDPOINT};
use crate::decimal::{denotes, parse_decimal};
use crate::error::ProviderError;
use crate::text::same_text;
use crate::types::{Asset, Price, PriceData, PriceDataView};
use vstd::prelude::*;

verus! {

/// Label of the CoinGecko provider.
pub const COINGECKO_NAME: &'static str = "coingecko";

/// Label of the Hyperliquid provider.
pub const HYPERLIQUID_NAME: &'static str = "hyperliquid";

/// The CoinGecko identifiers of `assets`, separated by commas.
pub open spec fn joined_ids(assets: Seq<Asset>) -> Seq<char>
    decreases assets.len(),
{
    if assets.len() == 0 {
        Seq::empty()
    } else if assets.len() == 1 {
        assets[0].spec_coingecko_id()
    } else {
        joined_ids(assets.drop_last()) + ","@ + assets.last().spec_coingecko_id()
    }
}

/// The CoinGecko simple-price URL for `assets`, priced in US dollars.
pub fn coingecko_url(assets: &[Asset]) -> (r: String)
    ensures
        r@ == COINGECKO_API_URL@ + COINGECKO_SIMPLE_PRICE_ENDPOINT@ + "?ids="@ + joined_ids(assets@)
            + "&vs_currencies=usd"@,
{
    let mut ids = String::new();
    let mut i: usize = 0;
    while i < assets.len()
        invariant
            i <= assets@.len(),
            ids@ == joined_ids(assets@.take(i as int)),
        decreases assets@.len() - i,
    {
        assert(assets@.take(i as int + 1).drop_last() =~= assets@.take(i as int));
        if i > 0 {
            ids.append(",");
        } else {
            assert(ids@ =~= Seq::<char>::empty());
        }
        ids.append(assets[i].coingecko_id());
        i = i + 1;
    }
    assert(assets@.take(i as int) =~= assets@);
    let mut url = COINGECKO_API_URL.to_owned();
    url.append(COINGECKO_SIMPLE_PRICE_ENDPOINT);
    url.append("?ids=");
    url.append(ids.as_str());
    url.append("&vs_currencies=usd");
    url
}

/// What an HTTP status code means for a price request.
#[derive(Debug, Clone, Copy, PartialEq, Eq, Structural)]
pub enum StatusClass {
    /// 2xx: read the body.
    Success,
    /// 429: the provider's rate limit.
    RateLimited,
    /// Any other status: an API error.
    Failed,
}

/// The meaning of HTTP status `code`.
pub fn classify_status(code: u16) -> (r: StatusClass)
    ensures
        code == 429 ==> r == StatusClass::RateLimited,
        200 <= code <= 299 ==> r == StatusClass::Success,
        code != 429 && !(200 <= code <= 299) ==> r == StatusClass::Failed,
{
    if code == 429 {
        StatusClass::RateLimited
    } else if 200 <= code && code <= 299 {
        StatusClass::Success
    } else {
        StatusClass::Failed
    }
}

/// The key a provider's response uses for `a`.
pub open spec fn quote_key(a: Asset, by_coingecko_id: bool) -> Seq<char> {
    if by_coingecko_id {
        a.spec_coingecko_id()
    } else {
        a.spec_symbol()
    }
}

/// The price text of the first quote of `quotes` under `key`.
pub open spec fn quote_for(quotes: Seq<(String, String)>, key: Seq<char>) -> Option<Seq<char>>
    decreases quotes.len(),
{
    if quotes.len() == 0 {
        None
    } else {
        let earlier = quote_for(quotes.drop_last(), key);
        if earlier is Some {
            earlier
        } else if quotes.last().0@ == key {
            Some(quotes.last().1@)
        } else {
            None
        }
    }
}

/// The text writes some `Price`.
pub open spec fn is_price_text(t: Seq<char>) -> bool {
    exists|p: Price| denotes(t, p)
}

/// Those of `assets` with a quote that writes a price, in order.
pub open spec fn quoted_assets(
    quotes: Seq<(String, String)>,
    assets: Seq<Asset>,
    by_coingecko_id: bool,
) -> Seq<Asset>
    decreases assets.len(),
{
    if assets.len() == 0 {
        Seq::empty()
    } else {
        let rest = quoted_assets(quotes, assets.drop_last(), by_coingecko_id);
        let q = quote_for(quotes, quote_key(assets.last(), by_coingecko_id));
        if q is Some && is_price_text(q->Some_0) {
            rest.push(assets.last())
        } else {
            rest
        }
    }
}

/// `r` holds, for each of `assets` in order with a quote that writes a price,
/// that price captured at `now_ms` with source `source`.
pub open spec fn is_quoted_prices(
    r: Seq<(Asset, PriceData)>,
    quotes: Seq<(String, String)>,
    assets: Seq<Asset>,
    by_coingecko_id: bool,
    source: Seq<char>,
    now_ms: i64,
) -> bool {
    &&& r.map_values(|e: (Asset, PriceData)| e.0) == quoted_assets(quotes, assets, by_coingecko_id)
    &&& forall|i: int|
        0 <= i < r.len() ==> {
            let a = #[trigger] r[i].0;
            let d = r[i].1@;
            &&& d.asset == a
            &&& denotes(quote_for(quotes, quote_key(a, by_coingecko_id))->Some_0, d.price_usd)
            &&& d.price_change_24h is None
            &&& d.last_updated_ms == now_ms
            &&& d.source == source
        }
}

fn find_quote(quotes: &Vec<(String, String)>, key: &str) -> (r: Option<usize>)
    ensures
        quote_for(quotes@, key@) is None ==> r is None,
        quote_for(quotes@, key@) is Some ==> (r matches Some(i) && i < quotes@.len() && quotes@[i as int].1@
            == quote_for(quotes@, key@)->Some_0),
{
    let mut i: usize = 0;
    while i < quotes.len()
        invariant
            i <= quotes@.len(),
            quote_for(quotes@.take(i as int), key@) is None,
        decreases quotes@.len() - i,
    {
        assert(quotes@.take(i as int + 1).drop_last() =~= quotes@.take(i as int));
        if same_text(quotes[i].0.as_str(), key) {
            proof {
                lemma_quote_extends(quotes@, i as int + 1, key@);
            }
            return Some(i);
        }
        i = i + 1;
    }
    assert(quotes@.take(i as int) =~= quotes@);
    None
}

proof fn lemma_quote_extends(q: Seq<(String, String)>, j: int, key: Seq<char>)
    requires
        0 <= j <= q.len(),
        quote_for(q.take(j), key) is Some,
    ensures
        quote_for(q, key) == quote_for(q.take(j), key),
    decreases q.len() - j,
{
    if j < q.len() {
        assert(q.take(j + 1).drop_last() =~= q.take(j));
        lemma_quote_extends(q, j + 1, key);
    } else {
        assert(q.take(j) =~= q);
    }
}

fn quoted_prices(
    quotes: &Vec<(String, String)>,
    assets: &[Asset],
    by_coingecko_id: bool,
    source: &str,
    now_ms: i64,
) -> (r: Vec<(Asset, PriceData)>)
    ensures
        is_quoted_prices(r@, quotes@, assets@, by_coingecko_id, source@, now_ms),
{
    let mut result: Vec<(Asset, PriceData)> = Vec::new();
    assert(result@.map_values(|e: (Asset, PriceData)| e.0) =~= quoted_assets(
        quotes@,
        assets@.take(0),
        by_coingecko_id,
    ));
    let mut i: usize = 0;
    while i < assets.len()
        invariant
            i <= assets@.len(),
            is_quoted_prices(result@, quotes@, assets@.take(i as int), by_coingecko_id, source@, now_ms),
        decreases assets@.len() - i,
    {
        let a = assets[i];
        assert(assets@.take(i as int + 1).drop_last() =~= assets@.take(i as int));
        assert(assets@.take(i as int + 1).last() == a);
        let key = if by_coingecko_id {
            a.coingecko_id()
        } else {
            a.hyperliquid_symbol()
        };
        let ghost prev = result@;
        match find_quote(quotes, key) {
            Some(j) => {
                match parse_decimal(quotes[j].1.as_str()) {
                    Some(p) => {
                        let d = PriceData::captured_at(a, p, None, source.to_owned(), now_ms);
                        result.push((a, d));
                        assert(result@.map_values(|e: (Asset, PriceData)| e.0) =~= prev.map_values(
                            |e: (Asset, PriceData)| e.0,
                        ).push(a));
                    },
                    None => {},
                }
            },
            None => {},
        }
        i = i + 1;
    }
    assert(assets@.take(i as int) =~= assets@);
    result
}

/// The prices of a decoded CoinGecko response (identifier to US dollar price
/// text), for `assets` in order, captured at `now_ms`. Assets without a
/// quote, or whose quote is not decimal text, are left out.
pub fn parse_coingecko_quotes(quotes: &Vec<(String, String)>, assets: &[Asset], now_ms: i64) -> (r: Vec<
    (Asset, PriceData),
>)
    ensures
        is_quoted_prices(r@, quotes@, assets@, true, COINGECKO_NAME@, now_ms),
{
    quoted_prices(quotes, assets, true, COINGECKO_NAME, now_ms)
}

/// The prices of a decoded Hyperliquid `allMids` response (symbol to mid
/// price text), for `assets` in order, captured at `now_ms`. Assets without a
/// quote, or whose quote is not decimal text, are left out.
pub fn parse_hyperliquid_quotes(quotes: &Vec<(String, String)>, assets: &[Asset], now_ms: i64) -> (r:
    Vec<(Asset, PriceData)>)
    ensures
        is_quoted_prices(r@, quotes@, assets@, false, HYPERLIQUID_NAME@, now_ms),
{
    quoted_prices(quotes, assets, false, HYPERLIQUID_NAME, now_ms)
}

/// The result of a batch fetch: its prices, or `InvalidResponse` when none
/// of the requested assets had one.
pub fn require_prices(prices: Vec<(Asset, PriceData)>, provider_label: &str) -> (r: Result<
    Vec<(Asset, PriceData)>,
    ProviderError,
>)
    ensures
        prices@.len() > 0 ==> r == Ok::<Vec<(Asset, PriceData)>, ProviderError>(prices),
        prices@.len() == 0 ==> (r matches Err(ProviderError::InvalidResponse(m)) && m@
            == "No prices returned from "@ + provider_label@),
{
    if prices.len() == 0 {
        let mut m = "No prices returned from ".to_owned();
        m.append(provider_label);
        Err(ProviderError::InvalidResponse(m))
    } else {
        Ok(prices)
    }
}

/// The price of `asset` in a batch result: its first entry, or
/// `UnsupportedAsset` with the asset's symbol when it has none.
pub fn price_for(prices: &Vec<(Asset, PriceData)>, asset: Asset) -> (r: Result<PriceData, ProviderError>)
    ensures
        (exists|i: int| 0 <= i < prices@.len() && prices@[i].0 == asset) ==> (r matches Ok(p) && exists|
            i: int,
        |
            0 <= i < prices@.len() && prices@[i].0 == asset && p@ == prices@[i].1@ && forall|j: int|
                0 <= j < i ==> prices@[j].0 != asset),
        !(exists|i: int| 0 <= i < prices@.len() && prices@[i].0 == asset) ==> (r matches Err(
            ProviderError::UnsupportedAsset(s),
        ) && s@ == asset.spec_symbol()),
{
    let mut i: usize = 0;
    while i < prices.len()
        invariant
            i <= prices@.len(),
            forall|j: int| 0 <= j < i ==> prices@[j].0 != asset,
        decreases prices@.len() - i,
    {
        if prices[i].0 == asset {
            return Ok(prices[i].1.clone());
        }
        i = i + 1;
    }
    Err(ProviderError::UnsupportedAsset(asset.symbol().to_owned()))
}


/// The request is worth making: some asset is asked for.
pub fn needs_request(assets: &[Asset]) -> (r: bool)
    ensures
        r == (assets@.len() > 0),
{
    assets.len() > 0
}

/// `r` is the result of a batch fetch for `assets` from a provider that keys
/// its quotes as `by_coingecko_id` says, given the reply's status `status`,
/// the error text `error_text` built from it, and the decoded body `decoded`
/// (or the decoder's message), at `now_ms`.
pub open spec fn is_fetch_result(
    r: Result<Vec<(Asset, PriceData)>, ProviderError>,
    assets: Seq<Asset>,
    by_coingecko_id: bool,
    label: Seq<char>,
    source: Seq<char>,
    status: u16,
    error_text: Seq<char>,
    decoded: Result<Vec<(String, String)>, String>,
    now_ms: i64,
) -> bool {
    if assets.len() == 0 {
        r matches Ok(v) && v@.len() == 0
    } else if status == 429 {
        r matches Err(ProviderError::RateLimitExceeded)
    } else if !(200 <= status <= 299) {
        r matches Err(ProviderError::ApiError(m)) && m@ == error_text
    } else {
        match decoded {
            Err(d) => r matches Err(ProviderError::InvalidResponse(m)) && m@ == d@,
            Ok(q) => if quoted_assets(q@, assets, by_coingecko_id).len() > 0 {
                r matches Ok(v) && is_quoted_prices(v@, q@, assets, by_coingecko_id, source, now_ms)
            } else {
                r matches Err(ProviderError::InvalidResponse(m)) && m@ == "No prices returned from "@
                    + label
            },
        }
    }
}

proof fn lemma_quoted_len(r: Seq<(Asset, PriceData)>, q: Seq<(String, String)>, assets: Seq<Asset>, by_coingecko_id: bool, source: Seq<char>, now_ms: i64)
    requires
        is_quoted_prices(r, q, assets, by_coingecko_id, source, now_ms),
    ensures
        r.len() == quoted_assets(q, assets, by_coingecko_id).len(),
{
    assert(r.map_values(|e: (Asset, PriceData)| e.0).len() == r.len());
}

fn fetch_result(
    assets: &[Asset],
    by_coingecko_id: bool,
    label: &str,
    source: &str,
    status: u16,
    error_text: String,
    decoded: Result<Vec<(String, String)>, String>,
    now_ms: i64,
) -> (r: Result<Vec<(Asset, PriceData)>, ProviderError>)
    ensures
        is_fetch_result(r, assets@, by_coingecko_id, label@, source@, status, error_text@, decoded, now_ms),
{
    if !needs_request(assets) {
        return Ok(Vec::new());
    }
    match classify_status(status) {
        StatusClass::RateLimited => Err(ProviderError::RateLimitExceeded),
        StatusClass::Failed => Err(ProviderError::ApiError(error_text)),
        StatusClass::Success => match decoded {
            Err(d) => Err(ProviderError::InvalidResponse(d)),
            Ok(q) => {
                let prices = quoted_prices(&q, assets, by_coingecko_id, source, now_ms);
                proof {
                    lemma_quoted_len(prices@, q@, assets@, by_coingecko_id, source@, now_ms);
                }
                require_prices(prices, label)
            },
        },
    }
}

/// The result of a CoinGecko batch fetch for `assets`: nothing asked gives
/// nothing; status 429 is the rate limit; another non-2xx status is an API
/// error with `error_text`; an undecodable body is an invalid response with
/// the decoder's message; else the quoted prices, or an invalid response
/// when none of the assets has one.
pub fn coingecko_fetch_result(
    assets: &[Asset],
    status: u16,
    error_text: String,
    decoded: Result<Vec<(String, String)>, String>,
    now_ms: i64,
) -> (r: Result<Vec<(Asset, PriceData)>, ProviderError>)
    ensures
        is_fetch_result(r, assets@, true, "CoinGecko"@, COINGECKO_NAME@, status, error_text@, decoded, now_ms),
{
    fetch_result(assets, true, "CoinGecko", COINGECKO_NAME, status, error_text, decoded, now_ms)
}

/// The result of a Hyperliquid `allMids` fetch for `assets`, decided as
/// `coingecko_fetch_result` decides, with quotes keyed by symbol.
pub fn hyperliquid_fetch_result(
    assets: &[Asset],
    status: u16,
    error_text: String,
    decoded: Result<Vec<(String, String)>, String>,
    now_ms: i64,
) -> (r: Result<Vec<(Asset, PriceData)>, ProviderError>)
    ensures
        is_fetch_result(r, assets@, false, "Hyperliquid"@, HYPERLIQUID_NAME@, status, error_text@, decoded, now_ms),
{
    fetch_result(assets, false, "Hyperliquid", HYPERLIQUID_NAME, status, error_text, decoded, now_ms)
}

} // verus!
