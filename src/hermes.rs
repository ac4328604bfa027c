//! Ingestion of the Pyth Hermes price stream: the stream URL, matching feed
//! identifiers to assets, and applying each event's updates to the
//! provider's own cache. Each update carries an integer price text and a
//! base-ten exponent: the price is `value * 10^exponent`.
//!
//! The connection, its event framing and JSON decoding are done by the
//! caller, which hands over each event's type and decoded updates.

use crate::constants::HERMES_STREAM_URL;
use crate::decimal::{decimal_of, parse_decimal};
use crate::error::ProviderError;
use crate::text::same_text;
use crate::store::{fresh_in, MarketPriceStore};
use crate::types::{Asset, Price, PriceData, PriceDataView, ASSET_COUNT};
use vstd::prelude::*;

verus! {

/// Label of the streaming provider.
pub const HERMES_NAME: &'static str = "hermes-sse";

/// One decoded price update of a stream event.
#[derive(Debug, Clone)]
pub struct HermesUpdate {
    /// The feed identifier, with or without its `0x` prefix.
    pub id: String,
    /// The integer price value, as text.
    pub price: String,
    /// The base-ten exponent of the value.
    pub expo: i32,
}

/// `s` without a leading `0x`.
pub open spec fn without_0x(s: Seq<char>) -> Seq<char> {
    if s.len() >= 2 && s[0] == '0' && s[1] == 'x' {
        s.skip(2)
    } else {
        s
    }
}

/// The feed `id` is that of `a`, prefixes aside.
pub open spec fn feed_matches(id: Seq<char>, a: Asset) -> bool {
    a.spec_pyth_feed_id() matches Some(f) && without_0x(id) == without_0x(f)
}

/// The first asset, in canonical order from position `from`, whose feed is `id`.
pub open spec fn feed_asset_from(id: Seq<char>, from: nat) -> Option<Asset>
    decreases ASSET_COUNT - from,
{
    if from >= ASSET_COUNT {
        None
    } else if feed_matches(id, Asset::spec_at(from)) {
        Some(Asset::spec_at(from))
    } else {
        feed_asset_from(id, from + 1)
    }
}

/// The asset whose feed is `id`, if any.
pub open spec fn feed_asset_of(id: Seq<char>) -> Option<Asset> {
    feed_asset_from(id, 0)
}

/// The `ids[]` query parameters of the feeds of `assets`, in order.
pub open spec fn feed_params(assets: Seq<Asset>) -> Seq<Seq<char>>
    decreases assets.len(),
{
    if assets.len() == 0 {
        Seq::empty()
    } else {
        let rest = feed_params(assets.drop_last());
        match assets.last().spec_pyth_feed_id() {
            Some(f) => rest.push("ids[]="@ + f),
            None => rest,
        }
    }
}

/// `params` joined with `&`.
pub open spec fn join_params(params: Seq<Seq<char>>) -> Seq<char>
    decreases params.len(),
{
    if params.len() == 0 {
        Seq::empty()
    } else if params.len() == 1 {
        params[0]
    } else {
        join_params(params.drop_last()) + "&"@ + params.last()
    }
}

/// The stream URL that asks for the feeds of every asset that has one.
pub fn hermes_stream_url() -> (r: String)
    ensures
        r@ == HERMES_STREAM_URL@ + "?"@ + join_params(feed_params(Asset::spec_all())),
{
    let all = Asset::all();
    let mut query = String::new();
    let mut any = false;
    let mut i: usize = 0;
    while i < all.len()
        invariant
            all@ == Asset::spec_all(),
            i <= all@.len(),
            query@ == join_params(feed_params(all@.take(i as int))),
            any == (feed_params(all@.take(i as int)).len() > 0),
        decreases all@.len() - i,
    {
        assert(all@.take(i as int + 1).drop_last() =~= all@.take(i as int));
        match all[i].pyth_feed_id() {
            Some(f) => {
                if any {
                    query.append("&");
                } else {
                    assert(query@ =~= Seq::<char>::empty());
                }
                query.append("ids[]=");
                query.append(f);
                proof {
                    reveal_strlit("ids[]=");
                    let ps = feed_params(all@.take(i as int + 1));
                    assert(ps.drop_last() == feed_params(all@.take(i as int)));
                }
                assert(query@ =~= join_params(feed_params(all@.take(i as int + 1))));
                any = true;
            },
            None => {},
        }
        i = i + 1;
    }
    assert(all@.take(i as int) =~= all@);
    let mut url = HERMES_STREAM_URL.to_owned();
    url.append("?");
    url.append(query.as_str());
    url
}

fn strip_0x(s: &str) -> (r: &str)
    ensures
        r@ == without_0x(s@),
{
    let n = s.unicode_len();
    if n >= 2 && s.get_char(0) == '0' && s.get_char(1) == 'x' {
        s.substring_char(2, n)
    } else {
        s
    }
}

/// The asset whose Pyth feed is `id`; a leading `0x` on either side is
/// ignored.
pub fn feed_asset(id: &str) -> (r: Option<Asset>)
    ensures
        r == feed_asset_of(id@),
{
    let all = Asset::all();
    let bare = strip_0x(id);
    let mut i: usize = ASSET_COUNT;
    let mut found: Option<Asset> = None;
    // From the last asset back, so that the first match wins.
    while i > 0
        invariant
            all@ == Asset::spec_all(),
            i <= ASSET_COUNT,
            bare@ == without_0x(id@),
            found == feed_asset_from(id@, i as nat),
        decreases i,
    {
        i = i - 1;
        let a = all[i];
        match a.pyth_feed_id() {
            Some(f) => {
                if same_text(bare, strip_0x(f)) {
                    found = Some(a);
                }
            },
            None => {},
        }
    }
    found
}

/// The price record an update gives at `now_ms`: for a known feed and an
/// integer (or decimal) price text whose combined exponent fits.
pub open spec fn update_record(id: Seq<char>, price: Seq<char>, expo: i32, now_ms: i64) -> Option<
    PriceDataView,
> {
    match (feed_asset_of(id), decimal_of(price)) {
        (Some(a), Some(p)) => {
            let e = p.exponent + expo;
            if i32::MIN <= e <= i32::MAX {
                Some(
                    PriceDataView {
                        asset: a,
                        price_usd: Price { mantissa: p.mantissa, exponent: e as i32 },
                        price_change_24h: None,
                        last_updated_ms: now_ms,
                        source: HERMES_NAME@,
                    },
                )
            } else {
                None
            }
        },
        _ => None,
    }
}

/// The cache after the updates `us` at `now_ms`, in order.
pub open spec fn after_updates(
    m: Map<Asset, PriceDataView>,
    us: Seq<HermesUpdate>,
    now_ms: i64,
) -> Map<Asset, PriceDataView>
    decreases us.len(),
{
    if us.len() == 0 {
        m
    } else {
        let before = after_updates(m, us.drop_last(), now_ms);
        match update_record(us.last().id@, us.last().price@, us.last().expo, now_ms) {
            Some(d) => before.insert(d.asset, d),
            None => before,
        }
    }
}

/// The records the updates `us` give, in order.
pub open spec fn update_records(us: Seq<HermesUpdate>, now_ms: i64) -> Seq<PriceDataView>
    decreases us.len(),
{
    if us.len() == 0 {
        Seq::empty()
    } else {
        let before = update_records(us.drop_last(), now_ms);
        match update_record(us.last().id@, us.last().price@, us.last().expo, now_ms) {
            Some(d) => before.push(d),
            None => before,
        }
    }
}

/// The event types that carry price updates.
pub open spec fn is_price_event(event_type: Seq<char>) -> bool {
    event_type == "price_update"@ || event_type == "message"@
}

/// The event type is one that carries price updates.
pub fn carries_prices(event_type: &str) -> (r: bool)
    ensures
        r == is_price_event(event_type@),
{
    same_text(event_type, "price_update") || same_text(event_type, "message")
}

/// The streaming provider's own cache, fed by stream events and read by its
/// fetches.
pub struct HermesIngest {
    prices: MarketPriceStore,
}

impl HermesIngest {
    pub closed spec fn wf(&self) -> bool {
        self.prices.wf()
    }

    /// The latest streamed price of each asset.
    pub closed spec fn view(&self) -> Map<Asset, PriceDataView> {
        self.prices.view()
    }

    /// An empty cache.
    pub fn new() -> (r: HermesIngest)
        ensures
            r.wf(),
            r.view() == Map::<Asset, PriceDataView>::empty(),
    {
        HermesIngest { prices: MarketPriceStore::new() }
    }

    /// The price record of one update at `now_ms`, if it gives one.
    pub fn record_of(update: &HermesUpdate, now_ms: i64) -> (r: Option<PriceData>)
        ensures
            r matches Some(d) ==> update_record(update.id@, update.price@, update.expo, now_ms) == Some(d@),
            r is None ==> update_record(update.id@, update.price@, update.expo, now_ms) is None,
    {
        let asset = feed_asset(update.id.as_str());
        let value = parse_decimal(update.price.as_str());
        match (asset, value) {
            (Some(a), Some(p)) => {
                let e: i64 = p.exponent as i64 + update.expo as i64;
                if e < i32::MIN as i64 || e > i32::MAX as i64 {
                    None
                } else {
                    let price = Price { mantissa: p.mantissa, exponent: e as i32 };
                    Some(PriceData::captured_at(a, price, None, HERMES_NAME.to_owned(), now_ms))
                }
            },
            _ => None,
        }
    }

    /// Applies the updates of one stream event at `now_ms`: for an event of
    /// a price type, each update with a known feed and a readable price
    /// replaces that asset's cached price; other events change nothing. The
    /// new records are returned in order, for the shared cache and the
    /// subscribers.
    pub fn apply_event(&mut self, event_type: &str, updates: &Vec<HermesUpdate>, now_ms: i64) -> (r:
        Vec<PriceData>)
        requires
            old(self).wf(),
        ensures
            final(self).wf(),
            is_price_event(event_type@) ==> final(self).view() == after_updates(
                old(self).view(),
                updates@,
                now_ms,
            ) && r@.map_values(|d: PriceData| d@) == update_records(updates@, now_ms),
            !is_price_event(event_type@) ==> final(self).view() == old(self).view() && r@.len() == 0,
    {
        let mut out: Vec<PriceData> = Vec::new();
        if !carries_prices(event_type) {
            return out;
        }
        let ghost start = self.view();
        let mut i: usize = 0;
        assert(out@.map_values(|d: PriceData| d@) =~= update_records(updates@.take(0), now_ms));
        while i < updates.len()
            invariant
                self.wf(),
                i <= updates@.len(),
                self.view() == after_updates(start, updates@.take(i as int), now_ms),
                out@.map_values(|d: PriceData| d@) == update_records(updates@.take(i as int), now_ms),
            decreases updates@.len() - i,
        {
            assert(updates@.take(i as int + 1).drop_last() =~= updates@.take(i as int));
            let ghost before = out@;
            match HermesIngest::record_of(&updates[i], now_ms) {
                Some(d) => {
                    self.prices.update_price(d.asset, d.clone());
                    out.push(d);
                    assert(out@.map_values(|d: PriceData| d@) =~= before.map_values(|d: PriceData| d@).push(
                        out@.last()@,
                    ));
                },
                None => {},
            }
            i = i + 1;
        }
        assert(updates@.take(i as int) =~= updates@);
        out
    }

    /// The cached price of `asset`, fresh or not, or `UnsupportedAsset` when
    /// the stream has not delivered one yet.
    pub fn fetch_price(&self, asset: Asset) -> (r: Result<PriceData, ProviderError>)
        requires
            self.wf(),
        ensures
            self.view().contains_key(asset) ==> (r matches Ok(p) && p@ == self.view()[asset]),
            !self.view().contains_key(asset) ==> (r matches Err(ProviderError::UnsupportedAsset(m))
                && m@ == "Price not available for "@ + asset.spec_symbol()),
    {
        match self.prices.latest(asset) {
            Some(p) => Ok(p),
            None => {
                let mut m = "Price not available for ".to_owned();
                m.append(asset.symbol());
                Err(ProviderError::UnsupportedAsset(m))
            },
        }
    }

    /// The cached prices of those of `assets` the stream has delivered, in
    /// order, or `UnsupportedAsset` when it has delivered none of them.
    pub fn fetch_prices(&self, assets: &[Asset]) -> (r: Result<Vec<(Asset, PriceData)>, ProviderError>)
        requires
            self.wf(),
        ensures
            (exists|i: int| 0 <= i < assets@.len() && self.view().contains_key(assets@[i])) ==> (r matches Ok(
                v,
            ) && v@.map_values(|e: (Asset, PriceData)| e.0) == assets@.filter(
                |a: Asset| self.view().contains_key(a),
            ) && forall|j: int| 0 <= j < v@.len() ==> #[trigger] v@[j].1@ == self.view()[v@[j].0]),
            !(exists|i: int| 0 <= i < assets@.len() && self.view().contains_key(assets@[i])) ==> (r matches Err(
                ProviderError::UnsupportedAsset(m),
            ) && m@ == "No prices available in cache yet"@),
    {
        let ghost m = self.view();
        let ghost keep = |a: Asset| m.contains_key(a);
        let mut out: Vec<(Asset, PriceData)> = Vec::new();
        let mut i: usize = 0;
        while i < assets.len()
            invariant
                self.wf(),
                m == self.view(),
                keep == (|a: Asset| m.contains_key(a)),
                i <= assets@.len(),
                out@.map_values(|e: (Asset, PriceData)| e.0) == assets@.take(i as int).filter(keep),
                forall|j: int| 0 <= j < out@.len() ==> #[trigger] out@[j].1@ == m[out@[j].0],
            decreases assets@.len() - i,
        {
            let a = assets[i];
            let ghost before = out@;
            proof {
                let t = assets@.take(i as int + 1);
                assert(t.drop_last() =~= assets@.take(i as int));
                assert(t.last() == a);
                t.filter_lemma(keep);
                assert(t.filter(keep) == t.drop_last().filter(keep).add(
                    if keep(a) { seq![a] } else { Seq::empty() },
                )) by {
                    reveal(Seq::filter);
                }
            }
            if self.prices.has_price(a) {
                match self.prices.latest(a) {
                    Some(p) => {
                        out.push((a, p));
                        assert(out@.map_values(|e: (Asset, PriceData)| e.0) =~= before.map_values(
                            |e: (Asset, PriceData)| e.0,
                        ).push(a));
                    },
                    None => {},
                }
            } else {
                assert(assets@.take(i as int + 1).filter(keep) =~= assets@.take(i as int).filter(keep));
            }
            i = i + 1;
        }
        assert(assets@.take(i as int) =~= assets@);
        if out.len() == 0 {
            proof {
                assert forall|i: int| 0 <= i < assets@.len() implies !m.contains_key(assets@[i]) by {
                    if m.contains_key(assets@[i]) {
                        assets@.filter_lemma(keep);
                        assert(assets@.filter(keep).contains(assets@[i]));
                    }
                }
            }
            Err(ProviderError::UnsupportedAsset("No prices available in cache yet".to_owned()))
        } else {
            proof {
                let v = out@.map_values(|e: (Asset, PriceData)| e.0);
                assert(v.len() > 0);
                let a0 = v[0];
                assets@.filter_lemma(keep);
                assert(assets@.filter(keep).contains(a0));
                assets@.lemma_filter_contains_rev(keep, a0);
                let k = choose|k: int| 0 <= k < assets@.len() && assets@[k] == a0;
                assert(m.contains_key(assets@[k]));
            }
            Ok(out)
        }
    }
}

} // verus!
