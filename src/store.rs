//! The price cache: the latest price of each asset, with staleness judged at
//! read time.

use crate::clock::now_millis;
use crate::constants::STALE_THRESHOLD_SECS;
use crate::error::PriceError;
use crate::types::{elapsed_secs, Asset, PriceData, PriceDataView, ASSET_COUNT};
use vstd::prelude::*;

verus! {

/// The latest price of each asset. Each asset has one slot; a slot once
/// written always holds a price.
pub struct MarketPriceStore {
    slots: Vec<Option<PriceData>>,
}

/// The written price of `a` is fresh at `now_ms`.
pub open spec fn fresh_in(m: Map<Asset, PriceDataView>, a: Asset, now_ms: int) -> bool {
    m.contains_key(a) && !m[a].is_stale_at(STALE_THRESHOLD_SECS, now_ms)
}

/// `r` lists every asset with a fresh price at `now_ms` in `m`, with that
/// price, in the canonical order of assets, and nothing else.
pub open spec fn is_fresh_snapshot(r: Seq<(Asset, PriceData)>, m: Map<Asset, PriceDataView>, now_ms: int) -> bool {
    &&& forall|i: int|
        0 <= i < r.len() ==> fresh_in(m, #[trigger] r[i].0, now_ms) && r[i].1@ == m[r[i].0]
    &&& forall|i: int, j: int| 0 <= i < j < r.len() ==> r[i].0.spec_index() < r[j].0.spec_index()
    &&& forall|a: Asset| #[trigger] fresh_in(m, a, now_ms) ==> exists|i: int| 0 <= i < r.len() && r[i].0 == a
}

/// The cache after writing `batch` into `m` entry by entry, in order.
pub open spec fn apply_batch(m: Map<Asset, PriceDataView>, batch: Seq<(Asset, PriceData)>) -> Map<
    Asset,
    PriceDataView,
>
    decreases batch.len(),
{
    if batch.len() == 0 {
        m
    } else {
        apply_batch(m, batch.drop_last()).insert(batch.last().0, batch.last().1@)
    }
}

/// A written price is what the cache holds for its asset until that asset is
/// written again (writes of other assets leave it), and a read returns it
/// exactly while it is not older than the threshold.
pub proof fn lemma_read_after_write(
    m: Map<Asset, PriceDataView>,
    a: Asset,
    p: PriceDataView,
    b: Asset,
    q: PriceDataView,
    now_ms: int,
)
    requires
        b != a,
    ensures
        m.insert(a, p).contains_key(a),
        m.insert(a, p)[a] == p,
        m.insert(a, p).insert(b, q)[a] == p,
        fresh_in(m.insert(a, p), a, now_ms) <==> !p.is_stale_at(STALE_THRESHOLD_SECS, now_ms),
{
}

/// Writing a batch of prices into an empty cache leaves exactly the batch's
/// assets, each with one of its prices from the batch.
pub proof fn lemma_batch_contents(batch: Seq<(Asset, PriceData)>)
    ensures
        forall|a: Asset|
            #[trigger] apply_batch(Map::empty(), batch).contains_key(a) <==> exists|i: int|
                0 <= i < batch.len() && batch[i].0 == a,
        forall|a: Asset|
            #[trigger] apply_batch(Map::empty(), batch).contains_key(a) ==> exists|i: int|
                0 <= i < batch.len() && batch[i].0 == a && apply_batch(Map::empty(), batch)[a]
                    == batch[i].1@,
    decreases batch.len(),
{
    if batch.len() > 0 {
        let t = batch.drop_last();
        lemma_batch_contents(t);
        let last = batch.len() - 1;
        let e = Map::<Asset, PriceDataView>::empty();
        assert(apply_batch(e, batch) == apply_batch(e, t).insert(batch[last].0, batch[last].1@));
        assert forall|a: Asset|
            #[trigger] apply_batch(Map::empty(), batch).contains_key(a) <==> exists|i: int|
                0 <= i < batch.len() && batch[i].0 == a by {
            if apply_batch(Map::empty(), batch).contains_key(a) && a != batch[last].0 {
                assert(apply_batch(e, t).contains_key(a));
                let i = choose|i: int| 0 <= i < t.len() && t[i].0 == a;
                assert(batch[i] == t[i]);
            }
            if exists|i: int| 0 <= i < batch.len() && batch[i].0 == a {
                let i = choose|i: int| 0 <= i < batch.len() && batch[i].0 == a;
                if i < last {
                    assert(t[i] == batch[i]);
                }
            }
        }
        assert forall|a: Asset| #[trigger] apply_batch(Map::empty(), batch).contains_key(a) implies exists|
            i: int,
        | 0 <= i < batch.len() && batch[i].0 == a && apply_batch(Map::empty(), batch)[a] == batch[i].1@ by {
            if a != batch[last].0 {
                assert(apply_batch(e, t).contains_key(a));
                let i = choose|i: int|
                    0 <= i < t.len() && t[i].0 == a && apply_batch(Map::empty(), t)[a] == t[i].1@;
                assert(batch[i] == t[i]);
            }
        }
    }
}

/// Fresh prices written into an empty cache are all visible: the assets with
/// a fresh price are exactly those of the batch.
pub proof fn lemma_fresh_batch_visible(batch: Seq<(Asset, PriceData)>, now_ms: int)
    requires
        forall|i: int|
            0 <= i < batch.len() ==> !(#[trigger] batch[i].1@).is_stale_at(STALE_THRESHOLD_SECS, now_ms),
    ensures
        forall|a: Asset|
            #[trigger] fresh_in(apply_batch(Map::empty(), batch), a, now_ms) <==> exists|i: int|
                0 <= i < batch.len() && batch[i].0 == a,
{
    lemma_batch_contents(batch);
    assert forall|a: Asset|
        #[trigger] fresh_in(apply_batch(Map::empty(), batch), a, now_ms) <==> exists|i: int|
            0 <= i < batch.len() && batch[i].0 == a by {
        if apply_batch(Map::empty(), batch).contains_key(a) {
            let i = choose|i: int|
                0 <= i < batch.len() && batch[i].0 == a && apply_batch(Map::empty(), batch)[a]
                    == batch[i].1@;
            assert(!batch[i].1@.is_stale_at(STALE_THRESHOLD_SECS, now_ms));
        }
    }
}

/// Some entry of `r` is for `a`.
pub open spec fn lists_asset(r: Seq<(Asset, PriceData)>, a: Asset) -> bool {
    exists|i: int| 0 <= i < r.len() && r[i].0 == a
}

/// Right after fresh prices of `N` distinct assets are written into an empty
/// cache, a snapshot of the fresh prices holds exactly those `N` assets.
pub proof fn lemma_snapshot_after_fresh_batch(
    batch: Seq<(Asset, PriceData)>,
    now_ms: int,
    r: Seq<(Asset, PriceData)>,
)
    requires
        forall|i: int, j: int| 0 <= i < j < batch.len() ==> batch[i].0 != batch[j].0,
        forall|i: int|
            0 <= i < batch.len() ==> !(#[trigger] batch[i].1@).is_stale_at(STALE_THRESHOLD_SECS, now_ms),
        is_fresh_snapshot(r, apply_batch(Map::empty(), batch), now_ms),
    ensures
        r.len() == batch.len(),
        forall|a: Asset| #[trigger] lists_asset(r, a) <==> lists_asset(batch, a),
{
    let m = apply_batch(Map::empty(), batch);
    lemma_fresh_batch_visible(batch, now_ms);
    let kr = r.map_values(|e: (Asset, PriceData)| e.0);
    let kb = batch.map_values(|e: (Asset, PriceData)| e.0);
    assert(kr.no_duplicates()) by {
        assert forall|i: int, j: int| 0 <= i < kr.len() && 0 <= j < kr.len() && i != j implies kr[i]
            != kr[j] by {
            if i < j {
                assert(r[i].0.spec_index() < r[j].0.spec_index());
            } else {
                assert(r[j].0.spec_index() < r[i].0.spec_index());
            }
        }
    }
    assert(kb.no_duplicates()) by {
        assert forall|i: int, j: int| 0 <= i < kb.len() && 0 <= j < kb.len() && i != j implies kb[i]
            != kb[j] by {
            if i < j {
                assert(batch[i].0 != batch[j].0);
            } else {
                assert(batch[j].0 != batch[i].0);
            }
        }
    }
    assert forall|a: Asset| #[trigger] lists_asset(r, a) <==> lists_asset(batch, a) by {
        if lists_asset(r, a) {
            let i = choose|i: int| 0 <= i < r.len() && r[i].0 == a;
            assert(fresh_in(m, r[i].0, now_ms));
        }
        if lists_asset(batch, a) {
            assert(fresh_in(m, a, now_ms));
        }
    }
    assert(kr.to_set() =~= kb.to_set()) by {
        assert forall|a: Asset| kr.to_set().contains(a) implies kb.to_set().contains(a) by {
            let i = choose|i: int| 0 <= i < kr.len() && kr[i] == a;
            assert(r[i].0 == a);
            assert(lists_asset(r, a));
            let j = choose|j: int| 0 <= j < batch.len() && batch[j].0 == a;
            assert(kb[j] == a);
        }
        assert forall|a: Asset| kb.to_set().contains(a) implies kr.to_set().contains(a) by {
            let j = choose|j: int| 0 <= j < kb.len() && kb[j] == a;
            assert(batch[j].0 == a);
            assert(lists_asset(batch, a));
            assert(lists_asset(r, a));
            let i = choose|i: int| 0 <= i < r.len() && r[i].0 == a;
            assert(kr[i] == a);
        }
    }
    kr.unique_seq_to_set();
    kb.unique_seq_to_set();
}

/// Writes of two different assets give the same cache in either order, and
/// both prices are visible afterwards.
pub proof fn lemma_updates_commute(
    m: Map<Asset, PriceDataView>,
    a: Asset,
    p: PriceDataView,
    b: Asset,
    q: PriceDataView,
)
    requires
        a != b,
    ensures
        m.insert(a, p).insert(b, q) == m.insert(b, q).insert(a, p),
        m.insert(a, p).insert(b, q)[a] == p,
        m.insert(a, p).insert(b, q)[b] == q,
{
    assert(m.insert(a, p).insert(b, q) =~= m.insert(b, q).insert(a, p));
}

proof fn lemma_at_index(i: nat)
    requires
        i < ASSET_COUNT,
    ensures
        Asset::spec_at(i).spec_index() == i,
{
}

impl MarketPriceStore {
    pub closed spec fn wf(&self) -> bool {
        self.slots@.len() == ASSET_COUNT
    }

    /// The written assets and their latest prices.
    pub closed spec fn view(&self) -> Map<Asset, PriceDataView> {
        Map::new(
            |a: Asset| self.slots@[a.spec_index() as int].is_some(),
            |a: Asset| self.slots@[a.spec_index() as int].unwrap()@,
        )
    }

    /// An empty cache.
    pub fn new() -> (r: MarketPriceStore)
        ensures
            r.wf(),
            r.view() == Map::<Asset, PriceDataView>::empty(),
    {
        let mut slots: Vec<Option<PriceData>> = Vec::new();
        let mut i: usize = 0;
        while i < ASSET_COUNT
            invariant
                i <= ASSET_COUNT,
                slots@.len() == i,
                forall|j: int| 0 <= j < i ==> slots@[j].is_none(),
            decreases ASSET_COUNT - i,
        {
            slots.push(None);
            i = i + 1;
        }
        let r = MarketPriceStore { slots };
        assert(r.view() =~= Map::<Asset, PriceDataView>::empty());
        r
    }

    /// Writes `price_data` as the latest price of `asset`, replacing any
    /// earlier one.
    pub fn update_price(&mut self, asset: Asset, price_data: PriceData)
        requires
            old(self).wf(),
        ensures
            final(self).wf(),
            final(self).view() == old(self).view().insert(asset, price_data@),
    {
        let i = asset.index();
        let ghost d = price_data@;
        self.slots.set(i, Some(price_data));
        proof {
            assert forall|a: Asset| a.spec_index() == i implies a == asset by {
                a.lemma_index_bijective();
                asset.lemma_index_bijective();
            }
        }
        assert(self.view() =~= old(self).view().insert(asset, d));
    }

    /// Writes each entry of `prices` in turn. Not atomic: each entry is a
    /// write of its own.
    pub fn update_prices(&mut self, prices: Vec<(Asset, PriceData)>)
        requires
            old(self).wf(),
        ensures
            final(self).wf(),
            final(self).view() == apply_batch(old(self).view(), prices@),
    {
        let ghost start = self.view();
        let ghost all = prices@;
        let mut rest = prices;
        let n = rest.len();
        let mut k: usize = 0;
        while k < n
            invariant
                self.wf(),
                n == all.len(),
                k <= n,
                rest@ == all.skip(k as int),
                self.view() == apply_batch(start, all.take(k as int)),
            decreases n - k,
        {
            let (asset, data) = rest.remove(0);
            proof {
                assert(all.take(k as int + 1).drop_last() =~= all.take(k as int));
                assert(all.skip(k as int + 1) =~= all.skip(k as int).skip(1));
            }
            self.update_price(asset, data);
            k = k + 1;
        }
        assert(all.take(n as int) =~= all);
    }

    /// The price of `asset` as of `now_ms`: the written price if it is fresh,
    /// `NotAvailable` if none was written, `Stale` (with its age) if it is
    /// older than the threshold.
    pub fn get_price_at(&self, asset: Asset, now_ms: i64) -> (r: Result<PriceData, PriceError>)
        requires
            self.wf(),
        ensures
            !self.view().contains_key(asset) ==> (r matches Err(PriceError::NotAvailable { asset: s })
                && s@ == asset.spec_symbol()),
            self.view().contains_key(asset) && self.view()[asset].is_stale_at(
                STALE_THRESHOLD_SECS,
                now_ms as int,
            ) ==> (r matches Err(PriceError::Stale { asset: s, age_secs: g }) && s@
                == asset.spec_symbol() && g == elapsed_secs(
                self.view()[asset].last_updated_ms as int,
                now_ms as int,
            )),
            fresh_in(self.view(), asset, now_ms as int) ==> (r matches Ok(p) && p@ == self.view()[asset]),
    {
        let i = asset.index();
        match &self.slots[i] {
            None => Err(PriceError::not_available(asset.symbol())),
            Some(p) => {
                if p.is_stale_at(STALE_THRESHOLD_SECS, now_ms) {
                    Err(PriceError::stale(asset.symbol(), p.age_at(now_ms)))
                } else {
                    Ok(p.clone())
                }
            },
        }
    }

    /// The price of `asset` now, as `get_price_at` states for the current time.
    pub fn get_price(&self, asset: Asset) -> (r: Result<PriceData, PriceError>)
        requires
            self.wf(),
        ensures
            !self.view().contains_key(asset) ==> (r matches Err(PriceError::NotAvailable { asset: s })
                && s@ == asset.spec_symbol()),
            r matches Ok(p) ==> self.view().contains_key(asset) && p@ == self.view()[asset],
            self.view().contains_key(asset) ==> exists|now: i64|
                #[trigger] self.view()[asset].is_stale_at(STALE_THRESHOLD_SECS, now as int) == r is Err,
    {
        let now = now_millis();
        self.get_price_at(asset, now)
    }

    /// Every asset whose price is fresh at `now_ms`, with that price, in the
    /// canonical order of assets. Stale and unwritten assets are left out.
    pub fn get_all_prices_at(&self, now_ms: i64) -> (r: Vec<(Asset, PriceData)>)
        requires
            self.wf(),
        ensures
            is_fresh_snapshot(r@, self.view(), now_ms as int),
    {
        let all = Asset::all();
        let mut result: Vec<(Asset, PriceData)> = Vec::new();
        let mut k: usize = 0;
        while k < ASSET_COUNT
            invariant
                self.wf(),
                k <= ASSET_COUNT,
                all@.len() == ASSET_COUNT,
                forall|i: int| 0 <= i < ASSET_COUNT ==> #[trigger] all@[i] == Asset::spec_at(i as nat),
                forall|i: int|
                    0 <= i < result@.len() ==> fresh_in(self.view(), #[trigger] result@[i].0, now_ms as int)
                        && result@[i].1@ == self.view()[result@[i].0]
                        && result@[i].0.spec_index() < k,
                forall|i: int, j: int|
                    0 <= i < j < result@.len() ==> result@[i].0.spec_index() < result@[j].0.spec_index(),
                forall|a: Asset|
                    a.spec_index() < k && #[trigger] fresh_in(self.view(), a, now_ms as int) ==> exists|i: int|
                        0 <= i < result@.len() && result@[i].0 == a,
            decreases ASSET_COUNT - k,
        {
            let asset = all[k];
            proof {
                lemma_at_index(k as nat);
            }
            let ghost prev = result@;
            if let Some(p) = &self.slots[k] {
                if !p.is_stale_at(STALE_THRESHOLD_SECS, now_ms) {
                    result.push((asset, p.clone()));
                    proof {
                        let last = result@.len() - 1;
                        assert(result@[last].0 == asset);
                    }
                }
            }
            proof {
                assert forall|a: Asset|
                    a.spec_index() < k + 1 && #[trigger] fresh_in(self.view(), a, now_ms as int) implies exists|i: int|
                        0 <= i < result@.len() && result@[i].0 == a by {
                    a.lemma_index_bijective();
                    if a.spec_index() < k {
                        let i = choose|i: int| 0 <= i < prev.len() && prev[i].0 == a;
                        assert(result@[i] == prev[i]);
                    } else {
                        assert(a == asset);
                        let last = result@.len() - 1;
                        assert(result@[last].0 == a);
                    }
                }
            }
            k = k + 1;
        }
        proof {
            assert forall|a: Asset| #[trigger] fresh_in(self.view(), a, now_ms as int) implies exists|i: int|
                0 <= i < result@.len() && result@[i].0 == a by {
                a.lemma_index_bijective();
            }
        }
        result
    }

    /// Every asset whose price is fresh now, as `get_all_prices_at` states for
    /// the current time.
    pub fn get_all_prices(&self) -> (r: Vec<(Asset, PriceData)>)
        requires
            self.wf(),
        ensures
            exists|now: i64| is_fresh_snapshot(r@, self.view(), now as int),
    {
        let now = now_millis();
        self.get_all_prices_at(now)
    }

    /// The latest price written for `asset`, fresh or not.
    pub fn latest(&self, asset: Asset) -> (r: Option<PriceData>)
        requires
            self.wf(),
        ensures
            !self.view().contains_key(asset) ==> r is None,
            self.view().contains_key(asset) ==> (r matches Some(p) && p@ == self.view()[asset]),
    {
        match &self.slots[asset.index()] {
            Some(p) => Some(p.clone()),
            None => None,
        }
    }

    /// A price was ever written for `asset`, fresh or not.
    pub fn has_price(&self, asset: Asset) -> (r: bool)
        requires
            self.wf(),
        ensures
            r == self.view().contains_key(asset),
    {
        self.slots[asset.index()].is_some()
    }

    /// No fresh price of `asset` at `now_ms`: none was written, or it is older
    /// than the threshold.
    pub fn is_stale_at(&self, asset: Asset, now_ms: i64) -> (r: bool)
        requires
            self.wf(),
        ensures
            r == !fresh_in(self.view(), asset, now_ms as int),
    {
        match &self.slots[asset.index()] {
            None => true,
            Some(p) => p.is_stale_at(STALE_THRESHOLD_SECS, now_ms),
        }
    }

    /// No fresh price of `asset` now.
    pub fn is_stale(&self, asset: Asset) -> (r: bool)
        requires
            self.wf(),
        ensures
            !self.view().contains_key(asset) ==> r,
            exists|now: i64| r == !fresh_in(self.view(), asset, now as int),
    {
        let now = now_millis();
        self.is_stale_at(asset, now)
    }
}

impl Default for MarketPriceStore {
    fn default() -> (r: Self)
        ensures
            r.wf(),
            r.view() == Map::<Asset, PriceDataView>::empty(),
    {
        MarketPriceStore::new()
    }
}

} // verus!
