//! The tracker's decisions: retry with capped exponential backoff for one
//! fetch cycle, writing a fetched batch, falling back to the provider on a
//! cache miss, and the health report.
//!
//! The provider calls, sleeps and channel sends are asynchronous work of the
//! caller; the functions here decide what happens around them.

use crate::clock::now_millis;
use crate::constants::{
    enabled_assets, spec_enabled_assets, INITIAL_BACKOFF_MS, MAX_BACKOFF_MS, MAX_RETRY_ATTEMPTS,
};
use crate::error::{PriceError, ProviderError};
use crate::metrics::{window_after, LatencySample, MetricsCollector};
use crate::store::{apply_batch, fresh_in, MarketPriceStore};
use crate::text::{decimal_digits, decimal_text, same_text};
use crate::types::{Asset, ComponentHealth, HealthStatus, PriceData, PriceDataView};
use vstd::prelude::*;

verus! {

/// The delay in milliseconds before attempt `attempt + 1`: the initial delay
/// after the first attempt, then doubled each time, never above the maximum.
pub open spec fn backoff_delay(attempt: nat) -> nat
    decreases attempt,
{
    if attempt <= 1 {
        INITIAL_BACKOFF_MS as nat
    } else {
        let d = 2 * backoff_delay((attempt - 1) as nat);
        if d > MAX_BACKOFF_MS {
            MAX_BACKOFF_MS as nat
        } else {
            d
        }
    }
}

proof fn lemma_backoff_bounded(attempt: nat)
    ensures
        backoff_delay(attempt) <= MAX_BACKOFF_MS,
    decreases attempt,
{
    if attempt > 1 {
        lemma_backoff_bounded((attempt - 1) as nat);
    }
}

/// What the caller does after a failed attempt.
#[derive(Debug, Clone, Copy, PartialEq, Eq, Structural)]
pub enum RetryStep {
    /// Wait this many milliseconds, then attempt again.
    RetryAfter(u64),
    /// No attempt is left: record the failure and return the last error.
    GiveUp,
}

/// The retry state of one fetch cycle.
pub struct FetchCycle {
    attempt: u32,
    backoff_ms: u64,
    outcome: Option<bool>,
    recorded: bool,
}

impl FetchCycle {
    pub closed spec fn wf(&self) -> bool {
        &&& 1 <= self.attempt <= MAX_RETRY_ATTEMPTS
        &&& self.backoff_ms == backoff_delay(self.attempt as nat)
    }

    /// The attempt under way, counting from one.
    pub closed spec fn spec_attempt(&self) -> nat {
        self.attempt as nat
    }

    /// How the cycle ended: `Some(true)` with a published batch,
    /// `Some(false)` given up, `None` while attempts go on.
    pub closed spec fn outcome(&self) -> Option<bool> {
        self.outcome
    }

    /// The cycle's sample is in the metrics.
    pub closed spec fn recorded(&self) -> bool {
        self.recorded
    }

    /// A cycle whose first attempt is under way.
    pub fn new() -> (r: FetchCycle)
        ensures
            r.wf(),
            r.spec_attempt() == 1,
            r.outcome() is None,
            !r.recorded(),
    {
        FetchCycle { attempt: 1, backoff_ms: INITIAL_BACKOFF_MS, outcome: None, recorded: false }
    }

    /// Records the ended cycle into `metrics` as one sample: its whole
    /// duration `elapsed_us` (all attempts and waits) and whether it ended
    /// with a published batch. A cycle records once.
    pub fn finish(&mut self, metrics: &mut MetricsCollector, elapsed_us: u64)
        requires
            old(self).outcome() is Some,
            !old(self).recorded(),
            old(metrics).wf(),
        ensures
            final(self).recorded(),
            final(self).outcome() == old(self).outcome(),
            final(self).spec_attempt() == old(self).spec_attempt(),
            final(metrics).wf(),
            final(metrics).name() == old(metrics).name(),
            final(metrics).window() == window_after(
                old(metrics).window(),
                LatencySample { duration_us: elapsed_us, success: old(self).outcome() == Some(true) },
            ),
            final(metrics).total() == old(metrics).total().saturating_add(1),
            final(metrics).failed() == if old(self).outcome() == Some(true) {
                old(metrics).failed()
            } else {
                old(metrics).failed().saturating_add(1)
            },
    {
        let success = match self.outcome {
            Some(b) => b,
            None => false,
        };
        metrics.record_request(elapsed_us, success);
        self.recorded = true;
    }

    /// The attempt under way, counting from one.
    pub fn attempt(&self) -> (r: u32)
        ensures
            r == self.spec_attempt(),
    {
        self.attempt
    }

    /// The step after the attempt under way failed: wait and try again while
    /// attempts are left, else give up.
    pub fn on_failure(&mut self) -> (r: RetryStep)
        requires
            old(self).wf(),
        ensures
            final(self).wf(),
            final(self).outcome() == old(self).outcome(),
            final(self).recorded() == old(self).recorded(),
            old(self).spec_attempt() < MAX_RETRY_ATTEMPTS ==> r == RetryStep::RetryAfter(
                backoff_delay(old(self).spec_attempt()) as u64,
            ) && final(self).spec_attempt() == old(self).spec_attempt() + 1,
            old(self).spec_attempt() >= MAX_RETRY_ATTEMPTS ==> r == RetryStep::GiveUp
                && final(self).spec_attempt() == old(self).spec_attempt(),
    {
        if self.attempt < MAX_RETRY_ATTEMPTS {
            let delay = self.backoff_ms;
            proof {
                lemma_backoff_bounded(self.attempt as nat);
            }
            let doubled = self.backoff_ms * 2;
            self.backoff_ms = if doubled > MAX_BACKOFF_MS {
                MAX_BACKOFF_MS
            } else {
                doubled
            };
            self.attempt = self.attempt + 1;
            RetryStep::RetryAfter(delay)
        } else {
            RetryStep::GiveUp
        }
    }
}

/// One attempt's effect on a cycle at attempt `attempt`, by whether it
/// brought a batch: the wait before the next attempt, if any, and the
/// outcome once the cycle ends.
pub open spec fn cycle_step(attempt: nat, ok: bool) -> (Option<nat>, Option<bool>) {
    if ok {
        (None, Some(true))
    } else if attempt < MAX_RETRY_ATTEMPTS {
        (Some(backoff_delay(attempt)), None)
    } else {
        (None, Some(false))
    }
}

/// The waits and the outcome of a cycle, from attempt `attempt` on, whose
/// attempts bring a batch as `oks` says.
pub open spec fn cycle_run(attempt: nat, oks: Seq<bool>) -> (Seq<nat>, Option<bool>)
    decreases oks.len(),
{
    if oks.len() == 0 {
        (Seq::empty(), None)
    } else {
        let (wait, outcome) = cycle_step(attempt, oks[0]);
        match wait {
            Some(d) => {
                let (rest, end) = cycle_run(attempt + 1, oks.skip(1));
                (seq![d] + rest, end)
            },
            None => (Seq::empty(), outcome),
        }
    }
}

/// A cycle whose first `f` attempts fail, `f` below the attempt limit, and
/// whose next attempt brings a batch, waits the doubling delays between its
/// attempts and ends with the batch published; a cycle whose every attempt
/// fails ends given up after `MAX_RETRY_ATTEMPTS` attempts.
pub proof fn lemma_retry_outcomes(f: nat)
    requires
        f < MAX_RETRY_ATTEMPTS,
    ensures
        cycle_run(1, Seq::new(f, |i: int| false).push(true)) == (
            Seq::new(f, |i: int| backoff_delay((i + 1) as nat)),
            Some(true),
        ),
        cycle_run(1, Seq::new(MAX_RETRY_ATTEMPTS as nat, |i: int| false)) == (
            Seq::new((MAX_RETRY_ATTEMPTS - 1) as nat, |i: int| backoff_delay((i + 1) as nat)),
            Some(false),
        ),
{
    lemma_retry_from(1, f);
    lemma_give_up_from(1);
}

proof fn lemma_retry_from(a: nat, f: nat)
    requires
        a >= 1,
        a + f <= MAX_RETRY_ATTEMPTS,
    ensures
        cycle_run(a, Seq::new(f, |i: int| false).push(true)) == (
            Seq::new(f, |i: int| backoff_delay((i + a) as nat)),
            Some(true),
        ),
    decreases f,
{
    let oks = Seq::new(f, |i: int| false).push(true);
    if f > 0 {
        lemma_retry_from(a + 1, (f - 1) as nat);
        assert(oks.skip(1) =~= Seq::new((f - 1) as nat, |i: int| false).push(true));
        let (rest, end) = cycle_run(a + 1, oks.skip(1));
        assert(seq![backoff_delay(a)] + rest =~= Seq::new(f, |i: int| backoff_delay((i + a) as nat)));
    } else {
        assert(Seq::new(0, |i: int| backoff_delay((i + a) as nat)) =~= Seq::<nat>::empty());
    }
}

proof fn lemma_give_up_from(a: nat)
    requires
        1 <= a <= MAX_RETRY_ATTEMPTS,
    ensures
        cycle_run(a, Seq::new((MAX_RETRY_ATTEMPTS + 1 - a) as nat, |i: int| false)) == (
            Seq::new((MAX_RETRY_ATTEMPTS - a) as nat, |i: int| backoff_delay((i + a) as nat)),
            Some(false),
        ),
    decreases MAX_RETRY_ATTEMPTS - a,
{
    let n = (MAX_RETRY_ATTEMPTS + 1 - a) as nat;
    let oks = Seq::new(n, |i: int| false);
    if a < MAX_RETRY_ATTEMPTS {
        lemma_give_up_from(a + 1);
        assert(oks.skip(1) =~= Seq::new((MAX_RETRY_ATTEMPTS + 1 - (a + 1)) as nat, |i: int| false));
        let (rest, end) = cycle_run(a + 1, oks.skip(1));
        assert(seq![backoff_delay(a)] + rest =~= Seq::new(
            (MAX_RETRY_ATTEMPTS - a) as nat,
            |i: int| backoff_delay((i + a) as nat),
        ));
    } else {
        assert(Seq::new(0, |i: int| backoff_delay((i + a) as nat)) =~= Seq::<nat>::empty());
    }
}

/// What the caller does after an attempt of a fetch cycle.
#[derive(Debug)]
pub enum CycleStep {
    /// The fetched batch is in the cache: publish these prices in order,
    /// record a success, and end the cycle.
    Published(Vec<PriceData>),
    /// Wait this many milliseconds, then attempt again.
    RetryAfter(u64),
    /// No attempt is left: record a failure and end the cycle with this
    /// error.
    GiveUp(ProviderError),
}

impl FetchCycle {
    /// The step after the attempt under way returned `fetched`: a batch is
    /// written into `store` at once; a failure is retried while attempts are
    /// left (the cache untouched), else given up with that failure.
    pub fn on_fetched(
        &mut self,
        store: &mut MarketPriceStore,
        fetched: Result<Vec<(Asset, PriceData)>, ProviderError>,
    ) -> (r: CycleStep)
        requires
            old(self).wf(),
            old(self).outcome() is None,
            old(store).wf(),
        ensures
            final(self).wf(),
            final(store).wf(),
            final(self).recorded() == old(self).recorded(),
            cycle_step(old(self).spec_attempt(), fetched is Ok) == (
                if r is RetryAfter {
                    Some(r->RetryAfter_0 as nat)
                } else {
                    None::<nat>
                },
                final(self).outcome(),
            ),
            fetched matches Ok(prices) ==> final(store).view() == apply_batch(old(store).view(), prices@)
                && final(self).spec_attempt() == old(self).spec_attempt() && (r matches CycleStep::Published(
                v,
            ) && v@.len() == prices@.len() && forall|i: int|
                0 <= i < v@.len() ==> #[trigger] v@[i]@ == prices@[i].1@),
            fetched is Err ==> final(store).view() == old(store).view(),
            fetched is Err && old(self).spec_attempt() < MAX_RETRY_ATTEMPTS ==> r == CycleStep::RetryAfter(
                backoff_delay(old(self).spec_attempt()) as u64,
            ) && final(self).spec_attempt() == old(self).spec_attempt() + 1,
            fetched is Err && old(self).spec_attempt() >= MAX_RETRY_ATTEMPTS ==> r == CycleStep::GiveUp(
                fetched->Err_0,
            ) && final(self).spec_attempt() == old(self).spec_attempt(),
    {
        match fetched {
            Ok(prices) => {
                self.outcome = Some(true);
                CycleStep::Published(apply_fetched(store, prices))
            },
            Err(e) => match self.on_failure() {
                RetryStep::RetryAfter(delay) => CycleStep::RetryAfter(delay),
                RetryStep::GiveUp => {
                    self.outcome = Some(false);
                    CycleStep::GiveUp(e)
                },
            },
        }
    }
}

/// Writes a successful fetch into the cache in one batch and returns its
/// prices, in batch order, for publishing.
pub fn apply_fetched(store: &mut MarketPriceStore, prices: Vec<(Asset, PriceData)>) -> (r: Vec<
    PriceData,
>)
    requires
        old(store).wf(),
    ensures
        final(store).wf(),
        final(store).view() == apply_batch(old(store).view(), prices@),
        r@.len() == prices@.len(),
        forall|i: int| 0 <= i < r@.len() ==> #[trigger] r@[i]@ == prices@[i].1@,
{
    let mut published: Vec<PriceData> = Vec::new();
    let mut i: usize = 0;
    while i < prices.len()
        invariant
            i <= prices@.len(),
            published@.len() == i,
            forall|j: int| 0 <= j < i ==> #[trigger] published@[j]@ == prices@[j].1@,
        decreases prices@.len() - i,
    {
        published.push(prices[i].1.clone());
        i = i + 1;
    }
    store.update_prices(prices);
    published
}

/// A cache error that the provider may still answer: the price is missing or
/// stale.
pub fn should_fall_back(cached: &Result<PriceData, PriceError>) -> (r: bool)
    ensures
        r == (cached matches Err(PriceError::NotAvailable { .. }) || cached matches Err(
            PriceError::Stale { .. },
        )),
{
    match cached {
        Err(PriceError::NotAvailable { .. }) => true,
        Err(PriceError::Stale { .. }) => true,
        _ => false,
    }
}

/// The answer to a price query after the provider was asked directly: its
/// price, or the cache's own error when it failed too.
pub fn resolve_fallback(cache_error: PriceError, fetched: Result<PriceData, ProviderError>) -> (r:
    Result<PriceData, PriceError>)
    ensures
        fetched is Ok ==> (r matches Ok(p) && p@ == fetched->Ok_0@),
        fetched is Err ==> r == Err::<PriceData, PriceError>(cache_error),
{
    match fetched {
        Ok(p) => Ok(p),
        Err(_) => Err(cache_error),
    }
}

/// The overall status from the number of fresh prices and the number of
/// enabled assets without one.
pub open spec fn health_status_of(available: nat, stale: nat) -> HealthStatus {
    if available == 0 {
        HealthStatus::Unhealthy
    } else if stale > 0 {
        HealthStatus::Degraded
    } else {
        HealthStatus::Healthy
    }
}

pub open spec fn health_message(status: HealthStatus, stale: nat) -> Seq<char> {
    match status {
        HealthStatus::Healthy => "Market price tracker is operational with fresh data"@,
        HealthStatus::Degraded => "Market price tracker has "@ + decimal_digits(stale)
            + " stale prices"@,
        HealthStatus::Unhealthy => "Market price tracker has no available price data"@,
    }
}

/// The assets with a fresh price at `now_ms`.
pub open spec fn fresh_assets(m: Map<Asset, PriceDataView>, now_ms: int) -> Set<Asset> {
    Set::new(|a: Asset| fresh_in(m, a, now_ms))
}

/// The symbols of those of `assets` without a fresh price at `now_ms`, in
/// order.
pub open spec fn stale_symbols(m: Map<Asset, PriceDataView>, now_ms: int, assets: Seq<Asset>) -> Seq<
    Seq<char>,
>
    decreases assets.len(),
{
    if assets.len() == 0 {
        Seq::empty()
    } else {
        let rest = stale_symbols(m, now_ms, assets.drop_last());
        if fresh_in(m, assets.last(), now_ms) {
            rest
        } else {
            rest.push(assets.last().spec_symbol())
        }
    }
}

/// `r` is the health report of a cache holding `m`, with provider
/// `provider_name`, made at `now_ms`.
pub open spec fn is_health_report(
    r: ComponentHealth,
    m: Map<Asset, PriceDataView>,
    provider_name: Seq<char>,
    now_ms: int,
) -> bool {
    let stale = stale_symbols(m, now_ms, spec_enabled_assets());
    &&& r.name@ == "market_price_tracker"@
    &&& r.available_prices == fresh_assets(m, now_ms).len()
    &&& r.provider_name@ == provider_name
    &&& r.stale_prices@.map_values(|s: String| s@) == stale
    &&& r.status == health_status_of(r.available_prices as nat, stale.len())
    &&& r.message matches Some(msg) && msg@ == health_message(r.status, stale.len())
    &&& r.last_checked_ms == now_ms
}

/// The health report at `now_ms`: unhealthy without any fresh price,
/// degraded when an enabled asset has none, healthy otherwise.
pub fn health_check_at(store: &MarketPriceStore, provider_name: &str, now_ms: i64) -> (r:
    ComponentHealth)
    requires
        store.wf(),
    ensures
        is_health_report(r, store.view(), provider_name@, now_ms as int),
{
    let ghost m = store.view();
    let fresh = store.get_all_prices_at(now_ms);
    let available = fresh.len();
    proof {
        let keys = fresh@.map_values(|e: (Asset, PriceData)| e.0);
        assert(keys.no_duplicates()) by {
            assert forall|i: int, j: int| 0 <= i < keys.len() && 0 <= j < keys.len() && i != j implies keys[i]
                != keys[j] by {
                if i < j {
                    assert(fresh@[i].0.spec_index() < fresh@[j].0.spec_index());
                } else {
                    assert(fresh@[j].0.spec_index() < fresh@[i].0.spec_index());
                }
            }
        }
        keys.unique_seq_to_set();
        assert(keys.to_set() =~= fresh_assets(m, now_ms as int)) by {
            assert forall|a: Asset| fresh_assets(m, now_ms as int).contains(a) implies keys.to_set().contains(
                a,
            ) by {
                assert(fresh_in(m, a, now_ms as int));
                let i = choose|i: int| 0 <= i < fresh@.len() && fresh@[i].0 == a;
                assert(keys[i] == a);
            }
            assert forall|a: Asset| keys.to_set().contains(a) implies fresh_assets(m, now_ms as int).contains(
                a,
            ) by {
                let i = choose|i: int| 0 <= i < keys.len() && keys[i] == a;
                assert(fresh@[i].0 == a);
            }
        }
    }
    let enabled = enabled_assets();
    let mut stale: Vec<String> = Vec::new();
    let mut i: usize = 0;
    while i < enabled.len()
        invariant
            store.wf(),
            m == store.view(),
            enabled@ == spec_enabled_assets(),
            i <= enabled@.len(),
            stale@.map_values(|s: String| s@) == stale_symbols(m, now_ms as int, enabled@.take(i as int)),
        decreases enabled@.len() - i,
    {
        let a = enabled[i];
        assert(enabled@.take(i as int + 1).drop_last() =~= enabled@.take(i as int));
        if store.is_stale_at(a, now_ms) {
            let ghost before = stale@;
            stale.push(a.symbol().to_owned());
            assert(stale@.map_values(|s: String| s@) =~= before.map_values(|s: String| s@).push(
                a.spec_symbol(),
            ));
        }
        i = i + 1;
    }
    assert(enabled@.take(i as int) =~= enabled@);
    let n_stale = stale.len();
    let status = if available == 0 {
        HealthStatus::Unhealthy
    } else if n_stale > 0 {
        HealthStatus::Degraded
    } else {
        HealthStatus::Healthy
    };
    let message = match status {
        HealthStatus::Healthy => "Market price tracker is operational with fresh data".to_owned(),
        HealthStatus::Degraded => {
            let mut msg = "Market price tracker has ".to_owned();
            msg.append(decimal_text(n_stale as u64).as_str());
            msg.append(" stale prices");
            msg
        },
        HealthStatus::Unhealthy => "Market price tracker has no available price data".to_owned(),
    };
    ComponentHealth {
        name: "market_price_tracker".to_owned(),
        status,
        message: Some(message),
        available_prices: available,
        provider_name: provider_name.to_owned(),
        stale_prices: stale,
        last_checked_ms: now_ms,
    }
}

/// The health report now, as `health_check_at` states for the current time.
pub fn health_check(store: &MarketPriceStore, provider_name: &str) -> (r: ComponentHealth)
    requires
        store.wf(),
    ensures
        exists|now: i64| is_health_report(r, store.view(), provider_name@, now as int),
{
    let now = now_millis();
    health_check_at(store, provider_name, now)
}


/// How a tracker keeps its prices fresh.
#[derive(Debug, Clone, Copy, PartialEq, Eq, Structural)]
pub enum RefreshMode {
    /// The provider's own stream writes the cache; no polling.
    Streaming,
    /// A loop fetches at once, then once per refresh interval.
    Polling,
}

/// The refresh mode, fixed at construction by the kind of provider.
pub fn refresh_mode(provider_streams: bool) -> (r: RefreshMode)
    ensures
        provider_streams ==> r == RefreshMode::Streaming,
        !provider_streams ==> r == RefreshMode::Polling,
{
    if provider_streams {
        RefreshMode::Streaming
    } else {
        RefreshMode::Polling
    }
}

/// What the polling loop does at an iteration boundary.
#[derive(Debug, Clone, Copy, PartialEq, Eq, Structural)]
pub enum PollStep {
    /// Run a fetch cycle, then wait `REFRESH_INTERVAL_SECS` seconds.
    FetchThenWait,
    /// Shutdown was asked for: end the loop.
    Stop,
}

/// The polling loop's step at an iteration boundary: stop once shutdown was
/// asked for, else fetch again.
pub fn poll_step(shutdown_requested: bool) -> (r: PollStep)
    ensures
        shutdown_requested ==> r == PollStep::Stop,
        !shutdown_requested ==> r == PollStep::FetchThenWait,
{
    if shutdown_requested {
        PollStep::Stop
    } else {
        PollStep::FetchThenWait
    }
}

/// The provider a tracker is built with.
#[derive(Debug, Clone, Copy, PartialEq, Eq, Structural)]
pub enum ProviderChoice {
    /// The Pyth Hermes stream (the default).
    Hermes,
    /// Hyperliquid alone.
    Hyperliquid,
    /// CoinGecko alone.
    CoinGecko,
    /// Hyperliquid first, CoinGecko when it fails.
    Failover,
}

/// The lowercase form of `s`, as `str::to_lowercase` gives it.
pub uninterp spec fn lower_of(s: Seq<char>) -> Seq<char>;

/// Relies on `str::to_lowercase`: the lowercase form depends on the
/// characters alone.
#[verifier::external_body]
fn lowercase(s: &str) -> (r: String)
    ensures
        r@ == lower_of(s@),
{
    s.to_lowercase()
}

/// The provider named by the (already lowercase) setting `name`.
pub open spec fn choice_of(name: Seq<char>) -> ProviderChoice {
    if name == "hyperliquid"@ {
        ProviderChoice::Hyperliquid
    } else if name == "coingecko"@ {
        ProviderChoice::CoinGecko
    } else if name == "failover"@ {
        ProviderChoice::Failover
    } else {
        ProviderChoice::Hermes
    }
}

/// The provider named by a lowercase setting: `hyperliquid`, `coingecko`,
/// `failover`, anything else the streaming default.
pub fn provider_choice_of_lowered(name: &str) -> (r: ProviderChoice)
    ensures
        r == choice_of(name@),
{
    if same_text(name, "hyperliquid") {
        ProviderChoice::Hyperliquid
    } else if same_text(name, "coingecko") {
        ProviderChoice::CoinGecko
    } else if same_text(name, "failover") {
        ProviderChoice::Failover
    } else {
        ProviderChoice::Hermes
    }
}

/// The provider named by the setting `name`, in any letter case.
pub fn provider_choice(name: &str) -> (r: ProviderChoice)
    ensures
        r == choice_of(lower_of(name@)),
{
    let lowered = lowercase(name);
    provider_choice_of_lowered(lowered.as_str())
}

} // verus!
