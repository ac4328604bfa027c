//! Failover over an ordered list of providers: try each in turn, stop at the
//! first success, and report the last failure when all fail.
//!
//! The fetching itself is asynchronous I/O done by the caller; this machine
//! decides which provider to try next and what the composite call returns.

use crate::error::ProviderError;
use vstd::prelude::*;

verus! {

/// What the caller does next.
pub enum FailoverStep<T> {
    /// Call the provider at this position of the list.
    Try(usize),
    /// The composite call is over, with this result.
    Finish(Result<T, ProviderError>),
}

/// The message of the error returned when the list is empty.
pub open spec fn no_providers_message() -> Seq<char> {
    "No providers configured for failover"@
}

/// The step a run over `count` providers takes when provider `current`
/// answers `result`.
pub open spec fn next_step<T>(count: nat, current: nat, result: Result<T, ProviderError>) -> FailoverStep<
    T,
> {
    match result {
        Ok(_) => FailoverStep::Finish(result),
        Err(_) => if current + 1 < count {
            FailoverStep::Try((current + 1) as usize)
        } else {
            FailoverStep::Finish(result)
        },
    }
}

/// How a run over `results.len()` providers ends when provider `i` (from
/// `current` on) answers `results[i]`, stepping as `next_step` says.
pub open spec fn run_from<T>(results: Seq<Result<T, ProviderError>>, current: nat) -> Result<
    T,
    ProviderError,
>
    decreases results.len() - current,
{
    if current >= results.len() {
        results.last()
    } else {
        match next_step(results.len(), current, results[current as int]) {
            FailoverStep::Finish(r) => r,
            FailoverStep::Try(next) => if next > current {
                run_from(results, next as nat)
            } else {
                results.last()
            },
        }
    }
}

/// The first success of `results`, or the last failure when there is none.
pub open spec fn first_success_or_last<T>(results: Seq<Result<T, ProviderError>>) -> Result<
    T,
    ProviderError,
>
    decreases results.len(),
{
    if results.len() <= 1 || results[0] is Ok {
        results[0]
    } else {
        first_success_or_last(results.skip(1))
    }
}

proof fn lemma_run_from<T>(results: Seq<Result<T, ProviderError>>, current: nat)
    requires
        current < results.len() <= usize::MAX,
    ensures
        run_from(results, current) == first_success_or_last(results.skip(current as int)),
    decreases results.len() - current,
{
    let rest = results.skip(current as int);
    assert(rest[0] == results[current as int]);
    assert(rest.len() == results.len() - current);
    if current + 1 < results.len() {
        lemma_run_from(results, current + 1);
        assert(rest.skip(1) =~= results.skip(current + 1 as int));
    }
}

/// Failover answers with the first provider that succeeds, tried in order,
/// and with the last provider's failure when every provider fails.
pub proof fn lemma_failover_outcome<T>(results: Seq<Result<T, ProviderError>>)
    requires
        0 < results.len() <= usize::MAX,
    ensures
        run_from(results, 0) == first_success_or_last(results),
        (forall|i: int| 0 <= i < results.len() ==> results[i] is Err) ==> run_from(results, 0)
            == results.last(),
{
    lemma_run_from(results, 0);
    assert(results.skip(0) =~= results);
    lemma_all_fail(results);
}

proof fn lemma_all_fail<T>(results: Seq<Result<T, ProviderError>>)
    requires
        results.len() > 0,
    ensures
        (forall|i: int| 0 <= i < results.len() ==> results[i] is Err) ==> first_success_or_last(results)
            == results.last(),
    decreases results.len(),
{
    if results.len() > 1 {
        let rest = results.skip(1);
        lemma_all_fail(rest);
        if forall|i: int| 0 <= i < results.len() ==> results[i] is Err {
            assert forall|i: int| 0 <= i < rest.len() implies rest[i] is Err by {
                assert(rest[i] == results[i + 1]);
            }
            assert(rest.last() == results.last());
        }
    }
}

/// One run of a failover call over `provider_count` providers.
pub struct Failover {
    provider_count: usize,
    current: usize,
    finished: bool,
}

impl Failover {
    pub closed spec fn count(&self) -> nat {
        self.provider_count as nat
    }

    /// The provider being tried.
    pub closed spec fn current(&self) -> nat {
        self.current as nat
    }

    /// The run has given its result.
    pub closed spec fn finished(&self) -> bool {
        self.finished
    }

    /// A run over `provider_count` providers, none tried yet.
    pub fn new(provider_count: usize) -> (r: Failover)
        ensures
            r.count() == provider_count,
            r.current() == 0,
            r.finished() == (provider_count == 0),
    {
        Failover { provider_count, current: 0, finished: provider_count == 0 }
    }

    /// The first step: try the first provider, or fail at once when there is
    /// none.
    pub fn start<T>(&self) -> (r: FailoverStep<T>)
        ensures
            self.count() > 0 ==> r == FailoverStep::<T>::Try(0),
            self.count() == 0 ==> (r matches FailoverStep::Finish(Err(ProviderError::InvalidResponse(m)))
                && m@ == no_providers_message()),
    {
        if self.provider_count == 0 {
            FailoverStep::Finish(Err(ProviderError::InvalidResponse("No providers configured for failover".to_owned())))
        } else {
            FailoverStep::Try(0)
        }
    }

    /// The step after the current provider answered `result`: a success ends
    /// the run with it; a failure moves to the next provider, or ends the run
    /// with that failure when it was the last.
    pub fn on_result<T>(&mut self, result: Result<T, ProviderError>) -> (r: FailoverStep<T>)
        requires
            !old(self).finished(),
            old(self).current() < old(self).count(),
        ensures
            final(self).count() == old(self).count(),
            final(self).current() < final(self).count(),
            r == next_step(old(self).count(), old(self).current(), result),
            result is Ok ==> r == FailoverStep::Finish(result) && final(self).finished(),
            result is Err && old(self).current() + 1 < old(self).count() ==> r == FailoverStep::<
                T,
            >::Try((old(self).current() + 1) as usize) && final(self).current() == old(self).current()
                + 1 && !final(self).finished(),
            result is Err && old(self).current() + 1 == old(self).count() ==> r
                == FailoverStep::Finish(result) && final(self).finished(),
    {
        match result {
            Ok(v) => {
                self.finished = true;
                FailoverStep::Finish(Ok(v))
            },
            Err(e) => {
                if self.current + 1 < self.provider_count {
                    self.current = self.current + 1;
                    FailoverStep::Try(self.current)
                } else {
                    self.finished = true;
                    FailoverStep::Finish(Err(e))
                }
            },
        }
    }
}

} // verus!
