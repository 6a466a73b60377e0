//! Authentication modes and the refresh policy.
//!
//! The refresh policy is a pure decision: given the caller-supplied
//! strategy and whether a prior successful fetch is cached, it says
//! whether the resolver serves the cache, fetches, or skips fetching.

use vstd::prelude::*;

verus! {

/// How the caller is authenticated.  The resolver only reads this to
/// filter which presets are visible.
#[derive(Clone, Copy, Debug, PartialEq, Eq, Structural)]
pub enum AuthMode {
    /// Authenticated with a plain API key.
    ApiKey,
    /// Authenticated with a session (ChatGPT-style) login.
    ChatGPT,
}

/// Caller-supplied freshness requirement for one `list_models` call.
#[derive(Clone, Copy, Debug, PartialEq, Eq, Structural)]
pub enum RefreshStrategy {
    /// Never contact the remote provider; serve the cache if present,
    /// else the built-in catalog only.
    Offline,
    /// Serve the cached value if a prior successful fetch exists,
    /// regardless of age; otherwise attempt exactly one fetch.
    OnlineIfUncached,
    /// Always attempt a fresh fetch; on failure fall back to the
    /// cache, then to the built-in catalog.
    OnlineAlways,
}

/// What the refresh policy decides for one call.
#[derive(Clone, Copy, Debug, PartialEq, Eq, Structural)]
pub enum FetchDecision {
    /// A cached value exists and satisfies the strategy: serve it.
    UseCache,
    /// A fetch is required; its result is cached on success.
    FetchThenCache,
    /// No cached value exists and the strategy forbids fetching:
    /// serve the built-in catalog alone.
    SkipFetch,
}

/// The refresh policy as a pure function of the strategy and of
/// whether the cache holds a value for the provider in question.
pub open spec fn spec_refresh_decision(strategy: RefreshStrategy, cache_present: bool) -> FetchDecision {
    match strategy {
        RefreshStrategy::Offline => if cache_present {
            FetchDecision::UseCache
        } else {
            FetchDecision::SkipFetch
        },
        RefreshStrategy::OnlineIfUncached => if cache_present {
            FetchDecision::UseCache
        } else {
            FetchDecision::FetchThenCache
        },
        RefreshStrategy::OnlineAlways => FetchDecision::FetchThenCache,
    }
}

/// Decide whether this call serves the cache, fetches, or answers from
/// the built-in catalog alone.  Has no side effects.
pub fn refresh_decision(strategy: RefreshStrategy, cache_present: bool) -> (d: FetchDecision)
    ensures
        d == spec_refresh_decision(strategy, cache_present),
{
    match strategy {
        RefreshStrategy::Offline => if cache_present {
            FetchDecision::UseCache
        } else {
            FetchDecision::SkipFetch
        },
        RefreshStrategy::OnlineIfUncached => if cache_present {
            FetchDecision::UseCache
        } else {
            FetchDecision::FetchThenCache
        },
        RefreshStrategy::OnlineAlways => FetchDecision::FetchThenCache,
    }
}

} // verus!
