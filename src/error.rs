//! Errors at the two boundaries: a provider's fetch, and a cache query.

use crate::text::{decimal_digits, decimal_text};
use vstd::prelude::*;

verus! {

/// Why a provider could not deliver prices.
#[derive(Debug, Clone)]
pub enum ProviderError {
    /// The request could not be made or completed; the transport's message.
    NetworkError(String),
    /// The response could not be understood.
    InvalidResponse(String),
    /// The provider refused the request for its rate limit.
    RateLimitExceeded,
    /// The provider has no price for the asset.
    UnsupportedAsset(String),
    /// The provider answered with an error status.
    ApiError(String),
    /// No response in time.
    Timeout,
}

/// Why a price could not be read.
#[derive(Debug, Clone)]
pub enum PriceError {
    /// No price was ever written for the asset.
    NotAvailable { asset: String },
    /// The latest price is older than the freshness threshold; its age in
    /// whole seconds.
    Stale { asset: String, age_secs: u64 },
    /// The upstream provider failed.
    ProviderFailure(String),
    /// Internal error.
    Internal(String),
}

impl ProviderError {
    /// The error's text.
    pub open spec fn spec_message(&self) -> Seq<char> {
        match self {
            ProviderError::NetworkError(m) => "Network error: "@ + m@,
            ProviderError::InvalidResponse(m) => "Invalid response: "@ + m@,
            ProviderError::RateLimitExceeded => "Rate limit exceeded"@,
            ProviderError::UnsupportedAsset(m) => "Asset not supported: "@ + m@,
            ProviderError::ApiError(m) => "Provider API error: "@ + m@,
            ProviderError::Timeout => "Request timeout"@,
        }
    }

    /// The error's text, for logs and users.
    pub fn message(&self) -> (r: String)
        ensures
            r@ == self.spec_message(),
    {
        match self {
            ProviderError::NetworkError(m) => {
                let mut r = "Network error: ".to_owned();
                r.append(m.as_str());
                r
            },
            ProviderError::InvalidResponse(m) => {
                let mut r = "Invalid response: ".to_owned();
                r.append(m.as_str());
                r
            },
            ProviderError::RateLimitExceeded => "Rate limit exceeded".to_owned(),
            ProviderError::UnsupportedAsset(m) => {
                let mut r = "Asset not supported: ".to_owned();
                r.append(m.as_str());
                r
            },
            ProviderError::ApiError(m) => {
                let mut r = "Provider API error: ".to_owned();
                r.append(m.as_str());
                r
            },
            ProviderError::Timeout => "Request timeout".to_owned(),
        }
    }
}

impl PriceError {
    /// The error's text; an age is written in whole seconds (`"301s"`).
    pub open spec fn spec_message(&self) -> Seq<char> {
        match self {
            PriceError::NotAvailable { asset } => "Price data not available for "@ + asset@,
            PriceError::Stale { asset, age_secs } => "Price data for "@ + asset@ + " is stale (age: "@
                + decimal_digits(*age_secs as nat) + "s)"@,
            PriceError::ProviderFailure(m) => "All providers failed: "@ + m@,
            PriceError::Internal(m) => "Internal error: "@ + m@,
        }
    }

    /// The error's text, for logs and users.
    pub fn message(&self) -> (r: String)
        ensures
            r@ == self.spec_message(),
    {
        match self {
            PriceError::NotAvailable { asset } => {
                let mut r = "Price data not available for ".to_owned();
                r.append(asset.as_str());
                r
            },
            PriceError::Stale { asset, age_secs } => {
                let mut r = "Price data for ".to_owned();
                r.append(asset.as_str());
                r.append(" is stale (age: ");
                r.append(decimal_text(*age_secs).as_str());
                r.append("s)");
                r
            },
            PriceError::ProviderFailure(m) => {
                let mut r = "All providers failed: ".to_owned();
                r.append(m.as_str());
                r
            },
            PriceError::Internal(m) => {
                let mut r = "Internal error: ".to_owned();
                r.append(m.as_str());
                r
            },
        }
    }

    /// The asset's price was never written.
    pub fn not_available(asset: &str) -> (r: PriceError)
        ensures
            r matches PriceError::NotAvailable { asset: a } && a@ == asset@,
    {
        PriceError::NotAvailable { asset: asset.to_owned() }
    }

    /// The asset's price is `age_secs` old, past the threshold.
    pub fn stale(asset: &str, age_secs: u64) -> (r: PriceError)
        ensures
            r matches PriceError::Stale { asset: a, age_secs: g } && a@ == asset@ && g == age_secs,
    {
        PriceError::Stale { asset: asset.to_owned(), age_secs }
    }

    /// The upstream provider failed with `msg`.
    pub fn provider_failure(msg: String) -> (r: PriceError)
        ensures
            r matches PriceError::ProviderFailure(m) && m@ == msg@,
    {
        PriceError::ProviderFailure(msg)
    }

    /// An internal failure described by `msg`.
    pub fn internal(msg: String) -> (r: PriceError)
        ensures
            r matches PriceError::Internal(m) && m@ == msg@,
    {
        PriceError::Internal(msg)
    }
}

} // verus!
