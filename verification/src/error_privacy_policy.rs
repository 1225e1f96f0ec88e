//! Privacy policy applied to decoding diagnostics.

use vstd::prelude::*;

verus! {

/// Controls whether decoding errors retain input-derived diagnostics.
#[non_exhaustive]
#[derive(Debug, Clone, Copy, PartialEq, Eq, Structural)]
pub enum ErrorPrivacyPolicy {
    /// Removes input-derived serde messages and sources from decoding errors.
    Redacted,
    /// Retains complete serde messages and sources for diagnostic use.
    Detailed,
}

impl Default for ErrorPrivacyPolicy {
    /// Returns [`ErrorPrivacyPolicy::Redacted`], the privacy-preserving default.
    fn default() -> (policy: Self)
        ensures
            policy == ErrorPrivacyPolicy::Redacted,
    {
        ErrorPrivacyPolicy::Redacted
    }
}

} // verus!
