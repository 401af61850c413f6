//! Reputation providers that augment static analysis with external threat
//! intelligence.  The network lookups live with the application; what each
//! provider concludes from its data is decided here.

pub mod cloudflare;
pub mod domain;
pub mod github_advisory;
pub mod osv;
pub mod urlhaus;
pub mod virustotal;

use vstd::prelude::*;

verus! {

/// Credentials for the optional reputation providers.
pub struct ReputationConfig {
    pub virustotal_api_key: Option<String>,
    pub cloudflare_api_token: Option<String>,
}

} // verus!
