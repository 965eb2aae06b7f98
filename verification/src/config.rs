//! Data-layer settings. Secrets come from the environment, never from here.
use vstd::prelude::*;

use crate::text::string_of;

verus! {

/// Data layer settings.
#[derive(Debug, Clone)]
pub struct DataConfig {
    /// Polite User-Agent for SEC-EDGAR (their fair-access policy requires one).
    pub sec_user_agent: String,
    /// Per-request timeout (seconds) for HTTP fetchers.
    pub http_timeout_s: u64,
}

impl Default for DataConfig {
    fn default() -> (c: Self)
        ensures
            c.sec_user_agent@ == "sovereign-rs/0.1 (contact: ops@example.com)"@,
            c.http_timeout_s == 10,
    {
        DataConfig {
            sec_user_agent: string_of("sovereign-rs/0.1 (contact: ops@example.com)"),
            http_timeout_s: 10,
        }
    }
}

} // verus!
