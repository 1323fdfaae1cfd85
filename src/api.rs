use vstd::prelude::*;

use crate::model::TokenUsage;

verus! {

/// Cache writes of a remote usage result, by cache lifetime.
#[derive(Debug, Clone, Copy, PartialEq, Eq, Structural)]
pub struct CacheCreation {
    pub ephemeral_1h_input_tokens: u64,
    pub ephemeral_5m_input_tokens: u64,
}

/// One model's usage in a bucket of the remote usage report.
#[derive(Debug)]
pub struct UsageResult {
    pub model: Option<String>,
    pub uncached_input_tokens: u64,
    pub output_tokens: u64,
    pub cache_read_input_tokens: u64,
    pub cache_creation: Option<CacheCreation>,
}

/// A time bucket of the remote usage report.
#[derive(Debug)]
pub struct UsageBucket {
    pub starting_at: String,
    pub ending_at: String,
    pub results: Vec<UsageResult>,
}

/// The first page of the remote usage report.
#[derive(Debug)]
pub struct UsageReportResponse {
    pub data: Vec<UsageBucket>,
    pub has_more: bool,
    pub next_page: Option<String>,
}

/// One cost line of the remote cost report; the amount is a decimal number
/// of cents.
#[derive(Debug)]
pub struct CostResult {
    pub amount: Option<String>,
    pub currency: Option<String>,
    pub model: Option<String>,
    pub cost_type: Option<String>,
}

/// A time bucket of the remote cost report.
#[derive(Debug)]
pub struct CostBucket {
    pub starting_at: String,
    pub ending_at: String,
    pub results: Vec<CostResult>,
}

/// The first page of the remote cost report.
#[derive(Debug)]
pub struct CostReportResponse {
    pub data: Vec<CostBucket>,
    pub has_more: bool,
    pub next_page: Option<String>,
}

/// Cache writes of a result, both lifetimes together; none where it gives none.
pub open spec fn cache_writes(r: UsageResult) -> int {
    match r.cache_creation {
        Some(c) => c.ephemeral_5m_input_tokens + c.ephemeral_1h_input_tokens,
        None => 0,
    }
}

/// The counters of a remote usage result.
pub fn usage_result_tokens(r: &UsageResult) -> (t: TokenUsage)
    requires
        cache_writes(*r) <= u64::MAX,
    ensures
        t.input_tokens == r.uncached_input_tokens,
        t.output_tokens == r.output_tokens,
        t.cache_read_input_tokens == r.cache_read_input_tokens,
        t.cache_creation_input_tokens == cache_writes(*r),
{
    let cache = match &r.cache_creation {
        Some(c) => c.ephemeral_5m_input_tokens + c.ephemeral_1h_input_tokens,
        None => 0,
    };
    TokenUsage {
        input_tokens: r.uncached_input_tokens,
        output_tokens: r.output_tokens,
        cache_creation_input_tokens: cache,
        cache_read_input_tokens: r.cache_read_input_tokens,
    }
}

/// The model a remote result is for, "unknown" where it names none.
pub fn remote_model_name(r: &UsageResult) -> (s: String)
    ensures
        s@ == (match r.model {
            Some(m) => m@,
            None => "unknown"@,
        }),
{
    match &r.model {
        Some(m) => m.clone(),
        None => "unknown".to_owned(),
    }
}

} // verus!
