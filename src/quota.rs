use vstd::prelude::*;

verus! {

/// An estimate of the share of the plan used in rolling windows.
#[derive(Debug)]
pub struct QuotaInfo {
    pub messages_in_window: u32,
    pub window_hours: u32,
    pub estimated_limit: u32,
    /// Share of the 5-hour window used, in hundredths of a percent.
    pub usage_percent: u32,
    pub plan: String,
    /// Share of the week used, in hundredths of a percent.
    pub week_usage_percent: u32,
    pub week_limit_hours: u32,
}

pub const WINDOW_HOURS: u32 = 5;

pub const PROMPT_LIMIT: u32 = 125;

/// Prompts in a week at the 5-hour rate: 125 * 7 * 24 / 5.
pub const WEEK_PROMPT_LIMIT: u32 = 4200;

pub const WEIGHTED_LIMIT: u32 = 500;

pub const WEEK_WEIGHTED_LIMIT: u32 = 2590;

pub const WEEK_LIMIT_HOURS: u32 = 210;

/// `used` out of `limit`, in hundredths of a percent rounded down, at most 100%.
pub open spec fn clamped_percent(used: int, limit: int) -> int {
    if used * 10000 / limit > 10000 {
        10000
    } else {
        used * 10000 / limit
    }
}

pub fn percent_of(used: u64, limit: u32) -> (r: u32)
    requires
        limit > 0,
    ensures
        r == clamped_percent(used as int, limit as int),
        r <= 10000,
{
    let p = used as u128 * 10000 / limit as u128;
    if p > 10000 {
        10000
    } else {
        p as u32
    }
}

/// The estimate from local logs alone: genuine prompts in the last 5 hours
/// against 125, and in the last week against 4200.
pub fn local_quota(window_prompts: u32, week_prompts: u32) -> (r: QuotaInfo)
    ensures
        r.messages_in_window == window_prompts,
        r.window_hours == WINDOW_HOURS,
        r.estimated_limit == PROMPT_LIMIT,
        r.usage_percent == clamped_percent(window_prompts as int, PROMPT_LIMIT as int),
        r.week_usage_percent == clamped_percent(week_prompts as int, WEEK_PROMPT_LIMIT as int),
        r.week_limit_hours == WEEK_LIMIT_HOURS,
        r.plan@ == "Max 5x"@,
        r.usage_percent <= 10000 && r.week_usage_percent <= 10000,
{
    QuotaInfo {
        messages_in_window: window_prompts,
        window_hours: WINDOW_HOURS,
        estimated_limit: PROMPT_LIMIT,
        usage_percent: percent_of(window_prompts as u64, PROMPT_LIMIT),
        plan: "Max 5x".to_owned(),
        week_usage_percent: percent_of(week_prompts as u64, WEEK_PROMPT_LIMIT),
        week_limit_hours: WEEK_LIMIT_HOURS,
    }
}

/// The estimate used beside the remote accounting source: weighted usage in
/// the last 5 hours against 500, and in the last week against 2590.
pub fn remote_quota(window_prompts: u32, window_weighted: u64, week_weighted: u64) -> (r: QuotaInfo)
    ensures
        r.messages_in_window == window_prompts,
        r.window_hours == WINDOW_HOURS,
        r.estimated_limit == WEIGHTED_LIMIT,
        r.usage_percent == clamped_percent(window_weighted as int, WEIGHTED_LIMIT as int),
        r.week_usage_percent == clamped_percent(week_weighted as int, WEEK_WEIGHTED_LIMIT as int),
        r.week_limit_hours == WEEK_LIMIT_HOURS,
        r.plan@ == "Max 5x"@,
        r.usage_percent <= 10000 && r.week_usage_percent <= 10000,
{
    QuotaInfo {
        messages_in_window: window_prompts,
        window_hours: WINDOW_HOURS,
        estimated_limit: WEIGHTED_LIMIT,
        usage_percent: percent_of(window_weighted, WEIGHTED_LIMIT),
        plan: "Max 5x".to_owned(),
        week_usage_percent: percent_of(week_weighted, WEEK_WEIGHTED_LIMIT),
        week_limit_hours: WEEK_LIMIT_HOURS,
    }
}

} // verus!
