use vstd::prelude::*;

use crate::activity::{
    collect_daily_activity, count_user_prompts_in_window, day_prompt_count, prompt_count,
    DailyActivity, };
use crate::model::TokenUsage;
use crate::parser::{parse_usage_from_file, parsed_lines, views, ParsedEntry, ParsedEntryView};
use crate::quota::{clamped_percent, local_quota, QuotaInfo, PROMPT_LIMIT, WEEK_PROMPT_LIMIT};
use crate::sessions::{
    build_active_sessions, is_session_row, lists_session, session_count, ActiveSession, TodoFile,
};
use crate::text::seq_lt;
use crate::time::{start_of_utc_day, Instant, SECS_PER_DAY, day_number};
use crate::totals::{
    all_tokens, cost_sum, counter, has_model, in_period, latest_of, period_count, period_sum, period_usage, rank,
    row_matches, sums_fit, usage_sum, ModelUsage,
};

verus! {

/// The usage summary of a period.
#[derive(Debug)]
pub struct UsageStats {
    pub total_tokens: TokenUsage,
    /// In picodollars.
    pub total_cost: u128,
    pub by_model: Vec<ModelUsage>,
    pub session_count: u32,
    pub last_updated: String,
    pub quota: QuotaInfo,
    pub active_sessions: Vec<ActiveSession>,
    pub daily_activity: Vec<DailyActivity>,
}

/// What a summary holds of the period's entries and of the active sessions.
pub open spec fn summarizes(
    r: UsageStats,
    es: Seq<ParsedEntryView>,
    since: Option<Instant>,
    now: Instant,
    todos: Seq<TodoFile>,
) -> bool {
    &&& forall|k: int| 0 <= k < 4 ==> counter(r.total_tokens, k) == period_sum(es, since, None, k)
    &&& forall|k: int| 0 <= k < 4 ==> usage_sum(r.by_model@, k) == counter(r.total_tokens, k)
    &&& forall|j: int| 0 <= j < r.by_model@.len() ==> row_matches(#[trigger] r.by_model@[j], es, since)
    &&& forall|a: int, b: int| 0 <= a < b < r.by_model@.len() ==> rank(r.by_model@[a]) >= rank(r.by_model@[b])
    &&& forall|a: int, b: int| 0 <= a < b < r.by_model@.len() ==> r.by_model@[a].model@ != r.by_model@[b].model@
    &&& forall|t: int| 0 <= t < es.len() && in_period(#[trigger] es[t], since) ==> has_model(r.by_model@, es[t].model)
    &&& r.total_cost == cost_sum(r.by_model@)
    &&& r.session_count == period_count(es, since)
    &&& r.last_updated@ == latest_of(es, since)
    &&& forall|i: int| 0 <= i < r.active_sessions@.len() ==> is_session_row(#[trigger] r.active_sessions@[i], es, now, todos)
    &&& forall|a: int, b: int| 0 <= a < b < r.active_sessions@.len() ==> !seq_lt(
        r.active_sessions@[a].last_activity@,
        r.active_sessions@[b].last_activity@,
    )
    &&& forall|sid: Seq<char>| session_count(es, now, sid) > 0 ==> #[trigger] lists_session(r.active_sessions@, es, now, todos, sid)
}

/// Folds the entries into the summary of the period that starts at `since`,
/// with the sessions active in the 24 hours before `now` (whatever the
/// period), the local quota estimate and the given heatmap.
pub fn aggregate_usage(
    entries: &Vec<ParsedEntry>,
    since: Option<Instant>,
    now: Instant,
    quota_window_prompts: u32,
    week_prompts: u32,
    daily_activity: Vec<DailyActivity>,
    todos: &Vec<TodoFile>,
) -> (r: UsageStats)
    requires
        sums_fit(views(entries@)),
    ensures
        summarizes(r, views(entries@), since, now, todos@),
        r.quota.messages_in_window == quota_window_prompts,
        r.quota.usage_percent == clamped_percent(quota_window_prompts as int, PROMPT_LIMIT as int),
        r.quota.week_usage_percent == clamped_percent(week_prompts as int, WEEK_PROMPT_LIMIT as int),
        r.daily_activity@ == daily_activity@,
{
    let p = period_usage(entries, &since);
    let active_sessions = build_active_sessions(entries, &now, todos);
    UsageStats {
        total_tokens: p.total,
        total_cost: p.total_cost,
        by_model: p.by_model,
        session_count: p.message_count,
        last_updated: p.last_updated,
        quota: local_quota(quota_window_prompts, week_prompts),
        active_sessions,
        daily_activity,
    }
}

/// The periods that a summary can cover.
#[derive(Debug, Clone, Copy, PartialEq, Eq, Structural)]
pub enum Period {
    Today,
    Week,
    Month,
    All,
}

/// The period a name selects: "today", "week", "month"; anything else is all.
pub open spec fn period_of(name: Seq<char>) -> Period {
    if name == "today"@ {
        Period::Today
    } else if name == "week"@ {
        Period::Week
    } else if name == "month"@ {
        Period::Month
    } else {
        Period::All
    }
}

pub fn parse_period(name: &str) -> (r: Period)
    ensures
        r == period_of(name@),
{
    if crate::text::str_eq(name, "today") {
        Period::Today
    } else if crate::text::str_eq(name, "week") {
        Period::Week
    } else if crate::text::str_eq(name, "month") {
        Period::Month
    } else {
        Period::All
    }
}

/// How recently a log file must have changed to be read for a period, in
/// hours: a day, a week or a month with some slack; no limit for all.
pub open spec fn max_age_hours_of(p: Period) -> Option<u32> {
    match p {
        Period::Today => Some(25),
        Period::Week => Some(192),
        Period::Month => Some(768),
        Period::All => None,
    }
}

pub fn period_max_age_hours(p: Period) -> (r: Option<u32>)
    ensures
        r == max_age_hours_of(p),
{
    match p {
        Period::Today => Some(25),
        Period::Week => Some(192),
        Period::Month => Some(768),
        Period::All => None,
    }
}

/// The start of a period at `now`: the start of the UTC day, 7 or 30 days
/// before, or none.
pub open spec fn since_of(p: Period, now: Instant) -> Option<Instant> {
    match p {
        Period::Today => Some(Instant { secs: (day_number(now.secs as int) * SECS_PER_DAY) as i64, nanos: 0 }),
        Period::Week => Some(Instant { secs: (now.secs - 7 * SECS_PER_DAY) as i64, nanos: now.nanos }),
        Period::Month => Some(Instant { secs: (now.secs - 30 * SECS_PER_DAY) as i64, nanos: now.nanos }),
        Period::All => None,
    }
}

pub fn period_since(p: Period, now: &Instant) -> (r: Option<Instant>)
    requires
        now.secs > i64::MIN + 30 * SECS_PER_DAY,
    ensures
        r == since_of(p, *now),
{
    match p {
        Period::Today => Some(start_of_utc_day(now)),
        Period::Week => Some(Instant { secs: now.secs - 7 * SECS_PER_DAY, nanos: now.nanos }),
        Period::Month => Some(Instant { secs: now.secs - 30 * SECS_PER_DAY, nanos: now.nanos }),
        Period::All => None,
    }
}

/// The log lines that a summary reads, as the caller found them on disk.
pub struct LocalLogs {
    /// One item per log file of the period: its lines, or `None` where the
    /// file could not be read.
    pub usage_files: Vec<Option<Vec<String>>>,
    /// Lines of the files changed in the last 6 hours.
    pub five_hour_lines: Vec<String>,
    /// Lines of the files changed in the last 8 days.
    pub week_lines: Vec<String>,
    /// Lines of the files changed in the last 85 days.
    pub activity_lines: Vec<String>,
    /// The task-list files, in the order they are searched.
    pub todos: Vec<TodoFile>,
}

/// Why no summary could be made.
#[derive(Debug, Clone, Copy, PartialEq, Eq, Structural)]
pub enum UsageError {
    /// None of the log directories exists.
    NoDataDirectories,
    /// More entries or tokens than the counters can hold.
    TooMuchData,
}

/// The assistant turns of all readable files, file after file.
pub open spec fn file_entries(files: Seq<Option<Vec<String>>>) -> Seq<ParsedEntryView>
    decreases files.len(),
{
    if files.len() == 0 {
        Seq::empty()
    } else {
        file_entries(files.drop_last()) + match files.last() {
            Some(lines) => parsed_lines(lines@),
            None => Seq::empty(),
        }
    }
}

/// The entries of every readable file, in order; unreadable files are skipped.
pub fn parse_files(files: &Vec<Option<Vec<String>>>) -> (r: Vec<ParsedEntry>)
    ensures
        views(r@) == file_entries(files@),
{
    let mut all: Vec<ParsedEntry> = Vec::new();
    let mut i: usize = 0;
    assert(views(all@) =~= Seq::<ParsedEntryView>::empty());
    while i < files.len()
        invariant
            i <= files@.len(),
            views(all@) == file_entries(files@.subrange(0, i as int)),
        decreases files@.len() - i,
    {
        let ghost next = files@.subrange(0, i + 1);
        assert(next.drop_last() =~= files@.subrange(0, i as int));
        match &files[i] {
            Some(lines) => {
                let mut more = parse_usage_from_file(lines);
                let ghost before = all@;
                let ghost added = more@;
                all.append(&mut more);
                assert(views(all@) =~= views(before) + views(added));
            },
            None => {
                assert(views(all@) =~= views(all@) + Seq::<ParsedEntryView>::empty());
            },
        }
        i += 1;
    }
    assert(files@.subrange(0, files@.len() as int) =~= files@);
    all
}

proof fn lemma_all_tokens_push(es: Seq<ParsedEntryView>, e: ParsedEntryView)
    ensures
        all_tokens(es.push(e)) == all_tokens(es) + e.tokens.all(),
{
    assert(es.push(e).drop_last() =~= es);
}

/// Whether the entries are few and small enough to be summed exactly.
pub fn entries_fit(entries: &Vec<ParsedEntry>) -> (r: bool)
    ensures
        r == sums_fit(views(entries@)),
{
    if entries.len() > u32::MAX as usize {
        return false;
    }
    let mut sum: u128 = 0;
    let mut i: usize = 0;
    while i < entries.len()
        invariant
            i <= entries@.len(),
            sum == all_tokens(views(entries@).subrange(0, i as int)),
            sum <= u64::MAX,
        decreases entries@.len() - i,
    {
        let ghost pre = views(entries@).subrange(0, i as int);
        assert(views(entries@).subrange(0, i + 1) =~= pre.push(entries@[i as int]@));
        proof {
            lemma_all_tokens_push(pre, entries@[i as int]@);
        }
        let t = entries[i].tokens;
        sum = sum + t.input_tokens as u128 + t.output_tokens as u128
            + t.cache_creation_input_tokens as u128 + t.cache_read_input_tokens as u128;
        if sum > u64::MAX as u128 {
            proof {
                crate::totals::lemma_all_tokens_prefix(views(entries@), i + 1);
            }
            return false;
        }
        i += 1;
    }
    assert(views(entries@).subrange(0, entries@.len() as int) =~= views(entries@));
    true
}

/// The usage summary of a period (named "today", "week", "month", or
/// anything else for all time) at `now`, from the local logs. Fails where no
/// log directory was found, or where the logs hold more than the counters
/// can sum.
pub fn get_current_usage(period: &str, now: &Instant, dirs_found: bool, logs: &LocalLogs) -> (r: Result<UsageStats, UsageError>)
    requires
        now.secs > i64::MIN + 30 * SECS_PER_DAY,
    ensures
        !dirs_found ==> r == Err::<UsageStats, UsageError>(UsageError::NoDataDirectories),
        dirs_found ==> (r is Err <==> !(sums_fit(file_entries(logs.usage_files@))
            && logs.five_hour_lines@.len() <= u32::MAX && logs.week_lines@.len() <= u32::MAX
            && logs.activity_lines@.len() <= u32::MAX)),
        r is Err ==> r == Err::<UsageStats, UsageError>(UsageError::NoDataDirectories) || r == Err::<UsageStats, UsageError>(UsageError::TooMuchData),
        r is Ok ==> summarizes(
            r.unwrap(),
            file_entries(logs.usage_files@),
            since_of(period_of(period@), *now),
            *now,
            logs.todos@,
        ),
        r is Ok ==> r.unwrap().quota.messages_in_window == prompt_count(logs.five_hour_lines@, *now, 5),
        r is Ok ==> r.unwrap().quota.usage_percent == clamped_percent(
            prompt_count(logs.five_hour_lines@, *now, 5),
            PROMPT_LIMIT as int,
        ),
        r is Ok ==> r.unwrap().quota.week_usage_percent == clamped_percent(
            prompt_count(logs.week_lines@, *now, 168),
            WEEK_PROMPT_LIMIT as int,
        ),
        r is Ok ==> forall|i: int|
            0 <= i < r.unwrap().daily_activity@.len() ==> (#[trigger] r.unwrap().daily_activity@[i]).prompt_count
                == day_prompt_count(logs.activity_lines@, *now, r.unwrap().daily_activity@[i].date@),
{
    if !dirs_found {
        return Err(UsageError::NoDataDirectories);
    }
    let entries = parse_files(&logs.usage_files);
    if !entries_fit(&entries) || logs.five_hour_lines.len() > u32::MAX as usize
        || logs.week_lines.len() > u32::MAX as usize || logs.activity_lines.len() > u32::MAX as usize {
        return Err(UsageError::TooMuchData);
    }
    let window_prompts = count_user_prompts_in_window(&logs.five_hour_lines, now, 5);
    let week_prompts = count_user_prompts_in_window(&logs.week_lines, now, 168);
    let daily = collect_daily_activity(&logs.activity_lines, now);
    let since = period_since(parse_period(period), now);
    Ok(aggregate_usage(&entries, since, *now, window_prompts, week_prompts, daily, &logs.todos))
}

/// What the status query reports: the share of the week used, in
/// hundredths of a percent (zero where no summary could be made), and the
/// days left until the weekly reset.
pub fn compute_usage_summary(week: &Result<UsageStats, UsageError>, now: &Instant) -> (r: (u32, u32))
    ensures
        r.0 == (match week {
            Ok(s) => s.quota.week_usage_percent,
            Err(_) => 0,
        }),
        r.1 == crate::time::days_until_reset_of(now.secs as int),
{
    let days = crate::time::compute_days_until_reset(now);
    match week {
        Ok(s) => (s.quota.week_usage_percent, days),
        Err(_) => (0, days),
    }
}

} // verus!
