use vstd::prelude::*;

use crate::activity::{
    ascending_dates, collect_daily_activity, count_user_prompts_in_window, prompt_count,
    DailyActivity,
};
use crate::api::{
    cache_writes, remote_model_name, usage_result_tokens, UsageBucket, UsageReportResponse,
    UsageResult,
};
use crate::text::str_eq;
use crate::model::{display_name_of, TokenUsage};
use crate::parser::{parse_usage_from_file, parsed_lines, views, ParsedEntry, ParsedEntryView};
use crate::quota::{clamped_percent, remote_quota, QuotaInfo, WEEK_WEIGHTED_LIMIT, WEIGHTED_LIMIT};
use crate::sessions::{
    build_active_sessions, is_session_row, lists_session, session_count, ActiveSession,
};
use crate::text::seq_lt;
use crate::time::{is_within_hours, parse_rfc3339, rfc3339_of, within_hours, Instant};
use crate::totals::{
    cost_sum, counter, has_model, latest_of, period_sum, period_usage, rank, sums_fit, usage_sum, ModelUsage,
};
use crate::usage::{entries_fit, file_entries, parse_files, LocalLogs, UsageStats};

verus! {

/// The cost of one line of the remote cost report, in picodollars.
pub struct ModelCost {
    pub model: String,
    pub cost: u64,
}

/// The model a remote result is for.
pub open spec fn result_model(r: UsageResult) -> Seq<char> {
    match r.model {
        Some(m) => m@,
        None => "unknown"@,
    }
}

/// A remote result as an entry of its model.
pub open spec fn result_entry(r: UsageResult) -> ParsedEntryView {
    ParsedEntryView {
        model: result_model(r),
        tokens: TokenUsage {
            input_tokens: r.uncached_input_tokens,
            output_tokens: r.output_tokens,
            cache_creation_input_tokens: cache_writes(r) as u64,
            cache_read_input_tokens: r.cache_read_input_tokens,
        },
        timestamp: Seq::empty(),
        session_id: Seq::empty(),
        cwd: Seq::empty(),
    }
}

/// The results of all buckets, as entries, bucket after bucket.
pub open spec fn report_entries(data: Seq<UsageBucket>) -> Seq<ParsedEntryView>
    decreases data.len(),
{
    if data.len() == 0 {
        Seq::empty()
    } else {
        report_entries(data.drop_last()) + data.last().results@.map_values(|r: UsageResult| result_entry(r))
    }
}

/// Every result's cache writes fit in a counter.
pub open spec fn cache_fits(data: Seq<UsageBucket>) -> bool {
    forall|b: int, i: int|
        0 <= b < data.len() && 0 <= i < data[b].results@.len() ==> cache_writes(#[trigger] data[b].results@[i]) <= u64::MAX
}

/// The costs of `model`, summed.
pub open spec fn model_cost(costs: Seq<ModelCost>, model: Seq<char>) -> int
    decreases costs.len(),
{
    if costs.len() == 0 {
        0
    } else {
        model_cost(costs.drop_last(), model) + if costs.last().model@ == model {
            costs.last().cost as int
        } else {
            0
        }
    }
}

fn report_to_entries(report: &UsageReportResponse) -> (r: Option<Vec<ParsedEntry>>)
    ensures
        r is Some <==> cache_fits(report.data@),
        r is Some ==> views(r.unwrap()@) == report_entries(report.data@),
{
    let mut out: Vec<ParsedEntry> = Vec::new();
    let mut b: usize = 0;
    assert(views(out@) =~= Seq::<ParsedEntryView>::empty());
    while b < report.data.len()
        invariant
            b <= report.data@.len(),
            views(out@) == report_entries(report.data@.subrange(0, b as int)),
            cache_fits(report.data@.subrange(0, b as int)),
        decreases report.data@.len() - b,
    {
        let bucket = &report.data[b];
        let ghost base = views(out@);
        let mut i: usize = 0;
        while i < bucket.results.len()
            invariant
                i <= bucket.results@.len(),
                b < report.data@.len(),
                bucket == report.data@[b as int],
                views(out@) == base + bucket.results@.subrange(0, i as int).map_values(|r: UsageResult| result_entry(r)),
                forall|k: int| 0 <= k < i ==> cache_writes(#[trigger] bucket.results@[k]) <= u64::MAX,
            decreases bucket.results@.len() - i,
        {
            let res = &bucket.results[i];
            let fits = match &res.cache_creation {
                Some(c) => c.ephemeral_5m_input_tokens <= u64::MAX - c.ephemeral_1h_input_tokens,
                None => true,
            };
            if !fits {
                proof {
                    assert(res == report.data@[b as int].results@[i as int]);
                    assert(cache_writes(report.data@[b as int].results@[i as int]) > u64::MAX);
                    assert(!cache_fits(report.data@));
                }
                return None;
            }
            let e = ParsedEntry {
                model: remote_model_name(res),
                tokens: usage_result_tokens(res),
                timestamp: String::new(),
                session_id: String::new(),
                cwd: String::new(),
            };
            assert(e@ == result_entry(*res));
            assert(bucket.results@.subrange(0, i + 1).map_values(|r: UsageResult| result_entry(r))
                =~= bucket.results@.subrange(0, i as int).map_values(|r: UsageResult| result_entry(r)).push(result_entry(*res)));
            assert(views(out@.push(e)) =~= views(out@).push(e@));
            out.push(e);
            i += 1;
        }
        let ghost next = report.data@.subrange(0, b + 1);
        assert(next.drop_last() =~= report.data@.subrange(0, b as int));
        assert(bucket.results@.subrange(0, i as int) =~= bucket.results@);
        assert forall|x: int, k: int|
            0 <= x < next.len() && 0 <= k < next[x].results@.len() implies cache_writes(#[trigger] next[x].results@[k]) <= u64::MAX by {
            if x < b {
                assert(next[x] == report.data@.subrange(0, b as int)[x]);
            }
        }
        b += 1;
    }
    assert(report.data@.subrange(0, report.data@.len() as int) =~= report.data@);
    Some(out)
}

fn cost_of_model(costs: &Vec<ModelCost>, model: &str) -> (r: u128)
    requires
        costs@.len() <= usize::MAX,
    ensures
        r == model_cost(costs@, model@),
{
    let mut sum: u128 = 0;
    let mut i: usize = 0;
    while i < costs.len()
        invariant
            i <= costs@.len(),
            sum == model_cost(costs@.subrange(0, i as int), model@),
            sum <= i * (u64::MAX as int),
        decreases costs@.len() - i,
    {
        assert(costs@.subrange(0, i + 1).drop_last() =~= costs@.subrange(0, i as int));
        if str_eq(costs[i].model.as_str(), model) {
            sum = sum + costs[i].cost as u128;
        }
        i += 1;
    }
    assert(costs@.subrange(0, costs@.len() as int) =~= costs@);
    sum
}

/// What the remote reports say of the period, per model.
pub struct RemoteUsage {
    pub by_model: Vec<ModelUsage>,
    pub total: TokenUsage,
    /// In picodollars.
    pub total_cost: u128,
}

/// Joins the remote usage report with the remote costs: one row per model,
/// its tokens summed over all results of the first page and its cost over
/// the cost lines that name it, highest input plus output first. `None`
/// where the counters cannot hold the sums.
pub fn build_remote_usage(report: &UsageReportResponse, costs: &Vec<ModelCost>) -> (r: Option<RemoteUsage>)
    requires
        costs@.len() <= u32::MAX,
    ensures
        r is Some <==> cache_fits(report.data@) && sums_fit(report_entries(report.data@)),
        r is Some ==> r.unwrap().total_cost == cost_sum(r.unwrap().by_model@),
        r is Some ==> ({
            let u = r.unwrap();
            let es = report_entries(report.data@);
            &&& forall|k: int| 0 <= k < 4 ==> counter(u.total, k) == period_sum(es, None, None, k)
            &&& forall|k: int| 0 <= k < 4 ==> usage_sum(u.by_model@, k) == counter(u.total, k)
            &&& forall|j: int|
                0 <= j < u.by_model@.len() ==> forall|k: int|
                    0 <= k < 4 ==> counter((#[trigger] u.by_model@[j]).tokens, k) == period_sum(
                        es,
                        None,
                        Some(u.by_model@[j].model@),
                        k,
                    )
            &&& forall|j: int|
                0 <= j < u.by_model@.len() ==> (#[trigger] u.by_model@[j]).cost == model_cost(costs@, u.by_model@[j].model@)
                    && u.by_model@[j].display_name@ == display_name_of(u.by_model@[j].model@)
            &&& forall|a: int, b: int| 0 <= a < b < u.by_model@.len() ==> rank(u.by_model@[a]) >= rank(u.by_model@[b])
            &&& forall|a: int, b: int| 0 <= a < b < u.by_model@.len() ==> u.by_model@[a].model@ != u.by_model@[b].model@
            &&& forall|t: int| 0 <= t < es.len() ==> has_model(u.by_model@, #[trigger] es[t].model)
        }),
{
    let entries = match report_to_entries(report) {
        Some(e) => e,
        None => {
            return None;
        },
    };
    if !entries_fit(&entries) {
        return None;
    }
    let p = period_usage(&entries, &None);
    let rows = p.by_model;
    let mut out: Vec<ModelUsage> = Vec::new();
    let mut total_cost: u128 = 0;
    let mut i: usize = 0;
    while i < rows.len()
        invariant
            i <= rows@.len(),
            rows@.len() <= u32::MAX,
            costs@.len() <= u32::MAX,
            out@.len() == i,
            forall|j: int|
                0 <= j < i ==> (#[trigger] out@[j]).tokens == rows@[j].tokens && out@[j].model@ == rows@[j].model@
                    && out@[j].display_name@ == rows@[j].display_name@ && out@[j].cost == model_cost(
                    costs@,
                    rows@[j].model@,
                ),
            forall|k: int| usage_sum(out@, k) == usage_sum(rows@.subrange(0, i as int), k),
            total_cost == cost_sum(out@),
            total_cost <= i * max_model_cost(),
        decreases rows@.len() - i,
    {
        let row = &rows[i];
        let c = cost_of_model(costs, row.model.as_str());
        proof {
            lemma_model_cost_bound(costs@, row.model@);
            assert(i * max_model_cost() + max_model_cost() <= u32::MAX * max_model_cost()) by (nonlinear_arith)
                requires i < u32::MAX;
        }
        let n = ModelUsage {
            model: row.model.clone(),
            display_name: row.display_name.clone(),
            tokens: row.tokens,
            cost: c,
        };
        total_cost = total_cost + c;
        let ghost old_out = out@;
        out.push(n);
        proof {
            assert(out@.drop_last() =~= old_out);
            assert(rows@.subrange(0, i + 1).drop_last() =~= rows@.subrange(0, i as int));
            assert(i * max_model_cost() + max_model_cost() == (i + 1) * max_model_cost()) by (nonlinear_arith);
            assert forall|k: int| usage_sum(out@, k) == usage_sum(rows@.subrange(0, i + 1), k) by {
                assert(usage_sum(out@, k) == usage_sum(old_out, k) + counter(n.tokens, k));
                assert(rows@.subrange(0, i + 1).last() == rows@[i as int]);
            }
        }
        i += 1;
    }
    assert(rows@.subrange(0, rows@.len() as int) =~= rows@);
    proof {
        assert forall|t: int| 0 <= t < views(entries@).len() implies has_model(out@, #[trigger] views(entries@)[t].model) by {
            assert(crate::totals::in_period(views(entries@)[t], None));
            assert(has_model(rows@, views(entries@)[t].model));
            let j = choose|j: int| 0 <= j < rows@.len() && rows@[j].model@ == views(entries@)[t].model;
            assert(out@[j].model@ == rows@[j].model@);
        }
    }
    Some(RemoteUsage { by_model: out, total: p.total, total_cost })
}

/// The largest cost one model can gather from at most `u32::MAX` cost lines.
pub open spec fn max_model_cost() -> int {
    u32::MAX * u64::MAX
}

proof fn lemma_model_cost_bound(costs: Seq<ModelCost>, model: Seq<char>)
    ensures
        0 <= model_cost(costs, model) <= costs.len() * (u64::MAX as int),
    decreases costs.len(),
{
    if costs.len() > 0 {
        lemma_model_cost_bound(costs.drop_last(), model);
        assert((costs.len() - 1) * (u64::MAX as int) + u64::MAX == costs.len() * (u64::MAX as int)) by (nonlinear_arith);
    }
}

/// An assistant turn made within `hours` hours before `now`.
pub open spec fn turn_in_window(e: ParsedEntryView, now: Instant, hours: int) -> bool {
    rfc3339_of(e.timestamp) is Some && within_hours(rfc3339_of(e.timestamp).unwrap(), now, hours)
}

/// The weighted usage of a window: each assistant turn in it weighs one.
pub open spec fn turn_count(es: Seq<ParsedEntryView>, now: Instant, hours: int) -> int
    decreases es.len(),
{
    if es.len() == 0 {
        0
    } else {
        turn_count(es.drop_last(), now, hours) + if turn_in_window(es.last(), now, hours) {
            1int
        } else {
            0
        }
    }
}

/// The weighted usage of the `hours` hours before `now`.
pub fn count_weighted_usage_in_window(entries: &Vec<ParsedEntry>, now: &Instant, hours: u32) -> (r: u64)
    ensures
        r == turn_count(views(entries@), *now, hours as int),
{
    let mut n: u64 = 0;
    let mut i: usize = 0;
    while i < entries.len()
        invariant
            i <= entries@.len(),
            n == turn_count(views(entries@).subrange(0, i as int), *now, hours as int),
            n <= i,
        decreases entries@.len() - i,
    {
        assert(views(entries@).subrange(0, i + 1).drop_last() =~= views(entries@).subrange(0, i as int));
        assert(views(entries@).subrange(0, i + 1).last() == entries@[i as int]@);
        match parse_rfc3339(entries[i].timestamp.as_str()) {
            Some(t) => {
                if is_within_hours(&t, now, hours) {
                    n = n + 1;
                }
            },
            None => {},
        }
        i += 1;
    }
    assert(views(entries@).subrange(0, entries@.len() as int) =~= views(entries@));
    n
}

/// What the local logs add to a summary built from the remote reports.
pub struct LocalSupplementalData {
    pub active_sessions: Vec<ActiveSession>,
    pub quota: QuotaInfo,
    pub daily_activity: Vec<DailyActivity>,
    pub last_updated: String,
}

/// Sessions, quota and heatmap from the local logs, for a summary whose
/// tokens and costs come from the remote reports. `logs.usage_files` are the
/// files of the last 25 hours. `None` where the logs hold more than the
/// counters can sum.
pub fn get_local_supplemental_data(now: &Instant, logs: &LocalLogs) -> (r: Option<LocalSupplementalData>)
    ensures
        r is Some <==> sums_fit(file_entries(logs.usage_files@)) && logs.five_hour_lines@.len() <= u32::MAX
            && logs.activity_lines@.len() <= u32::MAX,
        r is Some ==> ({
            let d = r.unwrap();
            let es = file_entries(logs.usage_files@);
            &&& d.last_updated@ == latest_of(es, None)
            &&& forall|i: int| 0 <= i < d.active_sessions@.len() ==> is_session_row(#[trigger] d.active_sessions@[i], es, *now, logs.todos@)
            &&& forall|a: int, b: int| 0 <= a < b < d.active_sessions@.len() ==> !seq_lt(
                d.active_sessions@[a].last_activity@,
                d.active_sessions@[b].last_activity@,
            )
            &&& forall|sid: Seq<char>| session_count(es, *now, sid) > 0 ==> #[trigger] lists_session(d.active_sessions@, es, *now, logs.todos@, sid)
            &&& d.quota.messages_in_window == prompt_count(logs.five_hour_lines@, *now, 5)
            &&& d.quota.usage_percent == clamped_percent(
                turn_count(parsed_lines(logs.five_hour_lines@), *now, 5),
                WEIGHTED_LIMIT as int,
            )
            &&& d.quota.week_usage_percent == clamped_percent(
                turn_count(parsed_lines(logs.week_lines@), *now, 168),
                WEEK_WEIGHTED_LIMIT as int,
            )
            &&& ascending_dates(d.daily_activity@)
        }),
{
    let entries = parse_files(&logs.usage_files);
    if !entries_fit(&entries) || logs.five_hour_lines.len() > u32::MAX as usize
        || logs.activity_lines.len() > u32::MAX as usize {
        return None;
    }
    let latest = period_usage(&entries, &None).last_updated;
    let active_sessions = build_active_sessions(&entries, now, &logs.todos);
    let window_prompts = count_user_prompts_in_window(&logs.five_hour_lines, now, 5);
    let window_weighted = count_weighted_usage_in_window(&parse_usage_from_file(&logs.five_hour_lines), now, 5);
    let week_weighted = count_weighted_usage_in_window(&parse_usage_from_file(&logs.week_lines), now, 168);
    let quota = remote_quota(window_prompts, window_weighted, week_weighted);
    let daily_activity = collect_daily_activity(&logs.activity_lines, now);
    Some(LocalSupplementalData { active_sessions, quota, daily_activity, last_updated: latest })
}

/// All tokens of a counter set, at most `u32::MAX`.
pub open spec fn capped_all(t: TokenUsage) -> int {
    if t.all() > u32::MAX {
        u32::MAX as int
    } else {
        t.all()
    }
}

/// The summary from the remote reports, with the local sessions, quota and
/// heatmap beside it. Its message count is the remote token total, capped.
pub fn build_usage_stats_from_api(remote: RemoteUsage, local: LocalSupplementalData) -> (r: UsageStats)
    ensures
        r.total_tokens == remote.total,
        r.total_cost == remote.total_cost,
        r.by_model@ == remote.by_model@,
        r.session_count == capped_all(remote.total),
        r.last_updated@ == local.last_updated@,
        r.active_sessions@ == local.active_sessions@,
        r.daily_activity@ == local.daily_activity@,
        r.quota == local.quota,
{
    let t = remote.total;
    let all = t.input_tokens as u128 + t.output_tokens as u128 + t.cache_creation_input_tokens as u128
        + t.cache_read_input_tokens as u128;
    let session_count = if all > u32::MAX as u128 {
        u32::MAX
    } else {
        all as u32
    };
    UsageStats {
        total_tokens: remote.total,
        total_cost: remote.total_cost,
        by_model: remote.by_model,
        session_count,
        last_updated: local.last_updated,
        quota: local.quota,
        active_sessions: local.active_sessions,
        daily_activity: local.daily_activity,
    }
}

} // verus!
