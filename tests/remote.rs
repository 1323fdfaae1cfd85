use cc_usage::api::{usage_result_tokens, CacheCreation, UsageBucket, UsageReportResponse, UsageResult};
use cc_usage::remote::{
    build_remote_usage, build_usage_stats_from_api, count_weighted_usage_in_window,
    get_local_supplemental_data, ModelCost,
};
use cc_usage::parser::parse_usage_from_file;
use cc_usage::sessions::count_pending_todos;
use cc_usage::time::Instant;
use cc_usage::usage::LocalLogs;

// 2025-01-01T12:00:00Z
fn now() -> Instant {
    Instant { secs: 1735732800, nanos: 0 }
}

fn result(model: Option<&str>, i: u64, o: u64, cr: u64, cache: Option<(u64, u64)>) -> UsageResult {
    UsageResult {
        model: model.map(|m| m.to_string()),
        uncached_input_tokens: i,
        output_tokens: o,
        cache_read_input_tokens: cr,
        cache_creation: cache.map(|(h, m)| CacheCreation { ephemeral_1h_input_tokens: h, ephemeral_5m_input_tokens: m }),
    }
}

fn bucket(results: Vec<UsageResult>) -> UsageBucket {
    UsageBucket { starting_at: "a".to_string(), ending_at: "b".to_string(), results }
}

#[test]
fn remote_result_counts_both_cache_lifetimes() {
    let t = usage_result_tokens(&result(Some("m"), 1, 2, 3, Some((4, 5))));
    assert_eq!(t.input_tokens, 1);
    assert_eq!(t.output_tokens, 2);
    assert_eq!(t.cache_read_input_tokens, 3);
    assert_eq!(t.cache_creation_input_tokens, 9);
}

#[test]
fn remote_usage_joins_tokens_and_costs() {
    let report = UsageReportResponse {
        data: vec![
            bucket(vec![result(Some("opus-4"), 10, 20, 0, None), result(None, 1, 1, 0, None)]),
            bucket(vec![result(Some("opus-4"), 5, 5, 2, Some((1, 1)))]),
        ],
        has_more: false,
        next_page: None,
    };
    let costs = vec![
        ModelCost { model: "opus-4".to_string(), cost: 100 },
        ModelCost { model: "opus-4".to_string(), cost: 50 },
        ModelCost { model: "elsewhere".to_string(), cost: 7 },
    ];
    let u = build_remote_usage(&report, &costs).unwrap();
    assert_eq!(u.by_model.len(), 2);
    assert_eq!(u.by_model[0].model, "opus-4");
    assert_eq!(u.by_model[0].display_name, "Opus 4");
    assert_eq!(u.by_model[0].tokens.input_tokens, 15);
    assert_eq!(u.by_model[0].tokens.cache_creation_input_tokens, 2);
    assert_eq!(u.by_model[0].cost, 150);
    assert_eq!(u.by_model[1].model, "unknown");
    assert_eq!(u.by_model[1].cost, 0);
    assert_eq!(u.total.input_tokens, 16);
    assert_eq!(u.total_cost, 150);
}

#[test]
fn remote_usage_refuses_overflowing_cache() {
    let report = UsageReportResponse {
        data: vec![bucket(vec![result(Some("m"), 0, 0, 0, Some((u64::MAX, 1)))])],
        has_more: false,
        next_page: None,
    };
    assert!(build_remote_usage(&report, &vec![]).is_none());
}

#[test]
fn pending_todos() {
    let text = "[{\"status\":\"completed\"},{\"status\":\"pending\"},{\"content\":\"x\"},{\"status\":null}]";
    assert_eq!(count_pending_todos(text), Some(3));
    assert_eq!(count_pending_todos("[]"), Some(0));
    assert_eq!(count_pending_todos("{}"), None);
    assert_eq!(count_pending_todos("[{\"status\":1}]"), None);
    assert_eq!(count_pending_todos("[3]"), None);
}

#[test]
fn local_supplement_and_remote_summary() {
    let a = "{\"type\":\"assistant\",\"timestamp\":\"2025-01-01T11:00:00Z\",\"sessionId\":\"s1\",\"cwd\":\"/w/p\",\"message\":{\"model\":\"x-sonnet-4\",\"usage\":{\"input_tokens\":3}}}".to_string();
    let b = "{\"type\":\"assistant\",\"timestamp\":\"2024-12-30T11:00:00Z\",\"sessionId\":\"s1\",\"message\":{\"model\":\"x-sonnet-4\",\"usage\":{\"input_tokens\":3}}}".to_string();
    let p = "{\"type\":\"user\",\"timestamp\":\"2025-01-01T11:30:00Z\",\"message\":{\"content\":\"go\"}}".to_string();
    let logs = LocalLogs {
        usage_files: vec![Some(vec![a.clone()])],
        five_hour_lines: vec![a.clone(), p.clone()],
        week_lines: vec![a.clone(), b.clone()],
        activity_lines: vec![p.clone()],
        todos: vec![],
    };
    let local = get_local_supplemental_data(&now(), &logs).unwrap();
    assert_eq!(local.last_updated, "2025-01-01T11:00:00Z");
    assert_eq!(local.active_sessions.len(), 1);
    assert_eq!(local.quota.messages_in_window, 1);
    assert_eq!(local.quota.estimated_limit, 500);
    assert_eq!(local.quota.usage_percent, 20);
    assert_eq!(local.quota.week_usage_percent, 7);
    assert_eq!(local.daily_activity.len(), 1);
    assert_eq!(local.daily_activity[0].date, "2025-01-01");

    let entries = parse_usage_from_file(&vec![a, b]);
    assert_eq!(count_weighted_usage_in_window(&entries, &now(), 5), 1);
    assert_eq!(count_weighted_usage_in_window(&entries, &now(), 168), 2);

    let report = UsageReportResponse {
        data: vec![bucket(vec![result(Some("opus"), 10, 20, 0, None)])],
        has_more: false,
        next_page: None,
    };
    let remote = build_remote_usage(&report, &vec![]).unwrap();
    let stats = build_usage_stats_from_api(remote, local);
    assert_eq!(stats.session_count, 30);
    assert_eq!(stats.total_tokens.output_tokens, 20);
    assert_eq!(stats.active_sessions[0].project, "p");
}
