use cc_usage::activity::{collect_daily_activity, compute_weekly_usage, count_user_prompts_in_window};
use cc_usage::config::{mask_api_key, AppConfig};
use cc_usage::model::{
    calculate_context_remaining, calculate_cost, get_model_context_limit, get_model_display_name,
    TokenUsage,
};
use cc_usage::parser::{parse_usage_from_file, parse_user_prompt_timestamp};
use cc_usage::quota::{local_quota, remote_quota};
use cc_usage::sessions::{build_active_sessions, TodoFile};
use cc_usage::time::{compute_days_until_reset, Instant};
use cc_usage::usage::{aggregate_usage, compute_usage_summary, get_current_usage, LocalLogs, UsageError};

// 2025-01-01T12:00:00Z
const NOW: i64 = 1735732800;

fn now() -> Instant {
    Instant { secs: NOW, nanos: 0 }
}

fn assistant(model: &str, ts: &str, sid: &str, cwd: &str, t: (u64, u64, u64, u64)) -> String {
    format!(
        "{{\"type\":\"assistant\",\"timestamp\":\"{ts}\",\"sessionId\":\"{sid}\",\"cwd\":\"{cwd}\",\"message\":{{\"model\":\"{model}\",\"usage\":{{\"input_tokens\":{},\"output_tokens\":{},\"cache_read_input_tokens\":{},\"cache_creation_input_tokens\":{}}}}}}}",
        t.0, t.1, t.2, t.3
    )
}

fn user_text(ts: &str) -> String {
    format!("{{\"type\":\"user\",\"timestamp\":\"{ts}\",\"message\":{{\"role\":\"user\",\"content\":[{{\"type\":\"text\",\"text\":\"hi\"}}]}}}}")
}

fn user_tool_result(ts: &str) -> String {
    format!("{{\"type\":\"user\",\"timestamp\":\"{ts}\",\"message\":{{\"role\":\"user\",\"content\":[{{\"type\":\"tool_result\",\"content\":\"ok\"}}]}}}}")
}

fn tokens(i: u64, o: u64, cc: u64, cr: u64) -> TokenUsage {
    TokenUsage { input_tokens: i, output_tokens: o, cache_creation_input_tokens: cc, cache_read_input_tokens: cr }
}

fn no_logs() -> LocalLogs {
    LocalLogs {
        usage_files: vec![],
        five_hour_lines: vec![],
        week_lines: vec![],
        activity_lines: vec![],
        todos: vec![],
    }
}

#[test]
fn sonnet_session_three_turns() {
    let m = "model-sonnet-4-20250101";
    let lines = vec![
        assistant(m, "2025-01-01T11:57:00Z", "abcdef123456", "/home/u/proj", (1000, 500, 0, 0)),
        assistant(m, "2025-01-01T11:58:00Z", "abcdef123456", "/home/u/proj", (2000, 1000, 0, 0)),
        assistant(m, "2025-01-01T11:59:00Z", "abcdef123456", "/home/u/proj", (0, 0, 0, 0)),
    ];
    let entries = parse_usage_from_file(&lines);
    assert_eq!(entries.len(), 3);
    let sessions = build_active_sessions(&entries, &now(), &vec![]);
    assert_eq!(sessions.len(), 1);
    let s = &sessions[0];
    assert_eq!(s.message_count, 3);
    assert_eq!(s.total_tokens, 4500);
    assert_eq!(s.model_display_name, "Sonnet 4");
    assert_eq!(s.session_id, "abcdef12");
    assert_eq!(s.project, "proj");
    assert_eq!(s.first_activity, "2025-01-01T11:57:00Z");
    assert_eq!(s.last_activity, "2025-01-01T11:59:00Z");
    assert_eq!(s.duration_minutes, 2);
    assert_eq!(s.context_remaining, 10000);
}

#[test]
fn period_and_session_windows_are_independent() {
    // 01:00 UTC: "today" starts at midnight, the sessions reach back 24 hours.
    let now = Instant { secs: 1735693200, nanos: 0 };
    let m = "model-opus-4-20250101";
    let lines = vec![
        assistant(m, "2024-12-24T01:00:00Z", "old-session", "/a", (10, 10, 0, 0)),
        assistant(m, "2024-12-31T23:30:00Z", "late-session", "/b", (20, 20, 0, 0)),
        assistant(m, "2025-01-01T00:30:00Z", "late-session", "/b", (5, 5, 0, 0)),
    ];
    let logs = LocalLogs { usage_files: vec![Some(lines)], ..no_logs() };
    let stats = get_current_usage("today", &now, true, &logs).unwrap();
    assert_eq!(stats.total_tokens.input_tokens, 5);
    assert_eq!(stats.session_count, 1);
    assert_eq!(stats.active_sessions.len(), 1);
    assert_eq!(stats.active_sessions[0].message_count, 2);
    assert_eq!(stats.active_sessions[0].total_tokens, 50);
    let week = get_current_usage("week", &now, true, &logs).unwrap();
    assert_eq!(week.total_tokens.input_tokens, 25);
    assert_eq!(week.session_count, 2);
}

#[test]
fn week_excludes_entry_from_eight_days_ago() {
    let m = "model-haiku-3-5";
    let lines = vec![
        assistant(m, "2024-12-24T12:00:00Z", "s1", "/x", (100, 0, 0, 0)),
        assistant(m, "2025-01-01T11:00:00Z", "s1", "/x", (7, 0, 0, 0)),
    ];
    let logs = LocalLogs { usage_files: vec![Some(lines)], ..no_logs() };
    let stats = get_current_usage("week", &now(), true, &logs).unwrap();
    assert_eq!(stats.total_tokens.input_tokens, 7);
    assert_eq!(stats.active_sessions[0].total_tokens, 7);
}

#[test]
fn unreadable_file_is_skipped() {
    let lines = vec![assistant("model-sonnet-4", "2025-01-01T11:00:00Z", "s", "/p", (3, 4, 0, 0))];
    let logs = LocalLogs { usage_files: vec![None, Some(lines), None], ..no_logs() };
    let stats = get_current_usage("all", &now(), true, &logs).unwrap();
    assert_eq!(stats.total_tokens.input_tokens, 3);
    assert_eq!(stats.total_tokens.output_tokens, 4);
    assert_eq!(stats.by_model.len(), 1);
}

#[test]
fn no_data_directories_is_an_error() {
    let r = get_current_usage("all", &now(), false, &no_logs());
    assert!(matches!(r, Err(UsageError::NoDataDirectories)));
}

#[test]
fn totals_equal_sum_of_models_and_models_sorted() {
    let lines = vec![
        assistant("model-haiku-3-5", "2025-01-01T10:00:00Z", "a", "/p", (10, 10, 3, 4)),
        assistant("model-opus-4-5", "2025-01-01T10:01:00Z", "a", "/p", (100, 200, 5, 6)),
        assistant("model-haiku-3-5", "2025-01-01T10:02:00Z", "b", "/q", (1, 2, 3, 4)),
        assistant("gpt-x", "2025-01-01T10:03:00Z", "b", "/q", (50, 0, 0, 0)),
    ];
    let entries = parse_usage_from_file(&lines);
    let stats = aggregate_usage(&entries, None, now(), 0, 0, vec![], &vec![]);
    let sum: u64 = stats.by_model.iter().map(|m| m.tokens.input_tokens).sum();
    assert_eq!(stats.total_tokens.input_tokens, sum);
    assert_eq!(stats.total_tokens.input_tokens, 161);
    assert_eq!(stats.total_tokens.cache_read_input_tokens, 11);
    assert_eq!(stats.total_tokens.cache_creation_input_tokens, 14);
    let names: Vec<&str> = stats.by_model.iter().map(|m| m.model.as_str()).collect();
    assert_eq!(names, vec!["model-opus-4-5", "gpt-x", "model-haiku-3-5"]);
    assert_eq!(stats.by_model[0].display_name, "Opus 4.5");
    assert_eq!(stats.by_model[1].display_name, "gpt-x");
    let cost: u128 = stats.by_model.iter().map(|m| m.cost).sum();
    assert_eq!(stats.total_cost, cost);
    assert_eq!(stats.last_updated, "2025-01-01T10:03:00Z");
    // Two sessions, the latest first.
    assert_eq!(stats.active_sessions.len(), 2);
    assert_eq!(stats.active_sessions[0].last_activity, "2025-01-01T10:03:00Z");
    assert_eq!(stats.active_sessions[0].model, "gpt-x");
}

#[test]
fn malformed_and_other_lines_parse_to_nothing() {
    let lines = vec![
        String::new(),
        "not json".to_string(),
        user_text("2025-01-01T10:00:00Z"),
        "{\"type\":\"assistant\",\"message\":{\"model\":\"m\"}}".to_string(),
        "{\"type\":5}".to_string(),
        "[1,2,3]".to_string(),
    ];
    assert!(parse_usage_from_file(&lines).is_empty());
}

#[test]
fn cwd_is_carried_to_later_entries() {
    let lines = vec![
        "{\"type\":\"user\",\"cwd\":\"/home/u/work\"}".to_string(),
        "{\"type\":\"assistant\",\"timestamp\":\"2025-01-01T10:00:00Z\",\"sessionId\":\"s\",\"message\":{\"model\":\"m\",\"usage\":{\"input_tokens\":1}}}".to_string(),
    ];
    let e = parse_usage_from_file(&lines);
    assert_eq!(e.len(), 1);
    assert_eq!(e[0].cwd, "/home/u/work");
    assert_eq!(e[0].tokens.input_tokens, 1);
    assert_eq!(e[0].tokens.output_tokens, 0);
}

#[test]
fn tool_results_are_no_prompts() {
    assert_eq!(parse_user_prompt_timestamp(&user_tool_result("2025-01-01T10:00:00Z")), None);
    assert_eq!(
        parse_user_prompt_timestamp(&user_text("2025-01-01T10:00:00Z")),
        Some("2025-01-01T10:00:00Z".to_string())
    );
    let plain = "{\"type\":\"user\",\"timestamp\":\"T\",\"message\":{\"content\":\"hello\"}}";
    assert_eq!(parse_user_prompt_timestamp(plain), Some("T".to_string()));
    let lines = vec![
        user_tool_result("2025-01-01T10:00:00Z"),
        user_text("2025-01-01T10:00:00Z"),
        user_text("2025-01-01T01:00:00Z"),
    ];
    assert_eq!(count_user_prompts_in_window(&lines, &now(), 5), 1);
    assert_eq!(count_user_prompts_in_window(&lines, &now(), 168), 2);
}

#[test]
fn daily_activity_sorted_and_unique() {
    let lines = vec![
        user_text("2024-12-31T10:00:00Z"),
        user_text("2024-12-30T10:00:00Z"),
        user_text("2024-12-31T11:00:00Z"),
        user_tool_result("2024-12-29T10:00:00Z"),
        user_text("2024-06-01T10:00:00Z"),
    ];
    let d = collect_daily_activity(&lines, &now());
    assert_eq!(d.len(), 2);
    assert_eq!(d[0].date, "2024-12-30");
    assert_eq!(d[0].prompt_count, 1);
    assert_eq!(d[1].date, "2024-12-31");
    assert_eq!(d[1].prompt_count, 2);
}

#[test]
fn quota_percent_is_clamped() {
    let q = local_quota(25, 420);
    assert_eq!(q.usage_percent, 2000);
    assert_eq!(q.week_usage_percent, 1000);
    assert_eq!(q.plan, "Max 5x");
    let full = local_quota(u32::MAX, u32::MAX);
    assert_eq!(full.usage_percent, 10000);
    assert_eq!(full.week_usage_percent, 10000);
    let r = remote_quota(3, 250, u64::MAX);
    assert_eq!(r.usage_percent, 5000);
    assert_eq!(r.week_usage_percent, 10000);
    assert_eq!(r.estimated_limit, 500);
}

#[test]
fn display_names() {
    assert_eq!(get_model_display_name("model-opus-4-5-20251101"), "Opus 4.5");
    assert_eq!(get_model_display_name("model-opus-4-20250514"), "Opus 4");
    assert_eq!(get_model_display_name("model-3-opus"), "Opus");
    assert_eq!(get_model_display_name("model-3.5-sonnet-3.5"), "Sonnet 3.5");
    assert_eq!(get_model_display_name("model-sonnet"), "Sonnet");
    assert_eq!(get_model_display_name("model-haiku-3-5"), "Haiku 3.5");
    assert_eq!(get_model_display_name("model-haiku"), "Haiku");
    assert_eq!(get_model_display_name("other"), "other");
}

#[test]
fn costs_in_picodollars() {
    // One million tokens of each kind at opus prices: 15 + 75 + 18.75 + 1.50 dollars.
    let t = tokens(1_000_000, 1_000_000, 1_000_000, 1_000_000);
    assert_eq!(calculate_cost("model-opus-4", &t), 110_250_000_000_000);
    assert_eq!(calculate_cost("model-haiku", &tokens(1000, 0, 0, 0)), 250_000_000);
    assert_eq!(calculate_cost("unknown", &tokens(0, 1, 0, 0)), 15_000_000);
}

#[test]
fn context_remaining() {
    assert_eq!(get_model_context_limit("any"), 200_000);
    assert_eq!(calculate_context_remaining(50_000, "m"), 7500);
    assert_eq!(calculate_context_remaining(250_000, "m"), 0);
    assert_eq!(calculate_context_remaining(1, "m"), 9999);
}

#[test]
fn masks_keys() {
    assert_eq!(mask_api_key("short"), "*****");
    assert_eq!(mask_api_key("abc-defghijk1234"), "abc-...1234");
    assert_eq!(mask_api_key("abcdefghijkl"), "abcd...ijkl");
    assert!(AppConfig::default().admin_api_key.is_none());
}

#[test]
fn days_until_sunday() {
    // 2025-01-01 was a Wednesday; 2025-01-05 a Sunday.
    assert_eq!(compute_days_until_reset(&now()), 4);
    assert_eq!(compute_days_until_reset(&Instant { secs: 1736078400, nanos: 0 }), 7);
}

#[test]
fn todo_counts_follow_session() {
    let lines = vec![assistant("m", "2025-01-01T11:00:00Z", "sess-1", "/p", (1, 1, 0, 0))];
    let entries = parse_usage_from_file(&lines);
    let todos = vec![
        TodoFile { name: "other.json".to_string(), pending: Some(9) },
        TodoFile { name: "sess-1-agent.json".to_string(), pending: None },
        TodoFile { name: "sess-1-agent-2.json".to_string(), pending: Some(3) },
    ];
    let s = build_active_sessions(&entries, &now(), &todos);
    assert_eq!(s[0].todo_count, 3);
}

#[test]
fn weekly_rollup_anchored_at_today() {
    let lines = vec![
        user_text("2025-01-01T10:00:00Z"),
        user_text("2024-12-26T10:00:00Z"),
        user_text("2024-12-25T23:00:00Z"),
        user_tool_result("2024-12-25T10:00:00Z"),
        user_text("2024-10-01T10:00:00Z"),
    ];
    let w = compute_weekly_usage(&lines, &now());
    assert_eq!(w.len(), 12);
    assert_eq!(w[0], 2);
    assert_eq!(w[1], 1);
    assert_eq!(w.iter().sum::<u32>(), 3);
}

#[test]
fn status_summary() {
    let logs = LocalLogs { week_lines: vec![user_text("2025-01-01T10:00:00Z")], ..no_logs() };
    let stats = get_current_usage("week", &now(), true, &logs);
    assert_eq!(compute_usage_summary(&stats, &now()), (2, 4));
    let none = get_current_usage("week", &now(), false, &logs);
    assert_eq!(compute_usage_summary(&none, &now()), (0, 4));
}
