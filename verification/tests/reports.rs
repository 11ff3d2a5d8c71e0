use deskd::commands::usage::{
    self, agent_stats, compute_stats, cutoff, parse_period, period_fits, AgentLog, AgentStats,
    AgentUsage, Period, UsageStats,
};
use deskd::config::{
    AgentDef, DiskMetricsConfig, MetricsConfig, ModelDef, TransitionDef, WorkspaceConfig,
};
use deskd::json_text::write_json;
use deskd::metrics::{
    check_refresh_gate, parse_df_row, parse_du_breakdown, parse_du_sk, publish_metrics_updated,
    sample_agent_breakdown, sample_agent_home, sample_volume, AgentBreakdownEntry,
    AgentDiskSample, CollectorConfig, CommandOutcome, DiskSnapshot, RefreshGate, RefreshSlot,
    VolumeSample, WarnedPaths,
};
use deskd::metrics_cache::{default_cache_path, load_cache, save_cache};
use deskd::tasklog::{
    self, format_duration, group_entries, log_path, passes_filters, print_table, read_logs,
    rotate_if_needed, sum_entries, truncate_task, CostCell, GroupBy, TaskLog, MAX_ENTRIES,
};
use deskd::tasklog_file::{print_json, read_logs_from_text, rotate_text};
use deskd::tasklog_costs::{count_sources, print_cost_summary, sum_turns};
use deskd::tasklog_report::print_pr_summary;
use deskd::timeout_sweep::{check_task, parse_duration, sweep_once, SweepInstance, SweepTask};

// ─── Disk metrics ───────────────────────────────────────────────────────────

#[test]
fn parse_df_row_extracts_four_columns() {
    let line = "/dev/vda1  41943040K  20971520K  20971520K";
    let (source, size, used, avail) = parse_df_row(line).unwrap();
    assert_eq!(source, "/dev/vda1");
    assert_eq!(size, 41943040u64 * 1024);
    assert_eq!(used, 20971520u64 * 1024);
    assert_eq!(avail, 20971520u64 * 1024);
}

#[test]
fn parse_df_row_rejects_short_row() {
    assert!(parse_df_row("only two").is_none());
    assert!(parse_df_row("").is_none());
}

#[test]
fn parse_df_row_rejects_non_numeric_field() {
    assert!(parse_df_row("/dev/vda1 not-a-number 100K 200K").is_none());
}

#[test]
fn parse_du_sk_takes_first_line_first_field() {
    let s = "412345\t/home/kira\n";
    assert_eq!(parse_du_sk(s), Some(412345u64 * 1024));
}

#[test]
fn parse_du_sk_handles_empty() {
    assert_eq!(parse_du_sk(""), None);
}

#[test]
fn parse_du_breakdown_sorts_and_caps() {
    let stdout = "\
100\t/home/kira/.cargo
500\t/home/kira/.deskd
50\t/home/kira/notes
20\t/home/kira/bin
9000\t/home/kira/projects
9670\t/home/kira
";
    let out = parse_du_breakdown(stdout, "/home/kira", 3);
    assert_eq!(out.len(), 3);
    assert_eq!(out[0].name, "projects");
    assert_eq!(out[0].bytes, 9000 * 1024);
    assert_eq!(out[1].name, ".deskd");
    assert_eq!(out[2].name, ".cargo");
}

#[test]
fn parse_du_breakdown_skips_root_entry() {
    let stdout = "\
500\t/home/kira/foo
9000\t/home/kira
";
    let out = parse_du_breakdown(stdout, "/home/kira", 5);
    assert_eq!(out.len(), 1);
    assert_eq!(out[0].name, "foo");
}

#[test]
fn parse_du_breakdown_handles_trailing_slash_root() {
    let stdout = "\
500\t/home/kira/foo
9000\t/home/kira/
";
    let out = parse_du_breakdown(stdout, "/home/kira/", 5);
    assert_eq!(out.len(), 1);
    assert_eq!(out[0].name, "foo");
}

#[test]
fn breakdown_names_are_last_components() {
    let out = parse_du_breakdown("7\t/home/kira/a/b/\n", "/home/kira", 5);
    assert_eq!(out[0].name, "b");
    let out = parse_du_breakdown("7\t/home/kira/a/b/.\n", "/home/kira", 5);
    assert_eq!(out[0].name, "b");
}

const SECOND: u128 = 1_000_000_000;

#[test]
fn refresh_gate_allows_first_call_blocks_immediate_second() {
    let mut slot = RefreshSlot { last: None };
    assert_eq!(check_refresh_gate(&mut slot, 30 * SECOND, 100 * SECOND), RefreshGate::Allowed);
    match check_refresh_gate(&mut slot, 30 * SECOND, 101 * SECOND) {
        RefreshGate::TooSoon { retry_after_secs } => {
            assert!(retry_after_secs > 0 && retry_after_secs <= 30);
            assert_eq!(retry_after_secs, 29);
        }
        other => panic!("expected TooSoon, got {:?}", other),
    }
}

#[test]
fn refresh_gate_resets_after_min_interval() {
    let mut slot = RefreshSlot { last: None };
    let _ = check_refresh_gate(&mut slot, 30 * SECOND, 100 * SECOND);
    assert_eq!(check_refresh_gate(&mut slot, 30 * SECOND, 131 * SECOND), RefreshGate::Allowed);
}

#[test]
fn warned_paths_emits_once() {
    let mut warned = WarnedPaths::new();
    assert!(warned.warn_once("/missing"));
    assert!(!warned.warn_once("/missing"));
    assert_eq!(warned.len(), 1);
}

#[test]
fn sample_agent_home_missing_path_records_null() {
    let (s, _) = sample_agent_home("ghost", "/nope/does-not-exist-xyz", None);
    assert_eq!(s.agent, "ghost");
    assert_eq!(s.home_dir_bytes, None);
}

#[test]
fn sample_agent_home_existing_path_returns_some() {
    let outcome = CommandOutcome::Done { stdout: "12\t/tmp/k\n".into() };
    let (s, warning) = sample_agent_home("k", "/tmp/k", Some(&outcome));
    assert!(s.home_dir_bytes.unwrap_or(0) > 0, "expected some du size, got {:?}", s);
    assert_eq!(s.home_dir_bytes, Some(12 * 1024));
    assert!(warning.is_none());
}

#[test]
fn volumes_are_read_from_the_second_line() {
    let stdout = "Filesystem 1K-blocks Used Avail\n/dev/vda1 100K 40K 60K\n";
    let (v, warning) = sample_volume("/", &CommandOutcome::Done { stdout: stdout.into() });
    assert_eq!(
        v,
        VolumeSample {
            mount: "/".into(),
            source: Some("/dev/vda1".into()),
            size_bytes: Some(100 * 1024),
            used_bytes: Some(40 * 1024),
            avail_bytes: Some(60 * 1024),
        }
    );
    assert!(warning.is_none());
    let failed = CommandOutcome::Failed { stdout: "".into(), stderr: " no such mount\n".into() };
    let (v, warning) = sample_volume("/x", &failed);
    assert_eq!(v.size_bytes, None);
    assert_eq!(warning.unwrap(), "df failed: no such mount");
    let (_, warning) = sample_volume("/x", &CommandOutcome::SpawnFailed("gone".into()));
    assert_eq!(warning.unwrap(), "df spawn failed: gone");
}

#[test]
fn snapshots_are_published() {
    let snap = DiskSnapshot {
        updated_at: Some("2026-05-09T00:00:00Z".into()),
        volumes: vec![],
        agents: vec![AgentDiskSample {
            agent: "kira".into(),
            home_dir: "/home/kira".into(),
            home_dir_bytes: Some(7),
        }],
    };
    assert_eq!(snap.lookup_agent("kira").unwrap().home_dir_bytes, Some(7));
    assert!(snap.lookup_agent("ghost").is_none());
    let m = publish_metrics_updated(&snap);
    let v: serde_json::Value = serde_json::from_str(&write_json(&m.payload)).unwrap();
    assert_eq!(v["type"], "metrics.updated");
    assert_eq!(v["snapshot"]["agents"][0]["home_dir_bytes"], 7);
    assert_eq!(m.source, "metrics");
    assert_eq!(DiskSnapshot::default().updated_at, None);
}

#[test]
fn the_collector_follows_the_workspace() {
    let mut ws = WorkspaceConfig {
        agents: vec![AgentDef {
            name: "kira".into(),
            work_dir: "/home/kira".into(),
            unix_user: None,
            budget_usd: "5.0".into(),
            container: None,
            telegram: None,
            discord: None,
        }],
        admin_telegram_ids: vec![],
        metrics: None,
    };
    let c = CollectorConfig::from_workspace(&ws);
    assert_eq!(c.interval, 60);
    assert_eq!(c.volumes, vec!["/".to_string()]);
    assert_eq!(c.agents.len(), 1);
    ws.metrics = Some(MetricsConfig {
        disk: DiskMetricsConfig { interval_seconds: 5, volumes: vec!["/data".into()] },
    });
    let c = CollectorConfig::from_workspace(&ws);
    assert_eq!(c.interval, 5);
    assert_eq!(c.volumes, vec!["/data".to_string()]);
}

// ─── Task log ───────────────────────────────────────────────────────────────

#[test]
fn test_format_duration() {
    assert_eq!(format_duration(0), "0s");
    assert_eq!(format_duration(500), "0s");
    assert_eq!(format_duration(1000), "1s");
    assert_eq!(format_duration(45000), "45s");
    assert_eq!(format_duration(130_000), "2m10s");
    assert_eq!(format_duration(60_000), "1m0s");
}

#[test]
fn test_truncate_task() {
    assert_eq!(truncate_task("short", 60), "short");
    let long = "a".repeat(100);
    let result = truncate_task(&long, 60);
    assert!(result.len() <= 63);
    assert!(result.ends_with("..."));
    assert_eq!(truncate_task("äöü", 3), "äöü");
}

fn test_entry(source: &str, task: &str, ts: &str) -> TaskLog {
    TaskLog {
        ts: ts.to_string(),
        source: source.to_string(),
        turns: 12,
        cost: "0.42".to_string(),
        duration_ms: 45000,
        status: "ok".to_string(),
        task: task.to_string(),
        error: None,
        msg_id: "test-uuid".to_string(),
        github_repo: None,
        github_pr: None,
        input_tokens: None,
        output_tokens: None,
        cache_creation_input_tokens: None,
        cache_read_input_tokens: None,
    }
}

#[test]
fn test_log_and_read() {
    let log = || vec![test_entry("telegram", "Test task", "2026-03-28T14:23:01Z")];
    let entries = read_logs(log(), 20, None, None);
    assert_eq!(entries.len(), 1);
    assert_eq!(entries[0].source, "telegram");
    assert_eq!(entries[0].turns, 12);
    assert_eq!(entries[0].cost, "0.42");
    assert_eq!(read_logs(log(), 20, Some("github_poll"), None).len(), 0);
    assert_eq!(read_logs(log(), 20, Some("telegram"), None).len(), 1);
}

#[test]
fn the_last_entries_are_read() {
    let log = vec![
        test_entry("a", "one", "2026-03-28T14:23:01Z"),
        test_entry("a", "two", "2026-03-28T14:23:02Z"),
        test_entry("a", "three", "2026-03-28T14:23:03Z"),
    ];
    let entries = read_logs(log, 2, None, None);
    assert_eq!(entries.len(), 2);
    assert_eq!(entries[0].task, "two");
}

#[test]
fn test_log_rotation() {
    let lines: Vec<String> = (0..(MAX_ENTRIES + 100)).map(|i| format!("task {}", i)).collect();
    let kept = rotate_if_needed(&lines).unwrap();
    assert_eq!(kept.len(), MAX_ENTRIES);
    assert_eq!(kept[0], "task 100");
    assert!(rotate_if_needed(&kept).is_none());
}

#[test]
fn test_since_filter() {
    let log = vec![
        test_entry("telegram", "old task", "2026-03-27T10:00:00Z"),
        test_entry("telegram", "recent task", "2026-03-28T14:00:00Z"),
    ];
    let cutoff = chrono::DateTime::parse_from_rfc3339("2026-03-28T00:00:00Z").unwrap().timestamp();
    let entries = read_logs(log, 20, None, Some((cutoff, 0)));
    assert_eq!(entries.len(), 1);
    assert_eq!(entries[0].task, "recent task");
}

#[test]
fn entries_without_a_time_pass() {
    assert!(passes_filters("a", None, None, Some((10, 0))));
    assert!(!passes_filters("a", Some((9, 5)), None, Some((10, 0))));
    assert!(passes_filters("a", Some((10, 0)), Some("a"), Some((10, 0))));
    assert!(!passes_filters("a", Some((10, 0)), Some("b"), None));
}

fn cell(rank: i64, text: &str, share: &str) -> CostCell {
    CostCell { rank, text: text.into(), share: share.into() }
}

#[test]
fn test_pr_summary_does_not_panic() {
    let pr = |task: &str, n: u64, input: u64, output: u64| TaskLog {
        github_repo: Some("kgatilin/deskd".to_string()),
        github_pr: Some(n),
        input_tokens: Some(input),
        output_tokens: Some(output),
        ..test_entry("github_poll", task, "2026-03-28T14:00:00Z")
    };
    let entries = vec![
        pr("PR review", 42, 5000, 1200),
        pr("PR follow-up", 42, 3000, 800),
        pr("Another PR", 43, 2000, 500),
        test_entry("telegram", "Non-PR task", "2026-03-28T17:00:00Z"),
    ];
    let (groups, others) = group_entries(&entries, GroupBy::PullRequest).unwrap();
    assert_eq!(groups.len(), 2);
    assert_eq!(groups[0].label, "kgatilin/deskd#42");
    assert_eq!(groups[0].tasks, 2);
    assert_eq!(groups[0].input_tokens, 8000);
    assert_eq!(groups[0].members, vec![0, 1]);
    assert_eq!(others.tasks, 1);
    let costs = vec![cell(1, "0.84", "50"), cell(2, "0.84", "50")];
    let text =
        print_pr_summary("test", &entries, Some("24h"), costs, cell(0, "0.42", "25"), "1.68");
    assert!(text.starts_with("Agent: test\nPeriod: last 24h\n\n"));
    assert!(text.contains("\nTOTAL                              4  $  1.68\n"));
    let first = text.find("#43").unwrap();
    let second = text.find("#42").unwrap();
    assert!(first < second);
}

#[test]
fn tasklog_test_format_tokens() {
    assert_eq!(tasklog::format_tokens(0), "-");
    assert_eq!(tasklog::format_tokens(500), "500");
    assert_eq!(tasklog::format_tokens(1500), "1.5K");
    assert_eq!(tasklog::format_tokens(45000), "45.0K");
    assert_eq!(tasklog::format_tokens(1_500_000), "1.5M");
}

#[test]
fn token_counts_are_rounded_as_numbers_are() {
    for n in [999u64, 1_049, 1_050, 1_051, 1_250, 999_949, 999_950, 1_250_000, 123_456_789] {
        let expected = if n < 1_000 {
            format!("{}", n)
        } else if n < 1_000_000 {
            format!("{:.1}K", n as f64 / 1_000.0)
        } else {
            format!("{:.1}M", n as f64 / 1_000_000.0)
        };
        assert_eq!(tasklog::format_tokens(n), expected);
    }
}

#[test]
fn test_cost_summary_does_not_panic() {
    let entries = vec![
        test_entry("telegram", "task 1", "2026-03-28T14:00:00Z"),
        test_entry("github_poll", "task 2", "2026-03-28T14:05:00Z"),
    ];
    let costs = vec![cell(42, "0.42", "50"), cell(42, "0.42", "50")];
    let text = print_cost_summary("test", &entries, Some("24h"), costs, "0.84");
    assert!(text.contains("Total: 2 tasks, $0.84, 24 turns\n"));
    assert!(text.contains("telegram"));
    assert!(text.contains("github_poll"));
}

#[test]
fn sums_that_do_not_fit_are_not_given() {
    let mut e = test_entry("cli", "t", "2026-03-28T14:00:00Z");
    let all = sum_entries(&vec![e.clone(), e.clone()]).unwrap();
    assert_eq!((all.tasks, all.turns, all.duration_ms), (2, 24, 90_000));
    e.input_tokens = Some(u64::MAX);
    assert!(sum_entries(&vec![e.clone()]).is_some());
    assert!(sum_entries(&vec![e.clone(), e]).is_none());
}

#[test]
fn reports_need_only_the_sums_that_they_show() {
    let mut e = test_entry("cli", "t", "2026-03-28T14:00:00Z");
    e.input_tokens = Some(u64::MAX);
    let mut other = e.clone();
    other.source = "telegram".into();
    other.github_repo = Some("a/b".into());
    other.github_pr = Some(1);
    let entries = vec![e.clone(), other, e.clone()];
    assert!(group_entries(&entries, GroupBy::PullRequest).is_none());
    assert_eq!(sum_turns(&entries), Some(36));
    let sources = count_sources(&entries);
    assert_eq!(sources.len(), 2);
    assert_eq!(sources[0].members, vec![0, 2]);
    let costs = vec![cell(1, "1.00", "50"), cell(2, "2.00", "50")];
    let text = print_cost_summary("a", &entries, None, costs, "3.00");
    assert!(text.ends_with(
        "By source:\n  telegram         1 tasks  $2.00  (50%)\n  cli              2 tasks  $1.00  (50%)\n"
    ));
    let spread = entries[..2].to_vec();
    assert!(sum_entries(&spread).is_none());
    let (groups, others) = group_entries(&spread, GroupBy::PullRequest).unwrap();
    assert_eq!((groups[0].input_tokens, others.input_tokens), (u64::MAX, u64::MAX));
    e.turns = u32::MAX;
    assert_eq!(sum_turns(&vec![e.clone(), e]), None);
}

#[test]
fn the_table_lists_entries() {
    let entries = vec![test_entry("telegram", "Test task", "2026-03-28T14:23:01Z")];
    let text = print_table(&entries, &vec!["0.42".to_string()]);
    assert!(text.contains("2026-03-28 14:23:01"));
    assert!(text.contains("Test task"));
    assert!(text.contains("$  0.42"));
}

#[test]
fn test_empty_log_file() {
    assert!(read_logs(Vec::new(), 20, None, None).is_empty());
}

#[test]
fn test_log_path() {
    let path = log_path("/home/u", "myagent");
    assert!(path.contains(".deskd/logs/myagent/tasks.jsonl"));
    assert_eq!(path, "/home/u/.deskd/logs/myagent/tasks.jsonl");
}

// ─── Timeouts ───────────────────────────────────────────────────────────────

#[test]
fn test_parse_duration_seconds() {
    assert_eq!(parse_duration("30s"), Some(30));
    assert_eq!(parse_duration("1s"), Some(1));
}

#[test]
fn test_parse_duration_minutes() {
    assert_eq!(parse_duration("5m"), Some(300));
    assert_eq!(parse_duration("1m"), Some(60));
}

#[test]
fn test_parse_duration_hours() {
    assert_eq!(parse_duration("2h"), Some(7200));
}

#[test]
fn test_parse_duration_days() {
    assert_eq!(parse_duration("1d"), Some(86400));
}

#[test]
fn test_parse_duration_invalid() {
    assert_eq!(parse_duration(""), None);
    assert_eq!(parse_duration("abc"), None);
    assert_eq!(parse_duration("5x"), None);
    assert_eq!(parse_duration("m"), None);
}

#[test]
fn test_parse_duration_whitespace() {
    assert_eq!(parse_duration("  10s  "), Some(10));
}

fn timed_model() -> ModelDef {
    ModelDef {
        name: "ticket".into(),
        description: "".into(),
        states: vec!["review".into(), "stuck".into()],
        initial: "review".into(),
        terminal: vec!["stuck".into()],
        transitions: vec![TransitionDef {
            from: "review".into(),
            to: "stuck".into(),
            trigger: None,
            on: None,
            assignee: None,
            timeout: Some("5m".into()),
            timeout_goto: Some("stuck".into()),
        }],
    }
}

fn sweep_task(updated_at: &str) -> SweepTask {
    SweepTask {
        id: "t1".into(),
        sm_instance_id: Some("sm1".into()),
        updated_at: updated_at.into(),
        instance: Some(SweepInstance { model: "ticket".into(), state: "review".into() }),
    }
}

#[test]
fn late_tasks_are_moved_on() {
    let models = vec![timed_model()];
    let start = chrono::DateTime::parse_from_rfc3339("2026-03-28T14:00:00Z").unwrap();
    let now = start.timestamp_nanos_opt().unwrap();
    let tasks = vec![sweep_task("2026-03-28T13:00:00Z"), sweep_task("2026-03-28T13:59:00Z")];
    let actions = sweep_once(&tasks, &models, now);
    assert_eq!(actions.len(), 1);
    assert_eq!(actions[0].task_id, "t1");
    assert_eq!(actions[0].sm_id, "sm1");
    assert_eq!(actions[0].goto_state, "stuck");
    assert!(check_task(&tasks[0], &models, Some(10)).is_none());
    assert!(check_task(&tasks[0], &models, Some(1000)).is_some());
}

#[test]
fn a_moved_instance_is_judged_by_its_new_state() {
    let start = chrono::DateTime::parse_from_rfc3339("2026-03-28T14:00:00Z").unwrap();
    let now = start.timestamp_nanos_opt().unwrap();
    let mut second = sweep_task("2026-03-28T13:00:00Z");
    second.id = "t2".into();
    let mut other = second.clone();
    other.id = "t3".into();
    other.sm_instance_id = Some("sm2".into());
    let tasks = vec![sweep_task("2026-03-28T13:00:00Z"), second, other];
    let ids = |models: &Vec<ModelDef>| -> Vec<(String, String)> {
        let actions = sweep_once(&tasks, models, now);
        actions.into_iter().map(|a| (a.task_id, a.goto_state)).collect()
    };
    let pair = |a: &str, b: &str| (a.to_string(), b.to_string());
    let mut models = vec![timed_model()];
    assert_eq!(ids(&models), vec![pair("t1", "stuck"), pair("t3", "stuck")]);
    let mut next = models[0].transitions[0].clone();
    next.from = "stuck".into();
    next.timeout_goto = Some("given_up".into());
    models[0].transitions.push(next);
    assert_eq!(
        ids(&models),
        vec![pair("t1", "stuck"), pair("t2", "given_up"), pair("t3", "stuck")]
    );
}

// ─── Usage ──────────────────────────────────────────────────────────────────

const NOW: i64 = 1_774_706_581 * 1_000_000_000;

#[test]
fn test_parse_period_7d() {
    let p = parse_period("7d").unwrap();
    let (secs, _) = cutoff(p, NOW).unwrap();
    assert_eq!(NOW / 1_000_000_000 - secs, 7 * 86_400);
}

#[test]
fn test_parse_period_today() {
    let p = parse_period("today").unwrap();
    let (secs, nanos) = cutoff(p, NOW).unwrap();
    let day = chrono::DateTime::from_timestamp(secs, nanos).unwrap();
    let now = chrono::DateTime::from_timestamp(NOW / 1_000_000_000, 0).unwrap();
    assert_eq!(day.date_naive(), now.date_naive());
    assert_eq!(secs % 86_400, 0);
}

#[test]
fn test_parse_period_24h() {
    let p = parse_period("24h").unwrap();
    assert!(cutoff(p, NOW).is_some());
    assert_eq!(p, Period::Hours(24));
}

#[test]
fn test_parse_period_all() {
    let p = parse_period("all").unwrap();
    assert!(cutoff(p, NOW).is_none());
}

#[test]
fn periods_stay_in_the_calendar() {
    assert!(period_fits(Period::All, NOW) && period_fits(Period::Today, NOW));
    assert!(period_fits(Period::Days(90_000_000), NOW));
    assert!(!period_fits(Period::Days(100_000_000), NOW));
    assert!(period_fits(Period::Hours(-2_000_000_000), NOW));
    assert!(!period_fits(Period::Hours(i64::MIN), NOW));
    let first = chrono::DateTime::<chrono::Utc>::MIN_UTC.timestamp();
    let whole = NOW.div_euclid(1_000_000_000);
    let days = (whole - first) / 86_400;
    assert!(period_fits(Period::Days(days), NOW) && !period_fits(Period::Days(days + 1), NOW));
}

#[test]
fn test_parse_period_invalid() {
    assert!(parse_period("xyz").is_err());
    assert!(parse_period("ad").is_err());
    assert!(parse_period("ah").is_err());
}

#[test]
fn usage_test_format_tokens() {
    assert_eq!(usage::format_tokens(0), "-");
    assert_eq!(usage::format_tokens(500), "500");
    assert_eq!(usage::format_tokens(1500), "1.5K");
    assert_eq!(usage::format_tokens(1_500_000), "1.5M");
}

#[test]
fn test_compute_stats_empty() {
    assert!(agent_stats("nonexistent-agent-xyz", &Vec::new()).is_none());
    let stats = compute_stats("7d", &Vec::new(), "0.0");
    assert_eq!(stats.total_tasks, 0);
    assert_eq!(stats.total_cost_usd, "0.0");
    assert!(stats.by_agent.is_empty());
}

fn agent_usage(agent: &str, rank: i64) -> AgentUsage {
    AgentUsage {
        stats: AgentStats {
            agent: agent.to_string(),
            tasks: 10,
            turns: 42,
            input_tokens: 100_000,
            output_tokens: 25_000,
            duration_ms: 300_000,
        },
        cost_usd: "5.5".into(),
        cost: cell(rank, "5.50", "100"),
    }
}

#[test]
fn test_usage_stats_serializable() {
    let stats = UsageStats {
        period: "7d".to_string(),
        total_tasks: 10,
        total_cost_usd: "5.5".to_string(),
        total_turns: 42,
        total_input_tokens: 100_000,
        total_output_tokens: 25_000,
        total_duration_ms: 300_000,
        by_agent: vec![agent_usage("test", 1)],
    };
    let json = write_json(&stats.to_json());
    assert!(json.contains("\"total_tasks\":10"));
    assert!(json.contains("\"total_cost_usd\":5.5"));
    let shown = usage::print_json(&stats);
    assert!(shown.starts_with("{\n  \"period\": \"7d\",\n"));
    assert!(shown.ends_with("}\n"));
}

#[test]
fn the_most_expensive_agent_comes_first() {
    let entry = || TaskLog {
        input_tokens: Some(1000),
        output_tokens: Some(500),
        ..test_entry("cli", "t", "2026-03-28T14:00:00Z")
    };
    let log = |agent: &str, entries: Vec<TaskLog>, rank: i64| AgentLog {
        agent: agent.into(),
        entries,
        cost_usd: "5.5".into(),
        cost: cell(rank, "5.50", "50"),
    };
    let logs = vec![
        log("cheap", vec![entry()], 1),
        log("idle", vec![], 3),
        log("dear", vec![entry(), entry()], 2),
    ];
    let stats = compute_stats("7d", &logs, "11.0");
    assert_eq!(stats.by_agent.len(), 2);
    assert_eq!(stats.by_agent[0].stats.agent, "dear");
    assert_eq!(stats.by_agent[0].stats.tasks, 2);
    assert_eq!(stats.total_tasks, 3);
    assert_eq!(stats.total_turns, 36);
    let text = usage::print_table(&stats, "11.00", "0.55");
    assert!(text.starts_with("Token Usage (7d)\n"));
    assert!(text.contains("TOTAL"));
    assert!(text.contains("Avg per task: 1.0K input, 500 output, $0.55"));
    let entries = vec![test_entry("telegram", "x", "2026-03-28T14:23:01Z")];
    let one = agent_stats("a", &entries).unwrap();
    assert_eq!((one.tasks, one.turns, one.duration_ms), (1, 12, 45000));
}

// ─── Files ──────────────────────────────────────────────────────────────────

#[test]
fn intervals_may_have_a_part_of_a_second() {
    let mut slot = RefreshSlot { last: None };
    let half = SECOND / 2;
    assert_eq!(check_refresh_gate(&mut slot, half, SECOND), RefreshGate::Allowed);
    assert_eq!(
        check_refresh_gate(&mut slot, half, SECOND + half - 1),
        RefreshGate::TooSoon { retry_after_secs: 1 }
    );
    assert_eq!(check_refresh_gate(&mut slot, half, SECOND + half), RefreshGate::Allowed);
}

#[test]
fn paths_with_spaces_keep_their_names() {
    let stdout = "100\t/home/kira/My Documents\n50 /home/kira/b c/\n7\t/home/kira/.\n9\t \n";
    assert_eq!(
        parse_du_breakdown(stdout, "/home/kira", 5),
        vec![
            AgentBreakdownEntry { name: "My Documents".into(), bytes: 102400 },
            AgentBreakdownEntry { name: "b c".into(), bytes: 51200 },
            AgentBreakdownEntry { name: "kira".into(), bytes: 7168 },
        ]
    );
    assert_eq!(parse_du_breakdown("1\ta/..\n", "/r", 5)[0].name, "a/..");
    assert_eq!(parse_du_breakdown("1\t./.\n", "/r", 5)[0].name, "./.");
}

#[test]
fn breakdowns_need_output() {
    let out = CommandOutcome::Failed {
        stdout: "10\t/home/kira/a\n20\t/home/kira/b\n30\t/home/kira\n".into(),
        stderr: "denied".into(),
    };
    let entries = sample_agent_breakdown("/home/kira", 5, Some(&out));
    assert_eq!(entries.len(), 2);
    assert_eq!((entries[0].name.as_str(), entries[0].bytes), ("b", 20 * 1024));
    assert!(sample_agent_breakdown("/home/kira", 5, None).is_empty());
    let failed = CommandOutcome::SpawnFailed("no du".into());
    assert!(sample_agent_breakdown("/home/kira", 5, Some(&failed)).is_empty());
}

#[test]
fn cache_roundtrip_persists_and_reloads() {
    let snap = DiskSnapshot {
        updated_at: Some("2026-01-02T03:04:05.678Z".into()),
        volumes: vec![VolumeSample {
            mount: "/".into(),
            source: Some("/dev/vda1".into()),
            size_bytes: Some(100),
            used_bytes: Some(40),
            avail_bytes: Some(60),
        }],
        agents: vec![AgentDiskSample {
            agent: "kira".into(),
            home_dir: "/home/kira".into(),
            home_dir_bytes: Some(1024 * 1024 * 412),
        }],
    };
    let loaded = load_cache(&save_cache(&snap)).unwrap();
    assert_eq!(loaded.volumes, snap.volumes);
    assert_eq!(loaded.agents, snap.agents);
    assert_eq!(loaded.updated_at, snap.updated_at);
    assert_eq!(default_cache_path(Some("/home/kira")), "/home/kira/.deskd/cache/disk.json");
    assert_eq!(default_cache_path(None), "/tmp/.deskd/cache/disk.json");
}

#[test]
fn cache_load_malformed_returns_none_without_error() {
    assert!(load_cache("this is not json").is_none());
    assert!(load_cache(r#"{"updated_at":"noon","volumes":[],"agents":[]}"#).is_none());
    assert!(load_cache(r#"{"updated_at":null,"volumes":[{}],"agents":[]}"#).is_none());
    assert!(load_cache(r#"{"updated_at":null,"volumes":[],"agents":[]}"#).is_some());
}

#[test]
fn log_lines_come_back() {
    let mut e = test_entry("telegram", "do it", "2026-01-02T03:04:05Z");
    e.github_repo = Some("a/b".into());
    e.github_pr = Some(7);
    e.input_tokens = Some(11);
    let line = e.to_line();
    assert!(line.ends_with('\n'));
    assert_eq!(TaskLog::parse(line.trim_end()), Some(e));
    assert_eq!(TaskLog::parse("{}"), None);
    let other = test_entry("cli", "again", "2026-01-02T03:04:06Z");
    let text = print_json(&vec![TaskLog::parse(line.trim_end()).unwrap(), other.clone()]);
    assert_eq!(text, format!("{}{}", line, other.to_line()));
}

#[test]
fn integer_costs_are_written_as_floats() {
    let e = test_entry("cli", "t", "2026-01-02T03:04:05Z");
    for (cost, shown) in [("1", "1.0"), ("0", "0.0"), ("-2", "-2.0"), ("0.25", "0.25")] {
        let given = format!("\"cost\":{}", cost);
        let line = e.to_line().replace(&format!("\"cost\":{}", e.cost), &given);
        let read = TaskLog::parse(line.trim_end()).unwrap();
        assert_eq!(read.cost, shown);
        let text = print_json(&vec![read]);
        assert!(text.contains(&format!("\"cost\":{},", shown)), "{}", text);
    }
}

#[test]
fn costs_keep_all_their_digits() {
    for cost in ["0.30000000000000004", "31.245270191439438", "1.7976931348623157e+308", "5e-324"] {
        let mut e = test_entry("cli", "t", "2026-01-02T03:04:05Z");
        e.cost = cost.into();
        assert_eq!(TaskLog::parse(e.to_line().trim_end()).unwrap().cost, cost);
    }
}

#[test]
fn a_list_stands_for_a_log_entry() {
    let values = r#""2026","cli",1,0.5,2,"ok","t",null,"m",null,7,null,3"#;
    let e = TaskLog::parse(&format!("[{}]", values)).unwrap();
    assert_eq!((e.github_pr, e.output_tokens, e.cache_read_input_tokens), (Some(7), Some(3), None));
    let e = TaskLog::parse(&format!("[{},4,5]", values)).unwrap();
    assert_eq!(e.cache_read_input_tokens, Some(5));
    assert!(TaskLog::parse(&format!("[{},4,5,6]", values)).is_none());
    assert!(TaskLog::parse(r#"["2026","cli",1,0.5,2,"ok","t",null,"m",null,7,null]"#).is_none());
}

#[test]
fn lists_stand_for_samples() {
    let text = r#"["2026-01-02T03:04:05Z",[["/","/dev/x",3,2,1]],[["kira","/home/kira",null]]]"#;
    let snap = load_cache(text).unwrap();
    assert_eq!(snap.updated_at.as_deref(), Some("2026-01-02T03:04:05Z"));
    assert_eq!(snap.volumes[0].avail_bytes, Some(1));
    assert_eq!(snap.agents[0].home_dir, "/home/kira");
    assert!(load_cache(r#"["noon",[],[]]"#).is_none());
    assert!(load_cache(r#"[null,[]]"#).is_none());
    assert!(load_cache(r#"[null,[["/"]],[]]"#).is_none());
}

#[test]
fn malformed_log_lines_are_skipped() {
    let a = test_entry("telegram", "first", "2026-01-02T03:04:05Z");
    let b = test_entry("cli", "second", "2026-01-03T03:04:05Z");
    let text = format!("{}nonsense\n\n{}", a.to_line(), b.to_line());
    let all = read_logs_from_text(&text, 10, None, None);
    assert_eq!(all.len(), 2);
    let cli = read_logs_from_text(&text, 10, Some("cli"), None);
    assert_eq!(cli.len(), 1);
    assert_eq!(cli[0].task, "second");
    let last = read_logs_from_text(&text, 1, None, None);
    assert_eq!(last[0].task, "second");
    let (secs, nanos) = (1_767_398_400, 0);
    assert_eq!(read_logs_from_text(&text, 10, None, Some((secs, nanos))).len(), 1);
}

#[test]
fn logged_entries_are_read_back() {
    let mut file = String::new();
    for i in 0..3 {
        let e = test_entry("cli", &format!("task\r\n{}", i), "2026-01-02T03:04:05Z");
        file.push_str(&e.to_line());
        let read = read_logs_from_text(&file, 10, None, None);
        assert_eq!(read.len(), i + 1);
        assert_eq!(read[i], e);
    }
    assert!(read_logs_from_text(&file, 10, Some("telegram"), None).is_empty());
}

#[test]
fn long_logs_are_rotated() {
    let mut text = String::new();
    for i in 0..MAX_ENTRIES {
        text.push_str(&format!("line {}\n", i));
    }
    assert_eq!(rotate_text(&text), None);
    text.push_str("last\n");
    let kept = rotate_text(&text).unwrap();
    assert!(kept.starts_with("line 1\n"));
    assert!(kept.ends_with("last\n"));
    assert_eq!(kept.lines().count(), MAX_ENTRIES);
}
