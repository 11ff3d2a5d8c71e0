use deskd::agent::TokenUsage;
use deskd::agent_state::{
    append, append_to_section, default_state_path, find_next_heading_index, find_section_index,
    is_heading, join_preserving_trailing_newline, lock_path, matches_section_heading, read,
    replace_section, resolve_path, set_section, stamp, stamp_with,
};
use deskd::config::{
    ScheduleAction, ScheduleDef, ScopeType, SubAgentDef, TelegramRoute, TelegramRoutesConfig,
    UserConfig,
};
use deskd::config_changeset::{classify_config_change, ConfigChangeset};
use deskd::context::{
    default_main_path, live_message, needs_run, output_is_good, should_compact, CachedResult,
    ContextConfig, MainBranch, Node, NodeKind,
};
use deskd::json_text::read_json;

// ─── Token usage ────────────────────────────────────────────────────────────

#[test]
fn test_token_usage_default() {
    let usage = TokenUsage::default();
    assert_eq!(usage.input_tokens, 0);
    assert_eq!(usage.output_tokens, 0);
    assert_eq!(usage.cache_creation_input_tokens, 0);
    assert_eq!(usage.cache_read_input_tokens, 0);
}

#[test]
fn test_token_usage_accumulate() {
    let mut usage = TokenUsage::default();
    let json1 = read_json(
        r#"{
            "input_tokens": 100,
            "output_tokens": 50,
            "cache_creation_input_tokens": 10,
            "cache_read_input_tokens": 20
        }"#,
    )
    .unwrap();
    usage.accumulate(&json1);
    assert_eq!(usage.input_tokens, 100);
    assert_eq!(usage.output_tokens, 50);
    assert_eq!(usage.cache_creation_input_tokens, 10);
    assert_eq!(usage.cache_read_input_tokens, 20);
    let json2 = read_json(
        r#"{
            "input_tokens": 200,
            "output_tokens": 100,
            "cache_creation_input_tokens": 5,
            "cache_read_input_tokens": 30
        }"#,
    )
    .unwrap();
    usage.accumulate(&json2);
    assert_eq!(usage.input_tokens, 300);
    assert_eq!(usage.output_tokens, 150);
    assert_eq!(usage.cache_creation_input_tokens, 15);
    assert_eq!(usage.cache_read_input_tokens, 50);
}

#[test]
fn test_token_usage_accumulate_partial() {
    let mut usage = TokenUsage::default();
    let json = read_json(r#"{"input_tokens": 100, "output_tokens": 50}"#).unwrap();
    usage.accumulate(&json);
    assert_eq!(usage.input_tokens, 100);
    assert_eq!(usage.output_tokens, 50);
    assert_eq!(usage.cache_creation_input_tokens, 0);
    assert_eq!(usage.cache_read_input_tokens, 0);
}

#[test]
fn test_token_usage_merge() {
    let mut a = TokenUsage {
        input_tokens: 100,
        output_tokens: 50,
        cache_creation_input_tokens: 10,
        cache_read_input_tokens: 20,
    };
    let b = TokenUsage {
        input_tokens: 200,
        output_tokens: 75,
        cache_creation_input_tokens: 5,
        cache_read_input_tokens: 15,
    };
    a.merge(&b);
    assert_eq!(a.input_tokens, 300);
    assert_eq!(a.output_tokens, 125);
    assert_eq!(a.cache_creation_input_tokens, 15);
    assert_eq!(a.cache_read_input_tokens, 35);
}

// ─── State documents ────────────────────────────────────────────────────────

#[test]
fn default_path_uses_agent_name() {
    let p = resolve_path("runner", "kira", None, Some("/tmp/home")).unwrap();
    assert!(p.ends_with(".runner/projects/-home-kira/memory/current_state.md"), "got {p}");
    assert!(p.starts_with("/tmp/home/"));
}

#[test]
fn rejects_dotdot_in_agent_name() {
    assert!(resolve_path("runner", "..", None, None).is_err());
    assert!(resolve_path("runner", "foo/../bar", None, None).is_err());
    assert!(resolve_path("runner", "", None, None).is_err());
}

#[test]
fn stamp_inserts_after_first_heading() {
    let body = "# My state\n\nbody text\n";
    let out = stamp(body);
    let lines: Vec<&str> = out.lines().collect();
    assert_eq!(lines[0], "# My state");
    assert_eq!(lines[1], "");
    assert!(lines[2].starts_with("Last updated: "));
    assert_eq!(lines[3], "");
    assert_eq!(lines[4], "body text");
}

#[test]
fn stamp_replaces_existing_line() {
    let body = "# My state\n\nLast updated: 2020-01-01T00:00:00Z\n\nbody\n";
    let out = stamp(body);
    let count = out.lines().filter(|l| l.starts_with("Last updated:")).count();
    assert_eq!(count, 1);
    assert!(!out.contains("2020-01-01"));
}

#[test]
fn stamp_prepends_when_no_heading() {
    let body = "just some text\n";
    let out = stamp(body);
    assert!(out.starts_with("Last updated: "));
    assert!(out.contains("just some text"));
}

#[test]
fn stamps_are_surrounded_by_blank_lines() {
    assert_eq!(stamp_with("# A\nbody\n", "T"), "# A\n\nLast updated: T\n\nbody\n");
}

#[test]
fn append_creates_section_when_missing() {
    let body = "# Doc\n";
    let out = append_to_section(body, "Open PRs", "kgatilin/deskd#456");
    assert!(out.contains("## Open PRs"));
    assert!(out.contains("- kgatilin/deskd#456"));
}

#[test]
fn append_adds_bullet_within_existing_section() {
    let body = "## A\n\n- one\n\n## B\n\n- x\n";
    let out = append_to_section(body, "A", "two");
    let a_idx = out.find("## A").unwrap();
    let b_idx = out.find("## B").unwrap();
    let two_idx = out.find("- two").unwrap();
    assert!(a_idx < two_idx && two_idx < b_idx, "wrong order in:\n{}", out);
    assert!(out.contains("- one"));
}

#[test]
fn append_accepts_already_bulleted_line() {
    let body = "## A\n\n- x\n";
    let out = append_to_section(body, "A", "- y");
    assert!(out.contains("- x"));
    assert!(out.contains("- y"));
    assert!(!out.contains("- - y"));
}

#[test]
fn replace_section_replaces_only_named_section() {
    let body = "## A\n\nold A body\n\n## B\n\nB body\n";
    let out = replace_section(body, "A", "new A body");
    assert!(out.contains("new A body"));
    assert!(!out.contains("old A body"));
    assert!(out.contains("B body"));
}

#[test]
fn replace_section_creates_when_missing() {
    let body = "# Doc\n";
    let out = replace_section(body, "New", "fresh content");
    assert!(out.contains("## New"));
    assert!(out.contains("fresh content"));
}

#[test]
fn matches_heading_handles_level_3() {
    assert!(matches_section_heading("### Sub", "Sub"));
    assert!(matches_section_heading("## Sub", "Sub"));
    assert!(!matches_section_heading("#### Sub", "Sub"));
    assert!(!matches_section_heading("## SubX", "Sub"));
}

fn lines(text: &str) -> Vec<String> {
    text.lines().map(|l| l.to_string()).collect()
}

#[test]
fn headings_bound_a_section() {
    let all = lines("# Doc\n\n## A\n\n- a\n\n## B\n");
    assert_eq!(find_section_index(&all, "A"), Some(2));
    assert_eq!(find_section_index(&all, "C"), None);
    assert_eq!(find_next_heading_index(&all, 3), 6);
    assert_eq!(find_next_heading_index(&all, 7), 7);
    assert!(is_heading("# Doc"));
    assert!(!is_heading("- item"));
    assert_eq!(join_preserving_trailing_newline(&lines("a\nb"), "x\n"), "a\nb\n");
    assert_eq!(lock_path("/x/state.md"), "/x/state.md.lock");
}

#[test]
fn set_section_replaces_only_named_section() {
    let doc = deskd::agent_state::write("# Doc\n\n## A\n\n- a1\n\n## B\n\n- b1\n");
    let got = read(Some(&set_section(Some(&doc), "A", "- a2\n- a3")));
    assert!(got.contains("- a2"));
    assert!(got.contains("- a3"));
    assert!(!got.contains("- a1"));
    assert!(got.contains("- b1"));
}

#[test]
fn write_stamps_last_updated() {
    assert!(deskd::agent_state::write("# Doc\n\nbody\n").contains("Last updated: "));
    let got = deskd::agent_state::write(&deskd::agent_state::write("# Doc\n\nbody\n"));
    let count = got.lines().filter(|l| l.starts_with("Last updated:")).count();
    assert_eq!(count, 1, "got:\n{}", got);
}

#[test]
fn append_creates_unknown_section() {
    let got = append(Some(&deskd::agent_state::write("# Doc\n")), "Brand New", "first bullet");
    assert!(got.contains("## Brand New"));
    assert!(got.contains("- first bullet"));
}

#[test]
fn read_missing_returns_empty() {
    assert_eq!(read(None), "");
}

#[test]
fn write_then_read_roundtrip() {
    let got = read(Some(&deskd::agent_state::write("# Doc\n\nhello\n")));
    assert!(got.contains("hello"));
    assert!(got.contains("Last updated: "));
}

#[test]
fn appends_in_turn_keep_both_bullets() {
    let doc = deskd::agent_state::write("# Doc\n\n## Notes\n\n");
    let got = append(Some(&append(Some(&doc), "Notes", "alpha")), "Notes", "beta");
    assert!(got.contains("## Notes\n- alpha\n- beta\n"), "got:\n{}", got);
}

#[test]
fn later_stamps_replace_earlier_ones() {
    for doc in [
        "# Doc\n\nbody\n",
        "# Doc\nbody\n",
        "body\n",
        "a\nLast updated: x\nb\n",
        "# Doc\n\n",
        "body\n\n",
        "a\nLast updated: x\r\r\n\n",
    ] {
        assert_eq!(stamp_with(&stamp_with(doc, "t1"), "t2"), stamp_with(doc, "t2"));
    }
}

#[test]
fn the_last_replacement_of_a_section_counts() {
    let docs = [
        "# Doc\n\n## A\nold\n\n## B\nb\n",
        "# Doc\n\n## A\nold\n\n## B\nb\n\n",
        "# Doc\n\n## A\nold\r\r\n\n\n",
        "# Doc\n\n## B\nb\n",
        "plain\n",
        "plain\n\n\n",
    ];
    for doc in docs {
        for (first, second) in [
            ("one\ntwo", "three"),
            ("", "x"),
            ("x", ""),
            ("same", "same"),
            ("a\r\r\n", "y"),
            ("\r\r\n\r", "#\r\r\n"),
        ] {
            let once = replace_section(doc, "A", first);
            assert_eq!(replace_section(&once, "A", second), replace_section(doc, "A", second));
        }
    }
}

#[test]
fn a_set_section_is_found_again() {
    let doc = set_section(Some("# Doc\n"), "New", "one\ntwo");
    assert!(doc.ends_with("## New\n\none\ntwo\n"));
    let doc = set_section(Some(&doc), "New", "three");
    assert!(doc.ends_with("## New\n\nthree\n"));
}

fn make_sub_agent(name: &str) -> SubAgentDef {
    SubAgentDef {
        name: name.into(),
        model: "haiku".into(),
        system_prompt: String::new(),
        subscribe: vec![],
        publish: None,
        inbox_read: None,
        scope: ScopeType::Inherit,
        can_message: None,
        work_dir: None,
        env: None,
        state_file: None,
        options: None,
    }
}

#[test]
fn per_agent_state_file_override() {
    let mut cfg = UserConfig::default();
    let mut helper = make_sub_agent("helper");
    helper.state_file = Some("/tmp/custom_state.md".into());
    cfg.agents.push(helper);
    cfg.agents.push(make_sub_agent("plain"));
    cfg.state_file = Some("/tmp/top.md".into());
    assert_eq!(
        resolve_path("runner", "helper", Some(&cfg), Some("/h")).unwrap(),
        "/tmp/custom_state.md"
    );
    assert_eq!(
        resolve_path("runner", "plain", Some(&cfg), Some("/h")).unwrap(),
        "/h/.runner/projects/-home-plain/memory/current_state.md"
    );
    assert_eq!(resolve_path("runner", "top", Some(&cfg), Some("/h")).unwrap(), "/tmp/top.md");
    assert_eq!(
        default_state_path("runner", "helper"),
        "~/.runner/projects/-home-helper/memory/current_state.md"
    );
}

// ─── Configuration changes ──────────────────────────────────────────────────

fn base_config() -> UserConfig {
    UserConfig { system_prompt: "You are a helpful assistant.".into(), ..Default::default() }
}

#[test]
fn test_classify_no_change() {
    let cfg = base_config();
    let cs = classify_config_change(&cfg, &cfg);
    assert_eq!(cs, ConfigChangeset::default());
    assert!(!cs.system_prompt_only);
}

#[test]
fn test_classify_system_prompt_only() {
    let old = base_config();
    let mut new = base_config();
    new.system_prompt = "New prompt.".into();
    let cs = classify_config_change(&old, &new);
    assert!(cs.system_prompt_only);
    assert!(!cs.adapters_changed);
    assert!(!cs.schedules_changed);
    assert!(!cs.sub_agents_changed);
}

#[test]
fn test_classify_telegram_routes_changed() {
    let old = base_config();
    let mut new = base_config();
    new.telegram = Some(TelegramRoutesConfig {
        routes: vec![TelegramRoute {
            chat_id: 12345,
            mention_only: false,
            name: None,
            route_to: None,
        }],
    });
    let cs = classify_config_change(&old, &new);
    assert!(cs.adapters_changed);
    assert!(!cs.system_prompt_only);
    assert!(!cs.schedules_changed);
}

#[test]
fn test_classify_schedules_changed() {
    let old = base_config();
    let mut new = base_config();
    new.schedules = vec![ScheduleDef {
        cron: "0 9 * * *".into(),
        target: "agent:dev".into(),
        action: ScheduleAction::Raw,
        config: None,
        timezone: None,
    }];
    let cs = classify_config_change(&old, &new);
    assert!(cs.schedules_changed);
    assert!(!cs.adapters_changed);
    assert!(!cs.system_prompt_only);
}

#[test]
fn test_classify_removed_sub_agents() {
    let mut old = base_config();
    old.agents = vec![make_sub_agent("kept"), make_sub_agent("removed")];
    let mut new = base_config();
    new.agents = vec![make_sub_agent("kept")];
    let cs = classify_config_change(&old, &new);
    assert!(cs.sub_agents_changed);
    assert_eq!(cs.removed_sub_agents, vec!["removed".to_string()]);
}

#[test]
fn test_classify_no_removed_when_only_added() {
    let old = base_config();
    let mut new = base_config();
    new.agents = vec![make_sub_agent("added")];
    let cs = classify_config_change(&old, &new);
    assert!(cs.sub_agents_changed);
    assert!(cs.removed_sub_agents.is_empty());
}

#[test]
fn test_classify_system_prompt_and_adapters_not_prompt_only() {
    let old = base_config();
    let mut new = base_config();
    new.system_prompt = "Updated.".into();
    new.telegram = Some(TelegramRoutesConfig { routes: vec![] });
    let cs = classify_config_change(&old, &new);
    assert!(!cs.system_prompt_only, "both changed — should not be prompt-only");
    assert!(cs.adapters_changed);
}

// ─── Context ────────────────────────────────────────────────────────────────

fn static_node(id: &str, role: &str, content: &str, label: &str, tokens: u32) -> Node {
    Node {
        id: id.into(),
        kind: NodeKind::Static { role: role.into(), content: content.into() },
        label: label.into(),
        tokens_estimate: tokens,
    }
}

fn live_node(label: &str, max_age: Option<u64>, cached: Option<CachedResult>) -> Node {
    Node {
        id: "l1".into(),
        kind: NodeKind::Live {
            command: "echo".into(),
            args: vec!["x".into()],
            max_age_secs: max_age,
            inject_as: "user".into(),
            cached_result: cached,
        },
        label: label.into(),
        tokens_estimate: 50,
    }
}

#[test]
fn test_main_branch_new() {
    let branch = MainBranch::new("kira", 10000);
    assert_eq!(branch.agent, "kira");
    assert_eq!(branch.budget_tokens, 10000);
    assert!(branch.nodes.is_empty());
}

#[test]
fn test_total_tokens_empty() {
    let branch = MainBranch::new("kira", 10000);
    assert_eq!(branch.total_tokens(), 0);
}

#[test]
fn test_total_tokens_with_nodes() {
    let mut branch = MainBranch::new("kira", 10000);
    branch.nodes.push(static_node("n1", "system", "You are Kira.", "System prompt", 500));
    branch.nodes.push(static_node("n2", "user", "Governance rules...", "Governance", 1200));
    assert_eq!(branch.total_tokens(), 1700);
}

#[test]
fn test_materialize_static_nodes() {
    let mut branch = MainBranch::new("agent", 10000);
    branch.nodes.push(static_node("s1", "system", "You are a test agent.", "System", 100));
    branch.nodes.push(static_node("s2", "user", "Some context", "Context", 50));
    assert_eq!(branch.commands_to_run(0), vec![false, false]);
    let messages = branch.materialize(&vec![None, None], "2026-01-01T00:00:00Z");
    assert_eq!(messages.len(), 2);
    assert_eq!(messages[0].role, "system");
    assert_eq!(messages[0].content, "You are a test agent.");
    assert_eq!(messages[1].role, "user");
    assert_eq!(messages[1].content, "Some context");
}

#[test]
fn test_materialize_live_node_echo() {
    let mut branch = MainBranch::new("agent", 10000);
    branch.nodes.push(live_node("Echo test", None, None));
    assert_eq!(branch.commands_to_run(0), vec![true]);
    let messages = branch
        .materialize(&vec![Some("hello from live node\n".into())], "2026-01-01T00:00:00Z");
    assert_eq!(messages.len(), 1);
    assert_eq!(messages[0].role, "user");
    assert_eq!(messages[0].content, "[Echo test] hello from live node");
}

#[test]
fn test_materialize_live_node_caches_result() {
    let mut branch = MainBranch::new("agent", 10000);
    branch.nodes.push(live_node("Cached echo", Some(3600), None));
    let messages = branch.materialize(&vec![Some("cached\n".into())], "2026-01-01T00:00:00Z");
    assert_eq!(messages.len(), 1);
    assert_eq!(messages[0].content, "[Cached echo] cached");
    match &branch.nodes[0].kind {
        NodeKind::Live { cached_result, .. } => {
            assert_eq!(cached_result.as_ref().unwrap().content, "cached\n");
        }
        _ => panic!("Expected Live node"),
    }
    let ten_seconds_later: i64 = (1_767_225_600 + 10) * 1_000_000_000;
    assert_eq!(branch.commands_to_run(ten_seconds_later), vec![false]);
    let messages2 = branch.materialize(&vec![None], "2026-01-01T00:00:10Z");
    assert_eq!(messages2.len(), 1);
    assert_eq!(messages2[0].content, "[Cached echo] cached");
}

#[test]
fn test_materialize_live_node_expired_cache() {
    let mut branch = MainBranch::new("agent", 10000);
    let stale = CachedResult {
        content: "stale data".into(),
        fetched_at: "2020-01-01T00:00:00Z".into(),
    };
    branch.nodes.push(live_node("Expiry test", Some(60), Some(stale)));
    let now: i64 = 1_767_225_600 * 1_000_000_000;
    assert!(needs_run(&branch.nodes[0], now));
    let messages = branch.materialize(&vec![Some("fresh\n".into())], "2026-01-01T00:00:00Z");
    assert_eq!(messages.len(), 1);
    assert_eq!(messages[0].content, "[Expiry test] fresh");
}

#[test]
fn test_materialize_empty_output_skipped() {
    let mut branch = MainBranch::new("agent", 10000);
    branch.nodes.push(live_node("Silent", None, None));
    let messages = branch.materialize(&vec![Some("".into())], "2026-01-01T00:00:00Z");
    assert!(messages.is_empty(), "Empty output should be skipped");
    assert!(live_message("user", "Silent", " \n").is_none());
}

#[test]
fn outputs_are_good_within_their_age() {
    assert!(output_is_good(Some(59), Some(60)));
    assert!(!output_is_good(Some(60), Some(60)));
    assert!(!output_is_good(None, Some(60)));
    assert!(!output_is_good(Some(1), None));
}

#[test]
fn test_should_compact() {
    assert!(!should_compact(50000, 80000));
    assert!(should_compact(80000, 80000));
    assert!(should_compact(100000, 80000));
    assert!(!should_compact(0, 80000));
}

#[test]
fn test_default_main_path() {
    let path = default_main_path("/home/kira");
    assert_eq!(path, "/home/kira/.deskd/context/main.yaml");
}

#[test]
fn test_context_config_defaults() {
    let cfg = ContextConfig::default();
    assert!(!cfg.enabled);
    assert!(cfg.main_budget_tokens.is_none());
    assert!(cfg.compact_threshold_tokens.is_none());
    assert!(cfg.main_path.is_none());
}
