use deskd::agent::AgentState;
use deskd::commands::agent::{
    agent_bus_socket, agent_target, choose_socket, create_config, live_sockets, log_limit,
    log_tail, log_view, show_agent_status, show_list, show_stats, show_status_table,
    spawn_parent, spawn_socket, worker_subscriptions, CreateArgs, Health, ListRow, LogView, Probe,
    StatusFacts, StatusRow,
};
use deskd::commands::agent_stream::{print_stream_event, show_event, tool_use_line};
use deskd::commands::agent_tasks::{
    completed_tasks, holds_replies, inbox_entry, message_instant, print_inbox_message,
    reply_inbox, show_message, show_tasks, InboxEntry,
};
use deskd::commands::dashboard::{
    build, next_run, render_json, render_text, wait_until, AgentFacts, Amount, CostedState,
    Dashboard, DashboardAgent, DashboardSm, DashboardTasks, DashboardWorker, TimedSchedule,
};
use deskd::commands::sm::{
    cancelled_line, created_line, instance_model, moved_line, notified_agent, notify_socket,
    plan_cancel, read_metadata, show_instance, show_instances, show_model, show_models, Cancellation,
    HistoryStep, SmDetail,
};
use deskd::commands::status::{self, StatusOutput};
use deskd::commands::task::{list_filter, show_tasks as show_queue, TaskRow};
use deskd::commands::tui::{choose_runner, find_tui_dir, resolve_socket, socket_path};
use deskd::config::{AgentDef, ModelDef, ScheduleAction, ScheduleDef, TransitionDef};
use deskd::json::Json;
use deskd::json_text::{read_json, write_json};
use deskd::mcp_service::{InboxMessage, QueueTask, SmInstance, TaskStatus};

fn json(text: &str) -> Json {
    read_json(text).unwrap()
}

fn state(name: &str, parent: Option<&str>) -> AgentState {
    AgentState {
        name: name.into(),
        model: "haiku".into(),
        system_prompt: "".into(),
        work_dir: "/home/x".into(),
        max_turns: 10,
        unix_user: None,
        config_path: None,
        status: "idle".into(),
        current_task: "a task".into(),
        session_id: "".into(),
        created_at: "2026-05-09T00:00:00.123Z".into(),
        pid: 77,
        total_turns: 3,
        total_cost: "0.5".into(),
        budget_usd: "5.0".into(),
        parent: parent.map(|p| p.to_string()),
        scope: None,
        can_message: None,
        env_keys: None,
    }
}

fn probe(path: &str, exists: bool) -> Probe {
    Probe { path: path.into(), exists }
}

// ─── Agents ─────────────────────────────────────────────────────────────────

#[test]
fn agents_are_created_with_defaults() {
    let args = CreateArgs {
        name: "kira".into(),
        prompt: None,
        model: "haiku".into(),
        workdir: None,
        max_turns: 5,
        unix_user: None,
        budget_usd: "1.0".into(),
        command: vec![],
    };
    let c = create_config(args.clone(), "runner");
    assert_eq!(c.command, vec!["runner"]);
    assert_eq!(c.work_dir, ".");
    assert_eq!(c.system_prompt, "");
    let c = create_config(CreateArgs { command: vec!["x".into()], ..args }, "runner");
    assert_eq!(c.command, vec!["x"]);
    assert_eq!(worker_subscriptions(vec![]), None);
    assert_eq!(worker_subscriptions(vec!["a".into()]), Some(vec!["a".to_string()]));
}

#[test]
fn messages_find_a_socket() {
    let named = Some(probe("/named", false));
    let own = Some(probe("/own", false));
    let served = Some(probe("/served", true));
    assert_eq!(choose_socket(&named, &own, &served), None);
    assert_eq!(choose_socket(&None, &own, &served).as_deref(), Some("/served"));
    assert_eq!(choose_socket(&None, &served, &own).as_deref(), Some("/served"));
    assert_eq!(choose_socket(&None, &None, &None), None);
    assert_eq!(agent_target("dev"), "agent:dev");
    assert_eq!(agent_bus_socket("/w"), "/w/.deskd/bus.sock");
}

#[test]
fn all_buses_are_asked() {
    let agents = vec![state("a", None), state("b", Some("a")), state("c", Some("a"))];
    let served = vec!["/s".to_string(), "/t".to_string()];
    assert_eq!(
        live_sockets("/s", &served, &agents),
        vec!["/s", "/t", "/tmp/deskd-a-internal.sock"]
    );
}

#[test]
fn agents_are_listed() {
    assert_eq!(show_list(&Vec::new()), "No agents registered\n");
    let rows = vec![
        ListRow { state: state("kira", None), health: Health::Ready, cost: "0.50".into() },
        ListRow { state: state("w", Some("kira")), health: Health::Busy, cost: "0.50".into() },
    ];
    let text = show_list(&rows);
    let lines: Vec<&str> = text.lines().collect();
    assert_eq!(
        lines[0],
        format!("{:<15} {:<12} {:<8} {:<10} {:<12} MODEL", "NAME", "STATUS", "TURNS", "COST", "USER")
    );
    assert_eq!(
        lines[1],
        format!("{:<15} {:<12} {:<8} ${:<9.2} {:<12} {}", "kira", "ready", 3, 0.5, "-", "haiku")
    );
    assert!(lines[2].contains("busy[sub]"));
}

#[test]
fn agents_are_shown() {
    let text = show_stats(&state("kira", None), "0.5000", "5.00");
    assert!(text.contains("Bus:        /home/x/.deskd/bus.sock\n"));
    assert!(text.contains("Session:    -\n"));
    let facts = StatusFacts {
        pid_alive: false,
        on_internal_bus: false,
        cost: "0.5000".into(),
        budget: "5.00".into(),
        stderr: Some("1\n2\n3\n4\n5\n6\n".into()),
    };
    let text = show_agent_status(&state("kira", Some("p")), &facts);
    assert!(text.contains("Type:        sub-agent\n"));
    assert!(text.contains("Status:      offline\nPID:         -\n"));
    assert!(text.contains("Parent:      p\n"));
    assert!(text.ends_with("Stderr (last 5):\n  2\n  3\n  4\n  5\n  6\n"));
    let alive = StatusFacts { pid_alive: true, stderr: None, ..facts };
    let text = show_agent_status(&state("kira", None), &alive);
    assert!(text.contains("Status:      idle\nPID:         77\n"));
    let rows = vec![
        StatusRow { state: state("a", None), pid_alive: true, cost: "0.5000".into() },
        StatusRow { state: state("b", Some("a")), pid_alive: false, cost: "0.5000".into() },
    ];
    let table = show_status_table(&rows);
    assert!(table.contains(&"─".repeat(78)));
    assert!(table.contains("2026-05-09T00:00:00  "));
    assert!(table.contains("offline[sub]"));
}

#[test]
fn logs_have_views() {
    assert_eq!(log_limit(20, false, false), 20);
    assert_eq!(log_limit(20, true, false), usize::MAX);
    assert_eq!(log_view(true, true, true, true), LogView::Nothing);
    assert_eq!(log_view(false, true, true, true), LogView::ByPr);
    assert_eq!(log_view(false, false, true, true), LogView::Cost);
    assert_eq!(log_view(false, false, false, true), LogView::Json);
    assert_eq!(log_view(false, false, false, false), LogView::Table);
    assert_eq!(log_tail("a\nb\nc", 2), vec!["b", "c"]);
    assert_eq!(spawn_socket(None, Some("/e")).unwrap(), "/e");
    assert!(spawn_socket(None, None).is_err());
    assert_eq!(spawn_parent(None), "unknown");
}

#[test]
fn stream_events_are_shown() {
    let text = r#"{"type":"assistant","message":{"content":[
        {"type":"text","text":"hello"},
        {"type":"text","text":""},
        {"type":"tool_use","name":"Bash","input":{"command":"ls"}}
    ]}}"#;
    assert_eq!(
        print_stream_event(text, "0"),
        "[assistant] hello\n[tool_use] Bash {\"command\":\"ls\"}\n"
    );
    assert_eq!(print_stream_event("nope", "0"), "");
    assert_eq!(
        show_event(&json(r#"{"type":"result","num_turns":3}"#), "0.1000"),
        "[result] turns=3 cost=$0.1000\n"
    );
    assert_eq!(
        show_event(&json(r#"{"type":"tool","content":[{"text":"bad","is_error":true}]}"#), ""),
        "[tool_error] bad\n"
    );
    assert_eq!(
        show_event(&json(r#"{"type":"tool_result","content":[{"text":"ok"}]}"#), ""),
        "[tool_result] ok\n"
    );
    assert_eq!(show_event(&json(r#"{"type":"system"}"#), ""), "[system]\n");
    assert_eq!(show_event(&json("{}"), ""), "");
    assert_eq!(tool_use_line("?", None), "[tool_use] ? \n");
}

fn entry(kind: &str, instant: i128, id: &str) -> InboxEntry {
    InboxEntry {
        message: InboxMessage {
            ts: "2026".into(),
            source: "cli".into(),
            from: None,
            text: "done it".into(),
            metadata: json(&format!(
                "{{\"type\":\"{kind}\",\"message_id\":\"{id}\",\"task\":\"t\",\"agent\":\"dev\"}}"
            )),
        },
        instant,
        age: "5m".into(),
    }
}

#[test]
fn completed_tasks_come_latest_first() {
    let entries = vec![
        entry("task_result", 1, "aaaaaaaaa"),
        entry("chat", 2, "bbbbbbbbb"),
        entry("task_result", 3, "ccccccccc"),
    ];
    let done = completed_tasks(entries, 5);
    assert_eq!(done.len(), 2);
    assert_eq!(done[0].instant, 3);
    let text = show_tasks("dev", &done);
    assert!(text.starts_with("COMPLETED (2):\n"));
    assert_eq!(
        text.lines().nth(1).unwrap(),
        format!("  {:<8} from:{:<6} {:38} {} {} ago", "cccccc", "cli", "\"t\"", "done", "5m")
    );
    assert!(show_tasks("all", &done).contains(" dev          from:cli"));
    assert_eq!(show_tasks("dev", &Vec::new()), "No completed tasks for dev\n");
    assert_eq!(show_tasks("all", &Vec::new()), "No completed tasks found\n");
    assert_eq!(reply_inbox("dev"), "replies/dev");
    assert!(holds_replies("replies/dev"));
    assert_eq!(show_message(&done[0].message, "T"), "─── cli [T] ───\ndone it\n\n");
}

#[test]
fn messages_are_shown_with_their_time() {
    let mut m = entry("chat", 0, "x").message;
    assert_eq!(message_instant(&m), None);
    assert_eq!(print_inbox_message(&m), "─── cli [2026] ───\ndone it\n\n");
    m.ts = "2026-03-28T14:00:00.25+02:00".into();
    m.from = Some("dev".into());
    assert_eq!(print_inbox_message(&m), "─── dev [2026-03-28T12:00:00] ───\ndone it\n\n");
    let instant = message_instant(&m);
    assert_eq!(instant, Some((1_774_699_200, 250_000_000)));
    let e = inbox_entry(m, instant, "5m".into());
    assert_eq!(e.instant, 1_774_699_200_250_000_000);
}

#[test]
fn metadata_has_to_be_json() {
    assert_eq!(read_metadata("{\"a\":1}"), Ok(json("{\"a\":1}")));
    let reason = serde_json::from_str::<serde_json::Value>("{a}").unwrap_err().to_string();
    assert_eq!(read_metadata("{a}"), Err(format!("invalid --metadata JSON: {}", reason)));
}

// ─── The dashboard ──────────────────────────────────────────────────────────

fn amount(value: &str, shown: &str) -> Amount {
    Amount { value: value.into(), shown: shown.into() }
}

fn sample_dashboard() -> Dashboard {
    Dashboard {
        agents: vec![DashboardAgent {
            name: "uagent".into(),
            status: "working".into(),
            turns: 12,
            cost: amount("4.2", "4.20"),
            current_task: "Delegating implement for UAGENT-456...".into(),
            workers: vec![
                DashboardWorker {
                    name: "worker-UAGENT-456".into(),
                    status: "idle".into(),
                    turns: 13,
                    cost: amount("3.08", "3.08"),
                    current_task: String::new(),
                },
                DashboardWorker {
                    name: "worker-UAGENT-465".into(),
                    status: "working".into(),
                    turns: 25,
                    cost: amount("0.52", "0.52"),
                    current_task: "Implementing memory hooks...".into(),
                },
            ],
            schedules: vec![],
        }],
        sm_instances: vec![DashboardSm {
            id: "sm-9d696f10".into(),
            model: "ticket".into(),
            state: "implement".into(),
            title: "UAGENT-456: Global System Hooks".into(),
            assignee: "agent:uagent".into(),
            total_cost: amount("2.5", "2.50"),
        }],
        tasks: DashboardTasks { pending: 0, active: 0, done: 3, failed: 0 },
    }
}

#[test]
fn render_text_includes_all_sections() {
    let dash = sample_dashboard();
    let text = render_text(&dash);
    assert!(text.contains("AGENTS"), "missing AGENTS header");
    assert!(text.contains("uagent"), "missing agent name");
    assert!(text.contains("WORKERS (inside uagent)"));
    assert!(text.contains("worker-UAGENT-456"));
    assert!(text.contains("worker-UAGENT-465"));
    assert!(text.contains("SM INSTANCES"));
    assert!(text.contains("sm-9d696f10"));
    assert!(text.contains("UAGENT-456: Global System Hooks"));
    assert!(text.contains("TASKS"));
    assert!(text.contains("0 pending"));
    assert!(text.contains("3 done"));
    assert!(text.contains(&format!(
        "  {:<22} {:<9} {:>3} turns  ${:<6.2} {}\n",
        "worker-UAGENT-456", "idle", 13, 3.08, "-"
    )));
}

#[test]
fn render_text_empty_sections_show_none_marker() {
    let dash = Dashboard {
        agents: vec![],
        sm_instances: vec![],
        tasks: DashboardTasks { pending: 0, active: 0, done: 0, failed: 0 },
    };
    let text = render_text(&dash);
    assert!(text.contains("AGENTS"));
    assert!(text.contains("(none)"));
    assert!(text.contains("SM INSTANCES"));
    assert!(text.contains("TASKS"));
    assert!(!text.contains("WORKERS"));
}

#[test]
fn render_text_omits_workers_section_when_empty() {
    let mut dash = sample_dashboard();
    dash.agents[0].workers.clear();
    let text = render_text(&dash);
    assert!(!text.contains("WORKERS"), "workers section should be omitted");
}

#[test]
fn render_json_roundtrips() {
    let dash = sample_dashboard();
    let json = write_json(&render_json(&dash));
    let parsed: serde_json::Value = serde_json::from_str(&json).unwrap();
    assert_eq!(parsed["agents"][0]["name"], "uagent");
    assert_eq!(parsed["agents"][0]["workers"].as_array().unwrap().len(), 2);
    assert_eq!(parsed["sm_instances"][0]["id"], "sm-9d696f10");
    assert_eq!(parsed["tasks"]["done"], 3);
}

#[test]
fn formats_are_chosen() {
    let dash = sample_dashboard();
    assert!(matches!(status::handle(&dash, "json"), Ok(StatusOutput::Document(_))));
    assert!(matches!(status::handle(&dash, ""), Ok(StatusOutput::Plain(_))));
    assert_eq!(
        status::handle(&dash, "xml").unwrap_err(),
        "unknown --format 'xml' (expected 'text' or 'json')"
    );
}

fn def(name: &str) -> AgentDef {
    AgentDef {
        name: name.into(),
        work_dir: "/w".into(),
        unix_user: None,
        budget_usd: "5.0".into(),
        container: None,
        telegram: None,
        discord: None,
    }
}

fn ticket() -> ModelDef {
    let go = |from: &str, to: &str| TransitionDef {
        from: from.into(),
        to: to.into(),
        trigger: None,
        on: Some("done".into()),
        assignee: None,
        timeout: None,
        timeout_goto: None,
    };
    ModelDef {
        name: "ticket".into(),
        description: "a ticket".into(),
        states: vec!["open".into(), "work".into(), "done".into()],
        initial: "open".into(),
        terminal: vec!["done".into(), "implement".into()],
        transitions: vec![go("open", "work"), go("work", "done")],
    }
}

#[test]
fn schedules_tell_when_they_fire() {
    let now = 1_767_398_400_500_000_000;
    assert_eq!(next_run("0 30 9 * * *", now), Some(34_200_000_000_000 - 500_000_000));
    assert_eq!(next_run("* * * * * *", now), Some(500_000_000));
    assert_eq!(next_run("0 0 0 1 1 * 2000", now), None);
    assert_eq!(next_run("every day", now), None);
    assert_eq!(wait_until(Some(2), 3_000_000_000), Some(-1_000_000_000));
    assert_eq!(wait_until(None, 0), None);
    assert_eq!(
        wait_until(Some(i64::MAX), i64::MIN),
        Some(i64::MAX as i128 * 1_000_000_000 - i64::MIN as i128)
    );
}

#[test]
fn the_dashboard_is_built() {
    let states = vec![
        CostedState { state: state("a", None), shown_cost: "0.50".into() },
        CostedState { state: state("w", Some("a")), shown_cost: "0.50".into() },
    ];
    let timed = TimedSchedule {
        schedule: ScheduleDef {
            cron: "0 9 * * *".into(),
            target: "agent:a".into(),
            action: ScheduleAction::GithubPoll,
            config: None,
            timezone: None,
        },
        next: None,
    };
    let facts = vec![
        AgentFacts { online: true, schedules: vec![timed] },
        AgentFacts { online: false, schedules: vec![] },
    ];
    let tasks = DashboardTasks { pending: 1, active: 0, done: 0, failed: 0 };
    let ended = sample_dashboard().sm_instances.remove(0);
    let mut running = ended.clone();
    running.model = "other".into();
    let dash = build(
        &vec![def("a"), def("b")],
        &states,
        &facts,
        vec![ended, running],
        &vec![ticket()],
        tasks,
    );
    assert_eq!(dash.agents[0].status, "idle");
    assert_eq!(dash.agents[0].workers[0].name, "w");
    assert_eq!(dash.agents[0].schedules[0].action, "githubpoll");
    assert_eq!(dash.agents[0].schedules[0].next, "?");
    assert_eq!(dash.agents[1].status, "offline");
    assert_eq!(dash.agents[1].cost.shown, "0.00");
    assert_eq!(dash.sm_instances.len(), 1);
    assert_eq!(dash.sm_instances[0].model, "other");
}

// ─── State machines ─────────────────────────────────────────────────────────

fn instance(id: &str, state: &str) -> SmInstance {
    SmInstance {
        id: id.into(),
        model: "ticket".into(),
        title: "Fix it".into(),
        body: "".into(),
        state: state.into(),
        assignee: "agent:dev".into(),
        updated_at: "2026".into(),
    }
}

#[test]
fn models_are_shown() {
    assert_eq!(show_models(&Vec::new()), "No models defined\n");
    assert!(show_models(&vec![ticket()]).contains(&format!(
        "{:<20} {:<8} {:<8} {}\n",
        "ticket", 3, 2, "a ticket"
    )));
    let text = show_model(&vec![ticket()], "ticket").unwrap();
    assert!(text.contains("States:   open, work, done\n"));
    assert!(text.contains("Terminal: done, implement\n"));
    assert_eq!(
        show_model(&Vec::new(), "x").unwrap_err(),
        "Model 'x' not found"
    );
    assert_eq!(
        instance_model(&Vec::new(), "x").unwrap_err(),
        "Model 'x' not found in config"
    );
}

#[test]
fn instances_are_moved_and_cancelled() {
    let m = ticket();
    assert_eq!(created_line(&instance("i", "open")), "Created i (model=ticket, state=open)\n");
    assert_eq!(moved_line(&instance("i", "work")), "i -> work (ticket)\n");
    assert_eq!(notified_agent(&m, &instance("i", "work")), Some("dev"));
    assert_eq!(notified_agent(&m, &instance("i", "done")), None);
    assert_eq!(notify_socket(None, None, Some("/c")), "/c/.deskd/bus.sock");
    assert_eq!(notify_socket(Some("/e"), Some("/s"), None), "/e");
    assert_eq!(
        plan_cancel(&m, &instance("i", "work")),
        Ok(Cancellation::MoveTo("done".into()))
    );
    assert_eq!(
        plan_cancel(&m, &instance("i", "done")),
        Ok(Cancellation::Ended("i is already in terminal state 'done'\n".into()))
    );
    assert_eq!(
        plan_cancel(&m, &instance("i", "open")).unwrap_err(),
        "No transition to a terminal state from 'open' in model 'ticket'"
    );
    assert_eq!(cancelled_line(&instance("i", "done")), "i cancelled -> done\n");
}

#[test]
fn instances_are_listed_and_shown() {
    let all = vec![instance("i1", "open"), instance("i2", "work"), instance("i3", "open")];
    let text = show_instances(&all, None, Some("open"), 1);
    assert!(text.contains("i1"));
    assert!(!text.contains("i2"));
    assert!(!text.contains("i3"));
    assert_eq!(show_instances(&all, Some("x"), None, 9), "No instances found\n");
    let d = SmDetail {
        instance: instance("i1", "open"),
        result: None,
        error: Some("oops".into()),
        metadata: json("{\"k\":1}"),
        created_at: "2025".into(),
        created_by: "cli".into(),
        total_cost: "0.1000".into(),
        has_cost: true,
        total_turns: 2,
        task_ids: vec!["t1".into(), "t2".into()],
        history: vec![HistoryStep {
            from: "open".into(),
            to: "work".into(),
            trigger: "manual".into(),
            task_id: None,
            cost: None,
            turns: Some(2),
            timestamp: "2026".into(),
        }],
    };
    let text = show_instance(&d);
    assert!(text.contains("Error:     oops\nMetadata:  {\"k\":1}\n"));
    assert!(text.contains("Total:     $0.1000 / 2 turns\n"));
    assert!(text.contains("Tasks:     2 (t1, t2)\n"));
    assert!(text.ends_with("2026\n"));
}

// ─── Tasks and the interface ────────────────────────────────────────────────

#[test]
fn queue_filters_are_read() {
    assert_eq!(list_filter(Some("odd"), false).unwrap_err(), "Unknown status: odd");
    assert_eq!(list_filter(Some("odd"), true).unwrap(), Some(TaskStatus::DeadLetter));
    assert_eq!(list_filter(None, false).unwrap(), None);
    assert_eq!(show_queue(&Vec::new()), "No tasks.\n");
    let row = TaskRow {
        task: QueueTask {
            id: "t1".into(),
            description: "d".into(),
            status: TaskStatus::Done,
            assignee: None,
            created_by: "cli".into(),
            created_at: "2026".into(),
            sm_instance_id: None,
        },
        cost: Some("0.1000".into()),
    };
    assert!(show_queue(&vec![row]).contains(&format!(
        "{:<14} {:<10} {:<10} {:<14} {:<14} {}\n",
        "t1", "done", "$0.1000", "-", "-", "d"
    )));
}

#[test]
fn the_interface_is_found() {
    assert_eq!(resolve_socket(Some("/n"), Some("/e"), None, None).unwrap(), "/n");
    assert_eq!(resolve_socket(None, Some("/e"), None, None).unwrap(), "/e");
    let there = probe("/s", true);
    assert_eq!(resolve_socket(None, None, Some(&there), Some("/h")).unwrap(), "/s");
    let gone = probe("/s", false);
    assert_eq!(
        resolve_socket(None, None, Some(&gone), Some("/h")).unwrap(),
        "/h/.deskd/bus.sock"
    );
    assert_eq!(resolve_socket(None, None, None, None).unwrap_err(), "HOME not set");
    assert_eq!(socket_path("/w"), "/w/.deskd/bus.sock");
    assert_eq!(
        find_tui_dir(&vec![probe("/a", false), probe("/b", true)]).unwrap(),
        "/b"
    );
    assert!(find_tui_dir(&Vec::new()).is_err());
    assert_eq!(choose_runner(true, true).unwrap().0, "bun");
    assert_eq!(choose_runner(false, true).unwrap(), ("npx", "tsx"));
    assert!(choose_runner(false, false).is_err());
}
