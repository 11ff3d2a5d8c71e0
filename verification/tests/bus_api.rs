use deskd::agent::AgentState;
use deskd::bus_api::answers::{
    cancelled, handle_agent_detail, handle_agent_list, handle_agent_messages,
    handle_agent_requests, handle_bus_status, handle_context_stats, handle_sm_list,
    handle_sm_models, handle_task_detail, handle_task_list, sent, sm_created, sm_moved,
    task_created, TaskRecord,
};
use deskd::bus_api::calls::{
    compose_message, dispatch, handle_inbox_read, handle_inbox_search, plan_inbox_read,
    plan_schedule_add, read_request, registration, respond, ApiCall,
};
use deskd::bus_api::rooms::{
    handle_agent_config_list, handle_room_children, handle_room_list, Room, ServeState,
    ServedAgent,
};
use deskd::bus_api::schedules::{
    add_schedule, agent_config_path, handle_schedule_list, remove_schedule,
};
use deskd::config::{ModelDef, ScopeType, SubAgentDef, TransitionDef, UserConfig};
use deskd::json::Json;
use deskd::json_text::{read_json, write_json};
use deskd::mcp_service::{InboxMessage, QueueTask, SmInstance, TaskStatus};
use deskd::message::{BusMessage, BusMetadata};

fn json(text: &str) -> Json {
    read_json(text).unwrap()
}

fn value(v: &Json) -> serde_json::Value {
    serde_json::from_str(&write_json(v)).unwrap()
}

fn state(name: &str, status: &str) -> AgentState {
    AgentState {
        name: name.into(),
        model: "haiku".into(),
        system_prompt: "be kind".into(),
        work_dir: "/home/x".into(),
        max_turns: 10,
        unix_user: None,
        config_path: None,
        status: status.into(),
        current_task: "".into(),
        session_id: "s".into(),
        created_at: "2026".into(),
        pid: 7,
        total_turns: 3,
        total_cost: "0.5".into(),
        budget_usd: "5.0".into(),
        parent: None,
        scope: None,
        can_message: None,
        env_keys: None,
    }
}

fn sub_agent(name: &str) -> SubAgentDef {
    SubAgentDef {
        name: name.into(),
        model: "opus".into(),
        system_prompt: "sub".into(),
        subscribe: vec![],
        publish: None,
        inbox_read: None,
        scope: ScopeType::Inherit,
        can_message: None,
        work_dir: None,
        env: None,
        state_file: None,
        options: None,
    }
}

// ─── Requests ───────────────────────────────────────────────────────────────

#[test]
fn test_dispatch_unknown_method() {
    let result = dispatch("nonexistent_method", &json("{}"), false);
    assert!(result.is_err());
    assert!(result.unwrap_err().contains("unknown method"));
}

#[test]
fn test_task_list_empty() {
    assert!(matches!(dispatch("task_list", &json("{}"), false), Ok(ApiCall::TaskList(None))));
    assert_eq!(handle_task_list(None, &Vec::new()), json("[]"));
}

#[test]
fn test_task_detail_missing_id() {
    let result = dispatch("task_detail", &json("{}"), false);
    assert!(result.is_err());
    assert!(result.unwrap_err().contains("missing 'id'"));
}

#[test]
fn test_sm_models_no_config() {
    let result = handle_sm_models(None);
    assert!(result.is_err());
    assert!(result.unwrap_err().contains("no user config"));
}

#[test]
fn test_schedule_list_no_config() {
    assert!(handle_schedule_list(None).is_err());
}

#[test]
fn test_inbox_read_missing_inbox() {
    let result = handle_inbox_read(&json("{}"));
    assert!(result.is_err());
    assert!(result.unwrap_err().contains("missing 'inbox'"));
}

#[test]
fn test_inbox_search_missing_query() {
    let result = handle_inbox_search(&json("{}"));
    assert!(result.is_err());
    assert!(result.unwrap_err().contains("missing 'query'"));
}

#[test]
fn test_agent_messages_missing_agent() {
    let result = dispatch("agent_messages", &json("{}"), false);
    assert!(result.is_err());
    assert!(result.unwrap_err().contains("missing 'agent'"));
}

#[test]
fn test_agent_messages_returns_array() {
    let call = dispatch("agent_messages", &json(r#"{"agent": "nonexistent-agent-xyz"}"#), false);
    assert_eq!(call, Ok(ApiCall::AgentMessages("nonexistent-agent-xyz".into(), 50)));
    let val = value(&handle_agent_messages(&Vec::new()));
    assert!(val.is_array());
    assert_eq!(val.as_array().unwrap().len(), 0);
}

#[test]
fn answers_go_back_to_the_sender() {
    let msg = BusMessage {
        id: "m".into(),
        source: "tui".into(),
        target: "deskd:query".into(),
        payload: json(r#"{"method":"agent_list","params":{"a":1},"request_id":"req-1"}"#),
        reply_to: None,
        metadata: BusMetadata { priority: 5, fresh: false },
    };
    let req = read_request(&msg);
    assert_eq!(req.method, "agent_list");
    assert_eq!(value(&req.params)["a"], 1);
    let ok = respond(&req, Ok(json("[]")));
    assert_eq!(ok.target, "tui");
    assert_eq!(ok.source, "deskd:api");
    assert_eq!(value(&ok.payload)["request_id"], "req-1");
    assert!(value(&ok.payload)["result"].is_array());
    let bad = respond(&req, Err("broken".into()));
    assert_eq!(value(&bad.payload)["error"], "broken");
    assert!(value(&bad.payload).get("result").is_none());
    assert_eq!(value(&registration())["subscriptions"][1], "deskd:command");
}

#[test]
fn every_method_is_known() {
    let params = json(
        r#"{"name":"a","id":"a","room":"a","agent":"a","inbox":"a","query":"a","target":"a",
            "text":"a","description":"a","model":"a","title":"a","instance_id":"a",
            "to_state":"a","cron":"0 0 9 * * *","action":"raw","index":0}"#,
    );
    for method in [
        "agent_list", "agent_detail", "task_list", "task_detail", "sm_list", "sm_detail",
        "sm_models", "usage_stats", "schedule_list", "inbox_list", "inbox_read", "inbox_search",
        "bus_status", "room_list", "room_children", "context_stats", "agent_requests",
        "agent_messages", "agent_config_list", "send_message", "task_create", "task_cancel",
        "sm_create", "sm_move", "sm_cancel", "schedule_add", "schedule_remove",
    ] {
        assert!(dispatch(method, &params, true).is_ok(), "{method}");
    }
    for method in ["sm_create", "sm_move", "schedule_add", "schedule_remove"] {
        assert_eq!(dispatch(method, &params, false), Err("no user config loaded".into()));
    }
}

#[test]
fn inbox_reads_take_a_time() {
    let q = handle_inbox_read(&json(r#"{"inbox":"a","since":"1970-01-01T00:00:05Z"}"#)).unwrap();
    assert_eq!(q.since, Some((5, 0)));
    assert_eq!(q.limit, 50);
    let q = handle_inbox_read(&json(r#"{"inbox":"a","since":"soon"}"#)).unwrap();
    assert_eq!(q.since, None);
    assert_eq!(plan_inbox_read(&json(r#"{"inbox":"a"}"#), Some((9, 1))).unwrap().since, Some((9, 1)));
    let q = handle_inbox_search(&json(r#"{"query":"x","limit":3}"#)).unwrap();
    assert_eq!((q.inbox, q.limit), (None, 3));
}

#[test]
fn messages_carry_a_text_or_a_payload() {
    let q = match dispatch("send_message", &json(r#"{"target":"t","text":"hi"}"#), false) {
        Ok(ApiCall::SendMessage(q)) => q,
        other => panic!("expected a message, got {:?}", other),
    };
    assert_eq!(value(&q.payload)["task"], "hi");
    let (reg, msg) = compose_message("kira", q);
    assert_eq!(value(&reg)["name"], "kira-api-send");
    assert_eq!(msg.target, "t");
    assert_eq!(msg.metadata.priority, 5);
    assert_eq!(
        dispatch("send_message", &json(r#"{"target":"t"}"#), false),
        Err("missing 'text' or 'payload' parameter".into())
    );
    let q = dispatch("send_message", &json(r#"{"target":"t","payload":[1],"fresh":true}"#), false);
    assert!(matches!(q, Ok(ApiCall::SendMessage(q)) if q.fresh));
}

// ─── Schedules ──────────────────────────────────────────────────────────────

#[test]
fn schedules_are_added_and_removed() {
    let params = json(r#"{"cron":"0 0 9 * * *","action":"shell","target":"agent:dev"}"#);
    let q = match dispatch("schedule_add", &params, true) {
        Ok(ApiCall::ScheduleAdd(q)) => q,
        other => panic!("expected a schedule, got {:?}", other),
    };
    let mut cfg = UserConfig::default();
    let added = value(&add_schedule(&mut cfg.schedules, q));
    assert_eq!(added["index"], 0);
    assert_eq!(added["action"], "shell");
    let list = value(&handle_schedule_list(Some(&cfg)).unwrap());
    assert_eq!(list[0]["action"], "Shell");
    assert_eq!(list[0]["cron"], "0 0 9 * * *");
    assert_eq!(
        remove_schedule(&mut cfg.schedules, 3).unwrap_err(),
        "schedule index 3 out of range (have 1 schedules)"
    );
    let removed = value(&remove_schedule(&mut cfg.schedules, 0).unwrap());
    assert_eq!(removed["cron"], "0 0 9 * * *");
    assert!(cfg.schedules.is_empty());
    assert_eq!(agent_config_path(None, "dev"), "/home/dev/deskd.yaml");
    assert_eq!(agent_config_path(Some("/x"), "dev"), "/x");
}

#[test]
fn bad_schedules_are_refused() {
    let bad = json(r#"{"cron":"every day","action":"raw","target":"t"}"#);
    let e = dispatch("schedule_add", &bad, true).unwrap_err();
    assert!(e.starts_with("invalid cron expression: "), "{e}");
    let odd = json(r#"{"cron":"0 0 9 * * *","action":"odd","target":"t"}"#);
    assert_eq!(
        dispatch("schedule_add", &odd, true).unwrap_err(),
        "unknown schedule action: odd"
    );
    assert_eq!(
        plan_schedule_add(&odd, true, Some("why".into())).unwrap_err(),
        "invalid cron expression: why"
    );
    assert_eq!(
        dispatch("schedule_remove", &json("{}"), true).unwrap_err(),
        "missing 'index' parameter"
    );
}

// ─── Answers ────────────────────────────────────────────────────────────────

#[test]
fn agents_are_described() {
    let agents = vec![state("a", "idle"), state("b", "busy")];
    let live = vec!["a".to_string()];
    let list = value(&handle_agent_list(&agents, &live));
    assert_eq!(list[0]["status"], "running");
    assert_eq!(list[1]["status"], "finished");
    let d = value(&handle_agent_detail(&agents[0]));
    assert_eq!(d["system_prompt"], "be kind");
    assert_eq!(d["total_cost"], 0.5);
    assert!(d["parent"].is_null());
    let all = value(&handle_context_stats(None, &agents, &live).unwrap());
    assert_eq!(all.as_array().unwrap().len(), 2);
    assert_eq!(all[1]["status"], "stopped");
    let one = value(&handle_context_stats(Some("a"), &agents, &live).unwrap());
    assert_eq!(one["status"], "idle");
    assert_eq!(
        handle_context_stats(Some("z"), &agents, &live).unwrap_err(),
        "agent 'z' not found"
    );
    let bus = value(&handle_bus_status("/tmp/s", &live));
    assert_eq!(bus["clients"][0], "a");
    let twice = vec!["b".to_string(), "a".to_string(), "b".to_string()];
    let bus = value(&handle_bus_status("/tmp/s", &twice));
    assert_eq!(bus["clients"].as_array().unwrap().len(), 2);
}

fn record(id: &str, assignee: Option<&str>, created_by: &str) -> TaskRecord {
    TaskRecord {
        task: QueueTask {
            id: id.into(),
            description: "d".into(),
            status: TaskStatus::Active,
            assignee: assignee.map(|a| a.to_string()),
            created_by: created_by.into(),
            created_at: "2026".into(),
            sm_instance_id: None,
        },
        updated_at: "2027".into(),
        result: None,
        error: None,
        cost_usd: Some("0.25".into()),
        turns: Some(4),
        metadata: json("{\"k\":1}"),
    }
}

#[test]
fn tasks_are_described() {
    let d = value(&handle_task_detail(&record("t1", None, "kira")));
    assert_eq!(d["status"], "active");
    assert_eq!(d["cost_usd"], 0.25);
    assert_eq!(d["turns"], 4);
    assert_eq!(d["metadata"]["k"], 1);
    let tasks = vec![
        record("t1", None, "kira"),
        record("t2", Some("kira"), "bob"),
        record("t3", Some("bob"), "bob"),
    ];
    let mine = value(&handle_agent_requests("kira", &tasks));
    assert_eq!(mine.as_array().unwrap().len(), 2);
    assert_eq!(mine[1]["id"], "t2");
    assert_eq!(value(&task_created("t", "d"))["id"], "t");
    assert_eq!(value(&cancelled("t"))["cancelled"], true);
    assert_eq!(value(&sent("m"))["sent"], true);
}

#[test]
fn state_machines_are_described() {
    let i = SmInstance {
        id: "i".into(),
        model: "ticket".into(),
        title: "t".into(),
        body: "b".into(),
        state: "open".into(),
        assignee: "agent:dev".into(),
        updated_at: "2026".into(),
    };
    assert_eq!(value(&sm_created(&i))["assignee"], "agent:dev");
    assert_eq!(value(&sm_moved(&i))["state"], "open");
    let list = value(&handle_sm_list(None, Some("open"), &vec![i]));
    assert_eq!(list[0]["title"], "t");
    let mut cfg = UserConfig::default();
    cfg.models.push(ModelDef {
        name: "ticket".into(),
        description: "".into(),
        states: vec!["open".into()],
        initial: "open".into(),
        terminal: vec![],
        transitions: vec![TransitionDef {
            from: "open".into(),
            to: "done".into(),
            trigger: None,
            on: None,
            assignee: None,
            timeout: None,
            timeout_goto: None,
        }],
    });
    let models = value(&handle_sm_models(Some(&cfg)).unwrap());
    assert_eq!(models[0]["transitions"][0]["to"], "done");
    assert!(models[0]["transitions"][0]["trigger"].is_null());
}

#[test]
fn messages_are_listed() {
    let m = InboxMessage {
        ts: "2026".into(),
        source: "s".into(),
        from: Some("user".into()),
        text: "hello".into(),
        metadata: Json::Null,
    };
    let list = value(&handle_agent_messages(&vec![m]));
    assert_eq!(list[0]["role"], "user");
    assert_eq!(list[0]["timestamp"], "2026");
}

// ─── Rooms ──────────────────────────────────────────────────────────────────

fn serve_state(rooms: Vec<Room>) -> ServeState {
    let mut cfg = UserConfig::default();
    cfg.model = "sonnet".into();
    cfg.agents.push(sub_agent("helper"));
    ServeState {
        rooms,
        agents: vec![
            ServedAgent {
                name: "a".into(),
                work_dir: "/w".into(),
                bus_socket: "/w/s".into(),
                config: Ok(cfg),
            },
            ServedAgent {
                name: "broken".into(),
                work_dir: "/w".into(),
                bus_socket: "/w/s".into(),
                config: Err("no file".into()),
            },
        ],
    }
}

fn room() -> Room {
    Room {
        name: "lab".into(),
        work_dir: "/lab".into(),
        context: None,
        agents: vec!["a".into(), "ghost".into()],
        cost: "0.5".into(),
    }
}

#[test]
fn rooms_are_listed() {
    let states = vec![state("a", "active")];
    let v = value(&handle_room_list(Some(&serve_state(vec![room()])), &states).unwrap());
    assert_eq!(v[0]["name"], "lab");
    assert_eq!(v[0]["agent_count"], 2);
    assert_eq!(v[0]["active_agents"], 1);
    let v = value(&handle_room_list(Some(&serve_state(vec![])), &states).unwrap());
    assert_eq!(v[0]["status"], "active");
    assert_eq!(v[0]["agent_count"], 1);
    assert_eq!(v[1]["status"], "unknown");
    assert!(handle_room_list(None, &states).is_err());
}

#[test]
fn rooms_have_children() {
    let states = vec![state("a", "active")];
    let s = serve_state(vec![room()]);
    let v = value(&handle_room_children("lab", Some(&s), &states).unwrap());
    assert_eq!(v[0]["status"], "active");
    assert_eq!(v[1]["status"], "configured");
    let v = value(&handle_room_children("a", Some(&s), &states).unwrap());
    assert_eq!(v[0]["name"], "helper");
    assert_eq!(v[0]["model"], "opus");
    assert_eq!(handle_room_children("broken", Some(&s), &states).unwrap_err(), "no file");
    assert_eq!(
        handle_room_children("x", Some(&s), &states).unwrap_err(),
        "room 'x' not found in serve state"
    );
    let configs = value(&handle_agent_config_list(Some(&s)).unwrap());
    assert_eq!(configs.as_array().unwrap().len(), 2);
    assert_eq!(configs[0]["model"], "sonnet");
    assert!(configs[1]["max_turns"].is_null());
}
