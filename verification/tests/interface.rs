use deskd::adapters::discord::{
    accepts, bus_line, inbound_message, outbound, publish_to_bus, registration, Outbound,
};
use deskd::adapters::plan::{build_adapters, AdapterSpec};
use deskd::config::{
    AgentDef, BotConfig, DiscordRoute, DiscordRoutesConfig, ModelDef, ScopeType, SubAgentDef,
    UserConfig,
};
use deskd::json::Json;
use deskd::json_text::{read_json, write_json};
use deskd::mcp_service::{QueueTask, SmInstance, TaskStatus};
use deskd::message::BusMessage;
use deskd::serve::{list_requests, mcp_config, query_live_agents, serve};
use deskd::tui::{
    agent_item, counted_statuses, counted_title, payload_preview, read_line, refresh_agents,
    refresh_due, refresh_tasks, refresh_workflows, stream_title, stream_window, tail_window, truncate,
    workflow_item, AgentInfo, App, BusEvent, Key, Screen, Tone, MAX_BUS_MESSAGES,
};

fn json(text: &str) -> Json {
    read_json(text).unwrap()
}

fn value(v: &Json) -> serde_json::Value {
    serde_json::from_str(&write_json(v)).unwrap()
}

// ─── The terminal interface ─────────────────────────────────────────────────

fn event(n: usize) -> BusEvent {
    BusEvent {
        timestamp: "12:00:00".into(),
        source: format!("s{n}"),
        target: "t".into(),
        payload_preview: "p".into(),
    }
}

#[test]
fn only_the_last_messages_are_kept() {
    let mut app = App::new();
    for n in 0..(MAX_BUS_MESSAGES + 5) {
        app.push_bus_event(event(n));
    }
    assert_eq!(app.bus_messages.len(), MAX_BUS_MESSAGES);
    assert_eq!(app.bus_messages[0].source, "s5");
    assert_eq!(app.bus_scroll, MAX_BUS_MESSAGES - 1);
}

#[test]
fn keys_move_and_quit() {
    let mut app = App::default();
    for n in 0..3 {
        app.push_bus_event(event(n));
    }
    app.handle_key(Key::Char('2', false));
    assert_eq!(app.view, Screen::BusStream);
    app.handle_key(Key::Up);
    assert_eq!(app.bus_scroll, 1);
    assert!(!app.follow_mode);
    app.handle_key(Key::Char('j', false));
    app.handle_key(Key::Down);
    assert_eq!(app.bus_scroll, 2);
    app.handle_key(Key::Char('g', false));
    assert_eq!(app.bus_scroll, 0);
    assert_eq!(stream_window(&app, 10), (0, 1));
    assert_eq!(stream_title(&app), " Bus Stream (1/3) ");
    app.handle_key(Key::Char('f', false));
    assert_eq!(app.bus_scroll, 2);
    assert_eq!(stream_title(&app), " Bus Stream (3/3)  [FOLLOW] ");
    app.handle_key(Key::Char('G', true));
    assert_eq!(stream_window(&app, 4), (1, 3));
    app.handle_key(Key::Char('q', true));
    assert!(app.should_quit_all && !app.should_quit);
    app.handle_key(Key::Char('q', false));
    app.handle_key(Key::Other);
    assert!(app.should_quit && app.is_over());
    assert_eq!(tail_window(10, 5), (7, 10));
}

#[test]
fn previews_are_short_and_printable() {
    assert_eq!(truncate("a\nb\tc", 80), "abc");
    assert_eq!(truncate("abcdef", 3), "abc…");
    assert_eq!(payload_preview(&json(r#"{"task":"do"}"#)), "do");
    assert_eq!(payload_preview(&json(r#"{"text":"say"}"#)), "say");
    assert_eq!(payload_preview(&json(r#"{"x":1}"#)), "{\"x\":1}");
    let line = r#"{"type":"message","source":"a","target":"b","payload":{"task":"do"}}"#;
    let e = read_line(line, "12:00:00").unwrap();
    assert_eq!((e.source.as_str(), e.payload_preview.as_str()), ("a", "do"));
    assert!(read_line(r#"{"type":"list_response"}"#, "t").is_none());
    assert!(read_line("", "t").is_none());
}

fn info(name: &str, status: &str, task: &str) -> AgentInfo {
    AgentInfo {
        name: name.into(),
        status: status.into(),
        current_task: task.into(),
        cost_usd: "0.5".into(),
        turns: 1,
    }
}

#[test]
fn summaries_are_refreshed() {
    let sorted = refresh_agents(vec![info("b", "idle", ""), info("a", "working", "x")]);
    assert_eq!(sorted[0].name, "a");
    let (tone, status, name) = agent_item(&sorted[0]);
    assert_eq!(tone, Tone::Green);
    assert_eq!(status, "  working ");
    assert_eq!(name, "a — x");
    assert_eq!(agent_item(&sorted[1]).2, "b");
    let task = |status| QueueTask {
        id: "t".into(),
        description: "".into(),
        status,
        assignee: None,
        created_by: "".into(),
        created_at: "".into(),
        sm_instance_id: None,
    };
    let pending = vec![task(TaskStatus::Pending), task(TaskStatus::Pending)];
    let done = vec![task(TaskStatus::Done)];
    assert_eq!(refresh_tasks(Some(&pending), Some(&vec![]), Some(&done)), (2, 0, 1));
    assert_eq!(refresh_tasks(Some(&pending), None, Some(&done)), (2, 0, 1));
    assert_eq!(refresh_tasks(None, None, Some(&done)), (0, 0, 1));
    assert_eq!(
        counted_statuses(),
        (TaskStatus::Pending, TaskStatus::Active, TaskStatus::Done)
    );
    let flow = |id: &str, state: &str| SmInstance {
        id: id.into(),
        model: "m".into(),
        title: "".into(),
        body: "".into(),
        state: state.into(),
        assignee: "".into(),
        updated_at: "".into(),
    };
    let flows = refresh_workflows(&vec![flow("0123456789abcdef", "open"), flow("x", "merged")]);
    assert_eq!(flows.len(), 1);
    assert_eq!(flows[0].0, "0123456789ab…");
    assert_eq!(workflow_item("i", "m", "open"), (" open          ".into(), "i (m)".into()));
    assert_eq!(counted_title("Agents", 2), " Agents (2) ");
    assert!(refresh_due(2_000) && !refresh_due(1_999));
}

// ─── Discord ────────────────────────────────────────────────────────────────

fn route(channel_id: u64, name: Option<&str>) -> DiscordRoute {
    DiscordRoute { channel_id, name: name.map(|n| n.to_string()) }
}

#[test]
fn messages_of_people_are_accepted() {
    let routes = vec![route(5, None)];
    assert!(accepts(false, 5, "hi", &routes));
    assert!(!accepts(true, 5, "hi", &routes));
    assert!(!accepts(false, 6, "hi", &routes));
    assert!(accepts(false, 6, "hi", &Vec::new()));
    assert!(!accepts(false, 5, "", &routes));
}

#[test]
fn messages_reach_their_channel() {
    let line = r#"{"target":"discord.out:7","payload":{"task":"t","result":"r"}}"#;
    assert_eq!(bus_line(line), Outbound::Say(7, "r".into()));
    assert_eq!(bus_line(""), Outbound::Ignore);
    assert_eq!(bus_line("nope"), Outbound::Malformed);
    assert_eq!(outbound(&json(r#"{"target":"discord.out:x"}"#)), Outbound::BadTarget);
    assert_eq!(outbound(&json(r#"{"target":"agent:dev"}"#)), Outbound::Ignore);
    assert_eq!(
        outbound(&json(r#"{"target":"discord.out:1","payload":{"result":5,"task":"t"}}"#)),
        Outbound::Say(1, "(no content)".into())
    );
    assert_eq!(value(&registration("dev"))["subscriptions"][0], "discord.out:*");
}

#[test]
fn texts_of_channels_reach_the_bus() {
    let routes = vec![route(5, Some("old")), route(5, Some("new")), route(5, None)];
    let m = value(&inbound_message("id", "dev", 5, "hi", &routes));
    assert_eq!(m["target"], "discord.in:5");
    assert_eq!(m["reply_to"], "discord.out:5");
    assert_eq!(m["payload"]["discord_channel_name"], "new");
    assert_eq!(m["metadata"]["priority"], 5);
    let (reg, msg) = publish_to_bus("dev", 6, "hi", &routes);
    assert!(value(&reg)["name"].as_str().unwrap().starts_with("discord-in-"));
    assert!(value(&msg)["payload"]["discord_channel_name"].is_null());
}

// ─── Serving ────────────────────────────────────────────────────────────────

fn agent_def() -> AgentDef {
    AgentDef {
        name: "kira".into(),
        work_dir: "/home/kira".into(),
        unix_user: Some("kira".into()),
        budget_usd: "5.0".into(),
        container: None,
        telegram: Some(BotConfig { token: "t".into() }),
        discord: Some(BotConfig { token: "d".into() }),
    }
}

fn user_config() -> UserConfig {
    let mut cfg = UserConfig::default();
    cfg.max_turns = 9;
    cfg.discord = Some(DiscordRoutesConfig { routes: vec![route(5, None)] });
    cfg.agents.push(SubAgentDef {
        name: "helper".into(),
        model: "haiku".into(),
        system_prompt: "p".into(),
        subscribe: vec!["agent:helper".into()],
        publish: None,
        inbox_read: None,
        scope: ScopeType::Inherit,
        can_message: None,
        work_dir: None,
        env: None,
        state_file: None,
        options: None,
    });
    cfg.models.push(ModelDef {
        name: "m".into(),
        description: "".into(),
        states: vec![],
        initial: "".into(),
        terminal: vec![],
        transitions: vec![],
    });
    cfg
}

#[test]
fn adapters_follow_the_configuration() {
    let cfg = user_config();
    let adapters = build_adapters(&agent_def(), Some(&cfg), &vec![7]);
    assert_eq!(adapters.len(), 2);
    assert_eq!(adapters[0].name(), "telegram");
    match &adapters[1] {
        AdapterSpec::Discord { token, routes } => {
            assert_eq!(token, "d");
            assert_eq!(routes.len(), 1);
        }
        _ => panic!("expected Discord"),
    }
    let mut plain = agent_def();
    plain.telegram = None;
    plain.discord = None;
    assert!(build_adapters(&plain, None, &vec![]).is_empty());
}

#[test]
fn agents_are_served() {
    let cfg = user_config();
    let plan = serve("runner", &agent_def(), Some(&cfg), "/c.yaml", &vec![]);
    assert_eq!(plan.bus_socket, "/home/kira/.deskd/bus.sock");
    assert!(plan.workflows);
    let sub = &plan.sub_agents[0];
    assert_eq!(sub.subscribe, vec!["agent:helper"]);
    assert_eq!(sub.config.work_dir, "/home/kira");
    assert_eq!(sub.config.command[8], "9");
    let mcp: serde_json::Value = serde_json::from_str(&sub.config.command[10]).unwrap();
    assert_eq!(mcp["mcpServers"]["deskd"]["args"][2], "helper");
    assert_eq!(value(&mcp_config("helper")), mcp);
    let bare = serve("runner", &agent_def(), None, "/c.yaml", &vec![]);
    assert!(bare.sub_agents.is_empty() && !bare.workflows);
}

#[test]
fn buses_list_their_clients() {
    let (reg, list) = list_requests();
    assert_eq!(value(&reg)["name"], "deskd-cli-list");
    assert_eq!(value(&list)["type"], "list");
    let line = r#"{"type":"list_response","clients":["a",1,"b"]}"#;
    assert_eq!(query_live_agents(line), Ok(Some(vec!["a".into(), "b".into()])));
    assert_eq!(query_live_agents(r#"{"type":"message"}"#), Ok(None));
    let twice = r#"{"type":"list_response","clients":["b","a","b","a"]}"#;
    assert_eq!(query_live_agents(twice), Ok(Some(vec!["b".into(), "a".into()])));
    let reason = serde_json::from_str::<serde_json::Value>("nope").unwrap_err().to_string();
    assert_eq!(query_live_agents("nope"), Err(reason));
}

// ─── Messages and JSON text ─────────────────────────────────────────────────

#[test]
fn messages_are_read_with_defaults() {
    let m = BusMessage::parse(r#"{"id":"1","source":"a","target":"b","payload":{}}"#).unwrap();
    assert_eq!(m.metadata.priority, 5);
    assert!(m.reply_to.is_none());
    assert!(BusMessage::parse(r#"{"id":"1"}"#).is_none());
    assert!(BusMessage::parse("nope").is_none());
    assert_eq!(BusMessage::from_json(&m.to_json()), Some(m));
}

#[test]
fn values_come_back_out_of_their_text() {
    let text = r#"{"b":[1,-2,18446744073709551615,true,null],"a":"q\"\n☃","n":{"z":{},"y":[]}}"#;
    let v = json(text);
    assert_eq!(write_json(&v), text);
    assert_eq!(read_json(&write_json(&v)), Some(v));
    assert_eq!(json("1.5"), Json::Float("1.5".into()));
    assert!(read_json("{").is_none());
}
