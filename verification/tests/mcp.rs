use deskd::agent::AgentState;
use deskd::config::{EnvVar, ModelDef, ScopeType, SubAgentDef, UserConfig};
use deskd::json::Json;
use deskd::json_text::{read_json, write_json};
use deskd::jsonrpc::{
    classify_message, is_notification, parse_response, JsonRpcError, JsonRpcRequest,
    JsonRpcResponse, MessageKind,
};
use deskd::mcp::server::{
    classify_input, handle_request, handle_tools_call, read_input, tool_named, tool_response,
    Handling, Input, InputLine, Tool,
};
use deskd::mcp_protocol::{
    build_channel_notification, connect_bus_listener, emit_channel_notification,
    handle_initialize, handle_write_err, is_valid_meta_key, sanitize_meta, write_response,
    Response, ServerMode,
};
use deskd::mcp_service::{
    build_agent_summary, create_reminder, dispatch_sm_task, finish_sm_create, finish_sm_move,
    given_metadata, graph_inputs, list_inboxes, next_stop_step, parse_task_status, read_inbox,
    run_graph, search_inbox, sm_create, sm_move, sm_query, stop_agent_process, task_list,
    validate_remove_agent, GraphRun, InboxMessage, QueueTask, SmInstance, StepResult, StopStep,
    TaskStatus, ToolResult,
};
use deskd::mcp_tools::access::{
    call_list_inboxes, call_read_inbox, call_search_inbox, check_target, glob_match,
    inbox_access_allowed, inbox_denial, matches_any,
};
use deskd::mcp_tools::queue::{
    call_run_graph, call_sm_create, call_sm_move, call_sm_query, call_task_cancel,
    call_task_create, call_task_list, call_telegram_history, call_usage_stats, history_reply,
    sm_list_reply, task_cancelled, SmQuery,
};
use deskd::mcp_tools::reminder::{
    call_create_reminder, choose_time, parse_at_time, parse_at_time_from, reminder_created,
    ReminderTime, TimeReadings,
};
use deskd::mcp_tools::remote::{
    call_a2a_discover, call_a2a_send, call_browse_needs, call_propose_for_need,
    call_publish_need, finish_a2a_send, finish_proposal, need_published, Need, RemoteAuth,
    RemoteReply,
};
use deskd::mcp_tools::send::{
    agent_connected, build_send_message_description, call_query_agent, call_send_message,
    finish_query, finish_send, Answer, InternalBus, ListReply, QueryOutcome,
};
use deskd::mcp_tools::subagents::{
    adopt, call_add_persistent_agent, call_agent_logs, call_get_scope, call_list_agents,
    call_remove_agent, check_log_access, check_scope, create_args, finish_add_agent,
    finish_remove_agent, is_within, poll_registration, read_log_request, run_args, ListedAgent,
    PollStep, ScopeFacts,
};
use deskd::message::{BusMessage, BusMetadata};
use deskd::needs::{add_need, publish_need_text};
use deskd::yaml::Yaml;

fn json(text: &str) -> Json {
    read_json(text).unwrap()
}

fn value(v: &Json) -> serde_json::Value {
    serde_json::from_str(&write_json(v)).unwrap()
}

fn reply_text(v: &Json) -> String {
    value(v)["content"][0]["text"].as_str().unwrap().to_string()
}

// ─── JSON-RPC ───────────────────────────────────────────────────────────────

#[test]
fn test_jsonrpc_request_serialization() {
    let req = JsonRpcRequest::new(1, "initialize", Some(json(r#"{"key": "val"}"#)));
    let line = req.to_line();
    let parsed: serde_json::Value = serde_json::from_str(line.trim()).unwrap();
    assert_eq!(parsed["jsonrpc"], "2.0");
    assert_eq!(parsed["id"], 1);
    assert_eq!(parsed["method"], "initialize");
    assert_eq!(parsed["params"]["key"], "val");
    assert!(line.ends_with('\n'));
}

#[test]
fn test_jsonrpc_request_no_params() {
    let req = JsonRpcRequest::new(42, "test/method", None);
    let line = req.to_line();
    let parsed: serde_json::Value = serde_json::from_str(line.trim()).unwrap();
    assert_eq!(parsed["id"], 42);
    assert_eq!(parsed["method"], "test/method");
    assert!(parsed.get("params").is_none());
}

#[test]
fn test_parse_response_success() {
    let json = r#"{"jsonrpc":"2.0","id":1,"result":{"sessionId":"abc-123"}}"#;
    let resp = parse_response(json).unwrap();
    assert_eq!(resp.id, Some(1));
    assert!(resp.error.is_none());
    assert!(resp.result.is_some());
    assert!(resp.method.is_none());
}

#[test]
fn test_parse_response_error() {
    let json = r#"{"jsonrpc":"2.0","id":2,"error":{"code":-32600,"message":"Invalid request"}}"#;
    let resp = parse_response(json).unwrap();
    assert_eq!(resp.id, Some(2));
    assert!(resp.error.is_some());
    let err = resp.error.unwrap();
    assert_eq!(err.code, -32600);
    assert_eq!(err.message, "Invalid request");
}

#[test]
fn test_parse_notification() {
    let json = r#"{"jsonrpc":"2.0","method":"session/update","params":{"status":"working","messages":[]}}"#;
    let resp = parse_response(json).unwrap();
    assert!(is_notification(&resp));
    assert_eq!(resp.method.as_deref(), Some("session/update"));
    assert!(resp.id.is_none());
}

fn server_message(id: Option<u64>, method: Option<&str>, result: Option<Json>) -> JsonRpcResponse {
    JsonRpcResponse {
        jsonrpc: "2.0".to_string(),
        id,
        result,
        error: None,
        method: method.map(|m| m.to_string()),
        params: None,
    }
}

#[test]
fn test_is_notification() {
    assert!(is_notification(&server_message(None, Some("session/update"), None)));
    assert!(!is_notification(&server_message(Some(1), None, Some(json("{}")))));
}

#[test]
fn test_classify_message_server_request() {
    let server_req = server_message(Some(42), Some("session/request_permission"), None);
    assert_eq!(classify_message(&server_req), MessageKind::ServerRequest);
}

#[test]
fn test_classify_message_notification() {
    let notification = server_message(None, Some("session/update"), None);
    assert_eq!(classify_message(&notification), MessageKind::Notification);
}

#[test]
fn test_classify_message_response() {
    let response = server_message(Some(1), None, Some(json("{}")));
    assert_eq!(classify_message(&response), MessageKind::Response);
}

#[test]
fn test_jsonrpc_error_display() {
    let err = JsonRpcError { code: -32600, message: "Invalid request".to_string(), data: None };
    assert_eq!(err.text(), "JSON-RPC error -32600: Invalid request");
}

#[test]
fn malformed_responses_are_refused() {
    assert_eq!(parse_response("nope").unwrap_err(), "failed to parse JSON-RPC response");
    assert!(parse_response(r#"{"jsonrpc":"2.0","id":"x"}"#).is_err());
    assert!(parse_response(r#"["2.0",1,true,null,null]"#).is_err());
}

#[test]
fn a_list_stands_for_a_response() {
    let r = parse_response(r#"["2.0",1,null,[-3,"no",null],"m",[2]]"#).unwrap();
    assert_eq!((r.id, r.method.as_deref()), (Some(1), Some("m")));
    assert_eq!(r.error.unwrap().text(), "JSON-RPC error -3: no");
    assert!(r.result.is_none());
    assert_eq!(r.params, Some(json("[2]")));
}

// ─── Protocol ───────────────────────────────────────────────────────────────

fn bus_msg(payload: &str) -> BusMessage {
    BusMessage {
        id: "msg-1".to_string(),
        source: "telegram-dev".to_string(),
        target: "telegram.in:12345".to_string(),
        payload: json(payload),
        reply_to: Some("telegram.out:12345".to_string()),
        metadata: BusMetadata { priority: 5, fresh: false },
    }
}

#[test]
fn test_response_ok() {
    let resp = Response::ok(Some(json("1")), json(r#"{"status": "ok"}"#));
    assert_eq!(value(&resp.to_json())["jsonrpc"], "2.0");
    assert_eq!(resp.id, Some(json("1")));
    assert!(resp.result.is_some());
    assert!(resp.error.is_none());
    let result = value(&resp.result.unwrap());
    assert_eq!(result["status"], "ok");
}

#[test]
fn test_response_err() {
    let resp = Response::err(Some(json("42")), -32601, "Method not found");
    assert_eq!(value(&resp.error.unwrap())["code"], -32601);
}

#[test]
fn test_handle_initialize_plain_mode() {
    let resp = handle_initialize(Some(json("1")), ServerMode::Plain, "0.1.0", "runner");
    let result = value(&resp.result.unwrap());
    assert_eq!(result["protocolVersion"], "2024-11-05");
    assert_eq!(result["serverInfo"]["name"], "deskd");
    assert_eq!(result["serverInfo"]["version"], "0.1.0");
    assert!(result["capabilities"]["experimental"].is_null());
    assert!(result.get("instructions").is_none());
}

#[test]
fn test_handle_initialize_channel_mode() {
    let resp = handle_initialize(Some(json("1")), ServerMode::Channel, "0.1.0", "runner");
    let result = value(&resp.result.unwrap());
    assert_eq!(result["serverInfo"]["name"], "deskd-telegram");
    assert!(result["capabilities"]["experimental"]["runner/channel"].is_object());
    assert!(result["capabilities"]["tools"].is_object());
    let instr = result["instructions"].as_str().unwrap();
    assert!(instr.contains("<channel"));
    assert!(instr.contains("deskd-telegram"));
    assert!(instr.contains("reply"));
    assert!(instr.contains("chat_id"));
}

#[test]
fn test_is_valid_meta_key() {
    assert!(is_valid_meta_key("chat_id"));
    assert!(is_valid_meta_key("user_id"));
    assert!(is_valid_meta_key("Source42"));
    assert!(is_valid_meta_key("_under"));
    assert!(!is_valid_meta_key(""));
    assert!(!is_valid_meta_key("chat-id"));
    assert!(!is_valid_meta_key("user.id"));
    assert!(!is_valid_meta_key("a b"));
    assert!(!is_valid_meta_key("emoji🙂"));
}

fn find<'a>(out: &'a [(String, Json)], key: &str) -> Option<&'a Json> {
    out.iter().find(|(k, _)| k == key).map(|(_, v)| v)
}

#[test]
fn test_sanitize_meta_drops_invalid_keys() {
    let input = vec![
        ("chat_id".to_string(), json("\"123\"")),
        ("chat-id".to_string(), json("\"123\"")),
        ("user.id".to_string(), json("456")),
        ("plain".to_string(), json("true")),
        ("nulled".to_string(), json("null")),
    ];
    let out = sanitize_meta(&input);
    assert!(find(&out, "chat_id").is_some());
    assert!(find(&out, "chat-id").is_none());
    assert!(find(&out, "user.id").is_none());
    assert_eq!(find(&out, "chat_id"), Some(&json("\"123\"")));
    assert_eq!(find(&out, "plain"), Some(&json("\"true\"")));
    assert!(find(&out, "nulled").is_none());
}

#[test]
fn test_sanitize_meta_coerces_numbers_to_strings() {
    let input = vec![
        ("chat_id".to_string(), json("12345")),
        ("user_id".to_string(), json("67890")),
    ];
    let out = sanitize_meta(&input);
    assert_eq!(find(&out, "chat_id"), Some(&json("\"12345\"")));
    assert_eq!(find(&out, "user_id"), Some(&json("\"67890\"")));
}

#[test]
fn test_build_channel_notification_telegram_payload() {
    let msg = bus_msg(
        r#"{
            "task": "hello from telegram",
            "telegram_chat_id": -100123,
            "telegram_sender": {"id": 4242, "username": "alice"},
            "telegram_message_id": 7,
            "telegram_chat_name": "kira channel"
        }"#,
    );
    let frame = value(&build_channel_notification(&msg, "runner"));
    assert_eq!(frame["jsonrpc"], "2.0");
    assert_eq!(frame["method"], "notifications/runner/channel");
    assert_eq!(frame["params"]["content"], "hello from telegram");
    let meta = &frame["params"]["meta"];
    assert_eq!(meta["chat_id"], "-100123");
    assert_eq!(meta["user_id"], "4242");
    assert_eq!(meta["message_id"], "7");
    assert_eq!(meta["chat_name"], "kira channel");
    assert_eq!(meta["bus_id"], "msg-1");
    assert_eq!(meta["source"], "telegram-dev");
}

#[test]
fn test_build_channel_notification_falls_back_to_payload_json() {
    let msg = bus_msg(r#"{"foo": "bar"}"#);
    let frame = value(&build_channel_notification(&msg, "runner"));
    let content = frame["params"]["content"].as_str().unwrap();
    assert!(content.contains("foo"));
    let meta = &frame["params"]["meta"];
    assert_eq!(meta["source"], "telegram-dev");
    assert!(meta.get("chat_id").is_none());
}

#[test]
fn test_emit_channel_notification_swallows_broken_pipe() {
    let res = handle_write_err(true, "write");
    assert!(res.is_ok(), "broken-pipe emit must succeed silently");
    assert!(handle_write_err(false, "write").is_err());
}

#[test]
fn test_emit_channel_notification_writes_newline_delimited_json() {
    let msg = bus_msg(r#"{"task": "ping", "telegram_chat_id": 1, "telegram_sender": {"id": 2}}"#);
    let s = emit_channel_notification(&msg, "runner");
    assert!(s.ends_with('\n'));
    let parsed: serde_json::Value = serde_json::from_str(s.trim()).unwrap();
    assert_eq!(parsed["method"], "notifications/runner/channel");
    assert_eq!(parsed["params"]["content"], "ping");
    assert_eq!(parsed["params"]["meta"]["chat_id"], "1");
}

#[test]
fn test_server_mode_names() {
    assert_eq!(ServerMode::Plain.server_name(), "deskd");
    assert_eq!(ServerMode::Channel.server_name(), "deskd-telegram");
}

#[test]
fn responses_are_lines() {
    let line = write_response(&Response::err(None, -32700, "Parse error"));
    assert!(line.ends_with('\n'));
    let v: serde_json::Value = serde_json::from_str(line.trim()).unwrap();
    assert_eq!(v["error"]["message"], "Parse error");
    assert!(v.get("id").is_none());
}

#[test]
fn the_listener_subscribes_to_chats_in_channel_mode() {
    let plain = value(&connect_bus_listener("kira", ServerMode::Plain));
    assert_eq!(plain["type"], "register");
    assert_eq!(plain["name"], "kira-mcp-channel");
    assert_eq!(plain["subscriptions"].as_array().unwrap().len(), 2);
    let channel = value(&connect_bus_listener("kira", ServerMode::Channel));
    assert_eq!(channel["subscriptions"][2], "telegram.in:*");
}

// ─── The server ─────────────────────────────────────────────────────────────

#[test]
fn input_lines_are_requests() {
    assert_eq!(classify_input("  \n"), InputLine::Skip);
    assert_eq!(classify_input("Content-Length: 12"), InputLine::Skip);
    assert_eq!(classify_input("{}"), InputLine::Read);
    assert!(matches!(read_input("   "), Input::Skip));
    match read_input("{\"x\":1}") {
        Input::Malformed(r) => assert_eq!(value(&r.to_json())["error"]["code"], -32700),
        _ => panic!("expected a parse error"),
    }
    match read_input(" {\"jsonrpc\":\"2.0\",\"id\":7,\"method\":\"tools/list\"} ") {
        Input::Asks(q) => {
            assert_eq!(q.method, "tools/list");
            assert_eq!(q.id, Some(json("7")));
            assert!(q.params.is_none());
        }
        _ => panic!("expected a request"),
    }
    match read_input("[\"2.0\",7,\"ping\",{}]") {
        Input::Asks(q) => assert_eq!((q.method.as_str(), q.params), ("ping", Some(json("{}")))),
        _ => panic!("expected a request"),
    }
    assert!(matches!(read_input("[\"2.0\",7,\"ping\"]"), Input::Malformed(_)));
}

fn ask(text: &str, cfg: Option<&UserConfig>) -> Handling {
    match read_input(text) {
        Input::Asks(q) => handle_request(&q, "kira", cfg, ServerMode::Plain, "0.1.0", "runner"),
        _ => panic!("expected a request"),
    }
}

#[test]
fn every_listed_tool_can_be_called() {
    let mut cfg = UserConfig::default();
    cfg.models.push(ticket_model());
    for c in [None, Some(&cfg)] {
        let answer = match ask(r#"{"jsonrpc":"2.0","id":1,"method":"tools/list"}"#, c) {
            Handling::Respond(r) => value(&r.to_json()),
            _ => panic!("expected a response"),
        };
        let tools = answer["result"]["tools"].as_array().unwrap();
        assert_eq!(tools.len(), if c.is_some() { 18 } else { 15 });
        for t in tools {
            assert!(tool_named(t["name"].as_str().unwrap()).is_some());
        }
    }
}

#[test]
fn requests_are_routed() {
    assert!(matches!(
        ask(r#"{"jsonrpc":"2.0","method":"notifications/initialized"}"#, None),
        Handling::Ignore
    ));
    match ask(r#"{"jsonrpc":"2.0","id":1,"method":"what"}"#, None) {
        Handling::Respond(r) => assert_eq!(value(&r.to_json())["error"]["code"], -32601),
        _ => panic!("expected a response"),
    }
    let call = r#"{"jsonrpc":"2.0","id":1,"method":"tools/call","params":{"name":"read_inbox","arguments":{"inbox":"kira"}}}"#;
    match ask(call, None) {
        Handling::Call(c) => {
            assert_eq!(c.tool, Tool::ReadInbox);
            assert_eq!(value(&c.args)["inbox"], "kira");
        }
        _ => panic!("expected a call"),
    }
    assert_eq!(handle_tools_call(&json("{}")).unwrap_err(), "missing tool name");
    assert_eq!(
        handle_tools_call(&json(r#"{"name":"nope"}"#)).unwrap_err(),
        "Unknown tool: nope"
    );
    let r = tool_response(Some(json("3")), Err("broken".into()));
    assert_eq!(value(&r.to_json())["error"]["message"], "broken");
}

// ─── Access ─────────────────────────────────────────────────────────────────

#[test]
fn test_glob_match() {
    assert!(glob_match("agent:*", "agent:dev"));
    assert!(glob_match("telegram.out:*", "telegram.out:-1234567"));
    assert!(glob_match("*", "anything"));
    assert!(glob_match("agent:dev", "agent:dev"));
    assert!(!glob_match("agent:dev", "agent:researcher"));
    assert!(!glob_match("telegram.out:*", "telegram.in:-1234"));
    assert!(!glob_match("agent:*", "agent:"));
}

fn sub_agent(name: &str) -> SubAgentDef {
    SubAgentDef {
        name: name.into(),
        model: "haiku".into(),
        system_prompt: String::new(),
        subscribe: vec![],
        publish: None,
        inbox_read: None,
        scope: ScopeType::Inherit,
        can_message: None,
        work_dir: None,
        env: None,
        state_file: None,
        options: None,
    }
}

fn make_config_with_sub_agent(name: &str, inbox_read: Option<Vec<String>>) -> UserConfig {
    let mut cfg = UserConfig::default();
    let mut sub = sub_agent(name);
    sub.inbox_read = inbox_read;
    cfg.agents.push(sub);
    cfg
}

#[test]
fn inbox_acl_allows_own_inbox() {
    let cfg = make_config_with_sub_agent("reader", None);
    assert!(inbox_access_allowed("reader", "reader", Some(&cfg)));
}

#[test]
fn inbox_acl_denies_other_inbox_by_default() {
    let cfg = make_config_with_sub_agent("reader", None);
    assert!(!inbox_access_allowed("reader", "secret", Some(&cfg)));
}

#[test]
fn inbox_acl_allows_listed_inbox() {
    let cfg = make_config_with_sub_agent("reader", Some(vec!["shared".into(), "collab-*".into()]));
    assert!(inbox_access_allowed("reader", "shared", Some(&cfg)));
    assert!(inbox_access_allowed("reader", "collab-daily", Some(&cfg)));
    assert!(inbox_access_allowed("reader", "reader", Some(&cfg)));
}

#[test]
fn inbox_acl_denies_unlisted_inbox() {
    let cfg = make_config_with_sub_agent("reader", Some(vec!["shared".into()]));
    assert!(!inbox_access_allowed("reader", "secret", Some(&cfg)));
}

#[test]
fn inbox_acl_top_level_agent_unrestricted() {
    let cfg = make_config_with_sub_agent("other-agent", None);
    assert!(inbox_access_allowed("top-level", "anything", Some(&cfg)));
}

#[test]
fn inbox_acl_no_config_unrestricted() {
    assert!(inbox_access_allowed("agent", "any-inbox", None));
}

fn make_top_level_config(inbox_acl: Option<Vec<String>>) -> UserConfig {
    UserConfig { inbox_acl, ..Default::default() }
}

#[test]
fn top_level_inbox_acl_absent_is_unrestricted() {
    let cfg = make_top_level_config(None);
    assert!(inbox_access_allowed("kira", "anything", Some(&cfg)));
    assert!(inbox_access_allowed("kira", "dev", Some(&cfg)));
}

#[test]
fn top_level_inbox_acl_allows_own_inbox() {
    let cfg = make_top_level_config(Some(vec![]));
    assert!(inbox_access_allowed("kira", "kira", Some(&cfg)));
    assert!(inbox_access_allowed("kira", "replies/kira", Some(&cfg)));
}

#[test]
fn top_level_inbox_acl_denies_unlisted() {
    let cfg = make_top_level_config(Some(vec!["dev".into()]));
    assert!(!inbox_access_allowed("kira", "secret", Some(&cfg)));
    assert!(!inbox_access_allowed("kira", "vasya", Some(&cfg)));
}

#[test]
fn top_level_inbox_acl_allows_listed_with_glob() {
    let cfg = make_top_level_config(Some(vec!["dev".into(), "collab-*".into()]));
    assert!(inbox_access_allowed("kira", "dev", Some(&cfg)));
    assert!(inbox_access_allowed("kira", "collab-daily", Some(&cfg)));
    assert!(!inbox_access_allowed("kira", "secret", Some(&cfg)));
}

#[test]
fn read_inbox_error_message_format() {
    let cfg = make_top_level_config(Some(vec!["dev".into()]));
    assert!(!inbox_access_allowed("kira", "secret", Some(&cfg)));
    let msg = inbox_denial("kira", "secret");
    assert!(msg.starts_with("inbox access denied:"));
    assert!(msg.contains("\"kira\""));
    assert!(msg.contains("\"secret\""));
    let err = call_read_inbox(&json(r#"{"inbox":"secret"}"#), "kira", Some(&cfg)).unwrap_err();
    assert_eq!(err, msg);
}

#[test]
fn inbox_requests_are_read() {
    let q = call_read_inbox(
        &json(r#"{"inbox":"dev","since":"2026-04-22T09:00:00.5Z","limit":3}"#),
        "kira",
        None,
    )
    .unwrap();
    assert_eq!(q.inbox, "dev");
    assert_eq!(q.limit, 3);
    assert_eq!(q.since, Some((1_776_848_400, 500_000_000)));
    assert_eq!(call_read_inbox(&json("{}"), "kira", None).unwrap_err(), "missing inbox");
    let q = call_search_inbox(&json(r#"{"query":"x"}"#), "kira", None).unwrap();
    assert_eq!((q.inbox, q.limit), (None, 50));
    let cfg = make_top_level_config(Some(vec![]));
    let q = call_search_inbox(&json(r#"{"query":"x"}"#), "kira", Some(&cfg)).unwrap();
    assert_eq!(q.inbox.as_deref(), Some("kira"));
    let all = vec![json(r#"{"inbox":"kira","count":1}"#), json(r#"{"inbox":"dev","count":2}"#)];
    let text = reply_text(&call_list_inboxes(&all, "kira", Some(&cfg)));
    assert!(text.contains("kira"));
    assert!(!text.contains("dev"));
}

fn make_config_with_can_message(name: &str, can_message: Option<Vec<String>>) -> UserConfig {
    let mut cfg = UserConfig::default();
    let mut sub = sub_agent(name);
    sub.can_message = can_message;
    cfg.agents.push(sub);
    cfg
}

#[test]
fn can_message_unrestricted_by_default() {
    let cfg = make_config_with_can_message("worker", None);
    assert!(cfg.agents[0].can_message.is_none());
    assert!(check_target(Some(&cfg), "worker", "agent:anyone").is_ok());
}

#[test]
fn can_message_allows_listed_target() {
    let cfg = make_config_with_can_message(
        "worker",
        Some(vec!["agent:parent".into(), "telegram.out:*".into()]),
    );
    let allow = cfg.agents[0].can_message.as_ref().unwrap();
    assert!(matches_any(allow, "agent:parent"));
    assert!(matches_any(allow, "telegram.out:-123"));
    assert!(!matches_any(allow, "agent:sibling"));
}

#[test]
fn can_message_denies_unlisted_target() {
    let cfg = make_config_with_can_message("worker", Some(vec!["agent:parent".into()]));
    let allow = cfg.agents[0].can_message.as_ref().unwrap();
    assert!(!matches_any(allow, "agent:sibling"));
    assert!(!matches_any(allow, "telegram.out:-123"));
    assert!(check_target(Some(&cfg), "worker", "agent:sibling").is_err());
}

// ─── Sending ────────────────────────────────────────────────────────────────

#[test]
fn messages_are_planned_and_sent() {
    let args = json(r#"{"target":"agent:dev","text":"hi","fresh":true}"#);
    let plan = call_send_message(&args, "kira", "/tmp/bus.sock", None, None).unwrap();
    assert_eq!(plan.socket, "/tmp/bus.sock");
    assert_eq!(plan.probe.as_deref(), Some("dev"));
    let here = ListReply::of_line(r#"{"payload":{"clients":["dev"]}}"#);
    let gone = ListReply::of_line(r#"{"payload":{"clients":["qa"]}}"#);
    assert!(agent_connected(&here, "dev"));
    assert!(!agent_connected(&gone, "dev"));
    assert!(agent_connected(&ListReply::of_line("nope"), "dev"));
    let (msg, reply) = finish_send(&plan, "kira", &here).unwrap();
    assert_eq!(value(&msg)["payload"]["task"], "hi");
    assert_eq!(value(&msg)["metadata"]["fresh"], true);
    assert_eq!(reply_text(&reply), "Message sent to agent:dev");
    assert!(finish_send(&plan, "kira", &gone).is_err());
    let bus = InternalBus::new("kira");
    assert_eq!(bus.socket_path, "/tmp/deskd-kira-internal.sock");
    assert!(!bus.is_sub_agent_target("agent:dev"));
    let text = build_send_message_description(&UserConfig::default(), "kira");
    assert!(text.starts_with("Send a message to a target on the bus."));
}

#[test]
fn questions_are_answered() {
    let q = call_query_agent(&json(r#"{"target":"agent:dev","question":"why"}"#), "kira").unwrap();
    assert_eq!(q.timeout_secs, 30);
    assert!(q.reply_name.starts_with("kira-query-"));
    assert_eq!(value(&q.message.payload)["task"], "why");
    let mut a = Answer::new();
    assert!(!a.take(&json("{}")));
    assert!(a.take(&json(r#"{"result":"because"}"#)));
    let text = a.into_text();
    assert_eq!(text, "because");
    let r = finish_query("agent:dev", 30, &QueryOutcome::Answered(text)).unwrap();
    assert_eq!(value(&r)["response"], "because");
    assert_eq!(value(&r)["source"], "agent:dev");
    assert!(finish_query("agent:dev", 30, &QueryOutcome::TimedOut).is_err());
    assert!(finish_query("agent:dev", 30, &QueryOutcome::BusFailed("x".into())).is_err());
}

// ─── Remote agents ──────────────────────────────────────────────────────────

#[test]
fn remote_tasks_are_sent() {
    let args = json(r#"{"url":"https://x/","skill":"dev/review","message":"m","api_key":"k"}"#);
    let c = call_a2a_send(&args).unwrap();
    assert!(matches!(&c.auth, RemoteAuth::ApiKey(k) if k == "k"));
    assert_eq!(value(&c.body)["method"], "tasks/send");
    assert_eq!(value(&c.body)["params"]["skill"], "dev/review");
    assert!(call_a2a_send(&json(r#"{"url":"x"}"#)).is_err());
    let refused = RemoteReply::Refused { status: "401".into(), body: "no".into() };
    assert!(finish_a2a_send(&refused).is_err());
    assert!(finish_a2a_send(&RemoteReply::Body(json(r#"{"result":{"taskId":"1"}}"#))).is_ok());
    assert!(call_a2a_discover(&json(r#"{"url":"https://x"}"#)).unwrap().starts_with("https://x"));
}

#[test]
fn needs_are_published() {
    let n = call_publish_need(&json(r#"{"description":"Need A Code Review Soon Please"}"#)).unwrap();
    assert_eq!(n.id, "need-a-code-review");
    assert_eq!(value(&need_published(&n))["need"]["id"], "need-a-code-review");
    let card = json(r#"{"needs":[{"id":"n1"}]}"#);
    assert!(write_json(&call_browse_needs("https://x", &card)).contains("n1"));
    let (c, _) = call_propose_for_need(&json(
        r#"{"url":"https://x","need_id":"n1","proposal":"I can"}"#,
    ))
    .unwrap();
    assert!(write_json(&c.body).contains("n1"));
}

// ─── Sub-agents ─────────────────────────────────────────────────────────────

fn state(name: &str, parent: Option<&str>) -> AgentState {
    AgentState {
        name: name.into(),
        model: "haiku".into(),
        system_prompt: "".into(),
        work_dir: "/home/x".into(),
        max_turns: 10,
        unix_user: None,
        config_path: None,
        status: "idle".into(),
        current_task: "".into(),
        session_id: "".into(),
        created_at: "2026".into(),
        pid: 0,
        total_turns: 3,
        total_cost: "0.5".into(),
        budget_usd: "5.0".into(),
        parent: parent.map(|p| p.to_string()),
        scope: None,
        can_message: None,
        env_keys: None,
    }
}

#[test]
fn agent_logs_rejects_missing_name() {
    let msg = read_log_request(&json("{}")).unwrap_err();
    assert!(msg.contains("name"), "expected name error, got: {}", msg);
}

#[test]
fn agent_logs_rejects_bad_tail() {
    for bad in [0u64, 5000] {
        let args = json(&format!("{{\"name\": \"x\", \"tail\": {bad}}}"));
        let msg = read_log_request(&args).unwrap_err();
        assert!(msg.contains("tail"), "expected tail error, got: {}", msg);
    }
}

#[test]
fn agent_logs_rejects_bad_source() {
    let msg = read_log_request(&json(r#"{"name": "x", "source": "garbage"}"#)).unwrap_err();
    assert!(msg.contains("source"), "expected source error, got: {}", msg);
}

#[test]
fn agent_logs_self_read_nonexistent_returns_exists_false() {
    let q = read_log_request(&json(r#"{"name": "me", "tail": 10}"#)).unwrap();
    check_log_access("me", "me", None).expect("self-read must not error");
    let resp = call_agent_logs(&q, "/tmp/me.log", None);
    let parsed: serde_json::Value = serde_json::from_str(&reply_text(&resp)).unwrap();
    assert_eq!(parsed["exists"], false);
    assert_eq!(parsed["source"], "stderr");
    assert!(parsed["lines"].as_array().unwrap().is_empty());
}

#[test]
fn logs_end_with_their_last_lines() {
    let q = read_log_request(&json(r#"{"name": "me", "tail": 2, "source": "stream"}"#)).unwrap();
    let resp = call_agent_logs(&q, "/tmp/me.log", Some("a\nb\nc\n"));
    let parsed: serde_json::Value = serde_json::from_str(&reply_text(&resp)).unwrap();
    assert_eq!(parsed["total_lines"], 3);
    assert_eq!(parsed["lines"][0], "b");
    assert!(check_log_access("child", "me", Some(&state("child", Some("me")))).is_ok());
    assert!(check_log_access("other", "me", Some(&state("other", None))).is_err());
}

#[test]
fn sub_agents_are_added_and_removed() {
    let args = json(r#"{"name":"w","model":"haiku","system_prompt":"p","subscribe":["agent:w"]}"#);
    let a = call_add_persistent_agent(&args, "/home/x").unwrap();
    assert_eq!(a.work_dir, "/home/x");
    let scoped = check_scope(a, "/home/x", "/home/x", "/home/x").unwrap();
    let a = scoped.request();
    assert_eq!(create_args(&scoped)[..3], ["agent", "create", "w"]);
    let run = run_args(&scoped, "/tmp/s");
    assert_eq!(run[..5], ["agent", "run", "w", "--socket", "/tmp/s"]);
    let mut bus = InternalBus::new("kira");
    let reply = finish_add_agent(&scoped, &mut bus);
    assert!(reply_text(&reply).starts_with("Agent 'w' started on internal bus"));
    assert!(bus.is_sub_agent_target("agent:w"));
    let mut s = state("w", None);
    adopt(&mut s, a, "kira");
    assert_eq!(s.parent.as_deref(), Some("kira"));
    assert_eq!(reply_text(&finish_remove_agent("w", &mut bus)), "Agent 'w' removed");
    assert!(!bus.is_sub_agent_target("agent:w"));
    assert_eq!(call_remove_agent(&json(r#"{"name":"w"}"#)).unwrap(), "w");
    assert_eq!(poll_registration(true, 0), PollStep::Registered);
    assert_eq!(poll_registration(false, 100), PollStep::Wait);
    let listed = vec![
        ListedAgent { name: "w".into(), is_finished: false, state: Some(state("w", Some("kira"))) },
        ListedAgent { name: "z".into(), is_finished: false, state: Some(state("z", Some("bob"))) },
    ];
    let text = reply_text(&call_list_agents(&listed, "kira"));
    assert!(text.contains("\"w\""));
    assert!(!text.contains("\"z\""));
}

#[test]
fn scopes_narrow_downwards() {
    assert!(is_within("/home/x/sub", "/home/x"));
    assert!(is_within("/home/x", "/home/x"));
    assert!(!is_within("/home/xy", "/home/x"));
    let asks = |dir: &str| {
        let args = json(&format!(r#"{{"name":"w","model":"haiku","work_dir":"{}"}}"#, dir));
        call_add_persistent_agent(&args, "/home/x").unwrap()
    };
    assert!(check_scope(asks("sub"), "/home/x", "/home/x/sub", "/home/x").is_ok());
    assert_eq!(
        check_scope(asks("/etc"), "/home/x", "/etc", "/home/x").err().unwrap(),
        "work_dir '/etc' is outside parent scope '/home/x'"
    );
    let mut cfg = UserConfig::default();
    let mut w = sub_agent("w");
    w.scope = ScopeType::Narrow;
    w.env = Some(vec![EnvVar { name: "API_KEY".into(), value: "v".into() }]);
    cfg.agents.push(w);
    let children = vec![];
    let facts = ScopeFacts {
        agent_name: "w",
        state: None,
        user_config: Some(&cfg),
        current_dir: "/cwd",
        children: &children,
    };
    let text = reply_text(&call_get_scope(&facts));
    assert!(text.contains("\"w\""));
    assert!(!text.contains("\"v\""));
}

// ─── Reminders ──────────────────────────────────────────────────────────────

fn at(s: &str) -> chrono::DateTime<chrono::Utc> {
    let (secs, nanos) = parse_at_time(s).unwrap();
    chrono::DateTime::from_timestamp(secs, nanos).unwrap()
}

fn shown(t: chrono::DateTime<chrono::Utc>, format: &str) -> String {
    t.format(format).to_string()
}

#[test]
fn parse_at_iso8601() {
    let dt = at("2026-04-22T09:00:00Z");
    assert_eq!(shown(dt, "%H"), "09");
    assert_eq!(shown(dt, "%d"), "22");
}

#[test]
fn parse_at_iso8601_with_offset() {
    assert_eq!(shown(at("2026-04-22T12:00:00+03:00"), "%H"), "09");
}

#[test]
fn parse_at_datetime_naive() {
    let dt = at("2026-04-22 09:00");
    assert_eq!(shown(dt, "%H"), "06");
    assert_eq!(shown(dt, "%d"), "22");
}

#[test]
fn parse_at_datetime_naive_with_t() {
    assert_eq!(shown(at("2026-04-22T09:00"), "%H"), "06");
}

#[test]
fn parse_at_tomorrow() {
    let dt = at("tomorrow 09:00");
    assert!(dt > chrono::Utc::now());
    assert_eq!(shown(dt, "%H"), "06");
}

#[test]
fn parse_at_bare_time_future() {
    let dt = at("23:59");
    assert_eq!(shown(dt, "%H"), "20");
    assert_eq!(shown(dt, "%M"), "59");
}

#[test]
fn parse_at_invalid() {
    assert!(parse_at_time("not a time").is_err());
    assert!(parse_at_time("").is_err());
}

#[test]
fn times_of_day_lie_ahead() {
    let now = chrono::DateTime::parse_from_rfc3339("2026-04-22T10:00:00Z").unwrap();
    let nanos = now.timestamp_nanos_opt().unwrap();
    let (early, _) = parse_at_time_from("09:00", nanos).unwrap();
    assert_eq!(early, now.timestamp() - 10 * 3600 + 24 * 3600 + 6 * 3600);
    let (late, _) = parse_at_time_from("23:59", nanos).unwrap();
    assert!(late > now.timestamp() && late < now.timestamp() + 24 * 3600);
    let nothing = TimeReadings {
        rfc3339: None,
        minutes: None,
        minutes_t: None,
        seconds: None,
        tomorrow: None,
        today_at: None,
        tomorrow_at: None,
    };
    assert_eq!(choose_time(&nothing, nanos), None);
}

#[test]
fn reminders_name_a_time() {
    let q = call_create_reminder(&json(
        r#"{"target":"agent:kira","message":"m","at":"tomorrow 09:00"}"#,
    ))
    .unwrap();
    assert!(matches!(q.time, ReminderTime::At(_)));
    assert!(call_create_reminder(&json(r#"{"target":"t"}"#)).is_err());
}

// ─── Queue and state machines ───────────────────────────────────────────────

#[test]
fn telegram_history_rejects_missing_chat_id() {
    let msg = call_telegram_history(&json("{}")).unwrap_err();
    assert!(msg.contains("chat_id"), "expected chat_id error, got: {}", msg);
}

#[test]
fn telegram_history_rejects_bad_limit() {
    let msg = call_telegram_history(&json(r#"{"chat_id": 1, "limit": 500}"#)).unwrap_err();
    assert!(msg.contains("limit"), "expected limit error, got: {}", msg);
    let q = call_telegram_history(&json(r#"{"chat_id": -7}"#)).unwrap();
    assert_eq!((q.limit, q.inbox.as_str()), (50, "telegram/-7"));
    let r = value(&history_reply(-7, vec![json("{}")]));
    assert_eq!(r["count"], 1);
}

fn ticket_model() -> ModelDef {
    ModelDef {
        name: "ticket".into(),
        description: "".into(),
        states: vec!["open".into(), "done".into()],
        initial: "open".into(),
        terminal: vec!["done".into()],
        transitions: vec![],
    }
}

#[test]
fn queue_arguments_are_read() {
    let t = call_task_create(&json(r#"{"description":"d","labels":["a",1,"b"]}"#)).unwrap();
    assert_eq!(t.labels, vec!["a", "b"]);
    assert_eq!(t.metadata, Json::Null);
    assert_eq!(call_task_create(&json("{}")).unwrap_err(), "missing description");
    assert_eq!(call_task_cancel(&json(r#"{"id":"t1"}"#)).unwrap(), "t1");
    assert_eq!(call_run_graph(&json(r#"{"file":"g.yaml"}"#)).unwrap().file, "g.yaml");
    assert!(call_sm_create(&json(r#"{"model":"m","title":"t"}"#), false).is_err());
    assert_eq!(call_sm_create(&json(r#"{"model":"m","title":"t"}"#), true).unwrap().body, "");
    assert_eq!(call_sm_move(&json(r#"{"id":"i","state":"s"}"#), true).unwrap().state, "s");
    assert_eq!(call_sm_query(&json(r#"{"id":"i"}"#)), SmQuery::One("i".into()));
    assert_eq!(
        call_sm_query(&json(r#"{"model":"m"}"#)),
        SmQuery::List(Some("m".into()), None)
    );
    assert_eq!(call_usage_stats(&json("{}")), ("7d".to_string(), None));
}

fn task(id: &str, status: TaskStatus) -> QueueTask {
    QueueTask {
        id: id.into(),
        description: "d".into(),
        status,
        assignee: None,
        created_by: "kira".into(),
        created_at: "2026".into(),
        sm_instance_id: None,
    }
}

#[test]
fn tasks_are_listed_by_status() {
    let tasks = vec![task("a", TaskStatus::Pending), task("b", TaskStatus::DeadLetter)];
    assert_eq!(value(&task_list(None, &tasks)).as_array().unwrap().len(), 2);
    let dead = value(&task_list(Some("dead_letter"), &tasks));
    assert_eq!(dead[0]["id"], "b");
    assert_eq!(dead[0]["status"], "dead_letter");
    assert_eq!(parse_task_status("done"), Some(TaskStatus::Done));
    assert_eq!(parse_task_status("odd"), None);
}

fn instance(id: &str, state: &str) -> SmInstance {
    SmInstance {
        id: id.into(),
        model: "ticket".into(),
        title: "Fix it".into(),
        body: "please".into(),
        state: state.into(),
        assignee: "agent:dev".into(),
        updated_at: "2026".into(),
    }
}

#[test]
fn instances_are_queried_and_dispatched() {
    let all = vec![instance("i1", "open"), instance("i2", "done")];
    let open = value(&sm_query(Some("ticket"), Some("open"), &all));
    assert_eq!(open.as_array().unwrap().len(), 1);
    assert_eq!(open[0]["id"], "i1");
    let (reg, msg) = dispatch_sm_task("kira", &all[0]);
    assert_eq!(value(&reg)["name"], "kira-mcp-sm");
    let msg = value(&msg);
    assert_eq!(msg["type"], "message");
    assert_eq!(msg["source"], "workflow-engine");
    assert_eq!(msg["target"], "agent:dev");
    assert_eq!(msg["reply_to"], "sm:i1");
    assert_eq!(msg["metadata"]["priority"], 5);
    assert_eq!(msg["payload"]["sm_instance_id"], "i1");
    assert_eq!(
        msg["payload"]["task"],
        "---\n## Task: Fix it\n\nplease\n\n---\n## Metadata\ninstance_id: i1\nmodel: ticket\nstate: open"
    );
}

#[test]
fn instances_are_created_and_moved_by_their_models() {
    let mut cfg = UserConfig::default();
    assert_eq!(sm_create("ticket", &cfg).unwrap_err(), "model 'ticket' not found");
    let mut inst = instance("i1", "open");
    assert_eq!(sm_move(&inst, &cfg).unwrap_err(), "model 'ticket' not found in config");
    cfg.models.push(ModelDef {
        name: "ticket".into(),
        description: String::new(),
        states: vec!["open".into(), "done".into()],
        initial: "open".into(),
        terminal: vec!["done".into()],
        transitions: vec![],
    });
    assert_eq!(sm_create("ticket", &cfg).unwrap().initial, "open");
    let (created, dispatch) = finish_sm_create(&inst, "kira");
    assert_eq!(created.assignee, "agent:dev");
    assert!(dispatch.is_some());
    assert!(finish_sm_move(&inst, sm_move(&inst, &cfg).unwrap()).1);
    inst.state = "done".into();
    let (moved, told) = finish_sm_move(&inst, sm_move(&inst, &cfg).unwrap());
    assert_eq!(moved.state, "done");
    assert!(!told);
    inst.assignee = String::new();
    assert!(finish_sm_create(&inst, "kira").1.is_none());
    assert_eq!(given_metadata(Json::Null), None);
    assert_eq!(given_metadata(Json::Bool(true)), Some(Json::Bool(true)));
}

#[test]
fn inboxes_and_their_messages_are_shown() {
    let all = list_inboxes(&vec![("kira".to_string(), 2), ("dev".to_string(), 0)]);
    assert_eq!(value(&all[0])["inbox"], "kira");
    assert_eq!(value(&all[0])["messages"], 2);
    let messages = vec![InboxMessage {
        ts: "2026-01-01T00:00:00+00:00".into(),
        source: "telegram".into(),
        from: None,
        text: "hello".into(),
        metadata: Json::Null,
    }];
    let read = read_inbox(&messages);
    assert_eq!(
        write_json(&read[0]),
        r#"{"ts":"2026-01-01T00:00:00+00:00","source":"telegram","from":null,"text":"hello","metadata":null}"#
    );
    assert_eq!(search_inbox(&messages), read);
}

#[test]
fn reminders_are_kept_as_json() {
    let text = create_reminder("2026-01-01T00:00:00+00:00", "agent:kira", "stand up");
    assert_eq!(
        text,
        "{\n  \"at\": \"2026-01-01T00:00:00+00:00\",\n  \"target\": \"agent:kira\",\n  \"message\": \"stand up\"\n}"
    );
}

#[test]
fn only_parents_remove_agents() {
    assert!(validate_remove_agent("w", "kira", Some(&state("w", Some("kira")))).is_ok());
    assert!(validate_remove_agent("w", "kira", Some(&state("w", None))).is_err());
    assert_eq!(
        validate_remove_agent("w", "kira", None).unwrap_err(),
        "agent 'w' not found"
    );
    let s = value(&build_agent_summary("w", false, Some(&state("w", None))));
    assert_eq!(s["status"], "running");
    assert_eq!(s["cost_usd"], 0.5);
    assert_eq!(stop_agent_process(0), StopStep::Done);
    assert_eq!(stop_agent_process(5), StopStep::Terminate);
    assert_eq!(next_stop_step(true, 29_999), StopStep::Wait);
    assert_eq!(next_stop_step(true, 30_000), StopStep::Kill);
    assert_eq!(next_stop_step(false, 0), StopStep::Done);
}

#[test]
fn graph_runs_are_summed_up() {
    let run = GraphRun {
        graph: "build".into(),
        step_ids: vec!["one".into()],
        results: vec![StepResult {
            id: "one".into(),
            skipped: false,
            duration_ms: 12,
            tool_results: vec![ToolResult {
                tool: "sh".into(),
                stdout: "ok\n".into(),
                stderr: "".into(),
                exit_code: 0,
                skipped: false,
            }],
            llm_output: None,
        }],
        variables: vec![("v".into(), "1".into())],
    };
    assert_eq!(
        run_graph(&run),
        "Graph 'build' completed: 1 steps executed\n  [DONE] one (12ms)\n    sh: ok\n\nVariables:\n  v: 1\n"
    );
}

fn text_of(reply: &Json) -> String {
    value(reply)["content"][0]["text"].as_str().unwrap().to_string()
}

#[test]
fn replies_of_the_queue_tools() {
    let tasks = vec![task("a", TaskStatus::Pending), task("b", TaskStatus::Done)];
    let args = read_json(r#"{"status":"done"}"#).unwrap();
    let shown = text_of(&call_task_list(&args, &tasks));
    assert!(shown.contains("\"id\": \"b\""));
    assert!(!shown.contains("\"id\": \"a\""));
    assert!(text_of(&task_cancelled("t1")).contains("t1"));
    let all = vec![instance("i1", "open"), instance("i2", "done")];
    let shown = text_of(&sm_list_reply(None, Some("done"), &all));
    assert!(shown.contains("i2") && !shown.contains("i1"));
    assert_eq!(
        text_of(&reminder_created("agent:kira", "2026-01-01T00:00:00+00:00", "30")),
        "Reminder scheduled: target=agent:kira at=2026-01-01T00:00:00+00:00 (in 30 minutes)"
    );
}

#[test]
fn graph_inputs_are_the_texts_of_an_object() {
    let vars = read_json(r#"{"a":"1","b":2,"c":"3"}"#).unwrap();
    assert_eq!(
        graph_inputs(Some(&vars)),
        Some(vec![("a".to_string(), "1".to_string()), ("c".to_string(), "3".to_string())])
    );
    assert_eq!(graph_inputs(Some(&Json::text("x"))), None);
    assert_eq!(graph_inputs(None), None);
}

#[test]
fn proposals_report_the_outcome() {
    let ok = RemoteReply::Body(read_json(r#"{"result":{"taskId":"t1"}}"#).unwrap());
    assert!(finish_proposal("n1", &ok).is_ok());
    let bad = RemoteReply::Body(read_json(r#"{"error":{"code":-1,"message":"no"}}"#).unwrap());
    assert_eq!(finish_proposal("n1", &bad).unwrap_err(), "A2A error -1: no");
    let refused = RemoteReply::Refused { status: "500 Internal Server Error".into(), body: "x".into() };
    assert_eq!(
        finish_proposal("n1", &refused).unwrap_err(),
        "A2A proposal returned 500 Internal Server Error: x"
    );
}

fn need(id: &str) -> Need {
    Need {
        id: id.into(),
        description: "a: \"b\"".into(),
        tags: vec!["rust".into(), "12".into()],
        priority: "high".into(),
    }
}

#[test]
fn needs_are_added_to_the_configuration() {
    let raw = "model: opus\nneeds:\n- id: old\nlist: [1, 2.5, .inf, true, null, 'yes']\ntagged: !x {1: !y z}\nmulti: |\n  a\n  b\n";
    let text = publish_need_text(raw, &need("new")).unwrap();
    let mut expected: serde_yaml::Value = serde_yaml::from_str(raw).unwrap();
    let entry: serde_yaml::Value = serde_yaml::from_str(
        "id: new\ndescription: 'a: \"b\"'\ntags: [rust, '12']\npriority: high\n",
    )
    .unwrap();
    expected["needs"].as_sequence_mut().unwrap().push(entry.clone());
    assert_eq!(text, serde_yaml::to_string(&expected).unwrap());
    let fresh = publish_need_text("model: opus\n", &need("new")).unwrap();
    let read: serde_yaml::Value = serde_yaml::from_str(&fresh).unwrap();
    assert_eq!(read["model"], "opus");
    assert_eq!(read["needs"], serde_yaml::Value::Sequence(vec![entry]));
    let twice = publish_need_text(&fresh, &need("newer")).unwrap();
    let read: serde_yaml::Value = serde_yaml::from_str(&twice).unwrap();
    assert_eq!(read["needs"][0]["id"], "new");
    assert_eq!(read["needs"][1]["id"], "newer");
    assert!(publish_need_text("!cfg {needs: !n []}", &need("new")).unwrap().starts_with("!cfg"));
}

#[test]
fn odd_configurations_take_no_needs() {
    let refusal = |raw: &str| publish_need_text(raw, &need("n")).unwrap_err();
    assert_eq!(refusal("- a\n"), "config is not a YAML mapping");
    assert_eq!(refusal(""), "config is not a YAML mapping");
    assert_eq!(refusal("needs: 5\n"), "needs: is not a sequence");
    assert_eq!(refusal("needs:\n"), "needs: is not a sequence");
    let reason = serde_yaml::from_str::<serde_yaml::Value>("a: [\n").unwrap_err().to_string();
    assert!(!reason.is_empty());
    assert_eq!(refusal("a: [\n"), format!("failed to parse config YAML: {}", reason));
    assert_eq!(
        add_need(Yaml::Null, &need("n")).unwrap_err(),
        "config is not a YAML mapping"
    );
    let doc = add_need(Yaml::Mapping(vec![]), &need("n")).unwrap();
    match doc {
        Yaml::Mapping(entries) => {
            assert_eq!(entries.len(), 1);
            assert_eq!(entries[0].0, Yaml::Text("needs".into()));
        }
        _ => panic!("expected a mapping"),
    }
}
