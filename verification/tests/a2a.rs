use deskd::a2a_server::{
    bearer_token, check_auth, finish_tasks_send, handle_a2a_rpc, register_task, A2aAuth,
    A2aTaskRecord, A2aTaskRegistry, JsonRpcRequest, RpcStep,
};
use deskd::json_text::write_json;
use deskd::mcp_protocol::Response;

fn auth(mode: &str, api_key: Option<&str>, trusted_keys: usize) -> A2aAuth {
    A2aAuth { auth_mode: mode.into(), api_key: api_key.map(String::from), trusted_keys }
}

fn value(r: &Response) -> serde_json::Value {
    serde_json::from_str(&write_json(&r.to_json())).unwrap()
}

/// What becomes of a request, and whether it passes authentication.
fn ask(
    a: &A2aAuth,
    key: Option<&str>,
    header: Option<&str>,
    verified: bool,
    tasks: &mut A2aTaskRegistry,
    body: &str,
) -> RpcStep {
    let req = JsonRpcRequest::parse(body).unwrap();
    let refusal = check_auth(a, key, header, verified);
    handle_a2a_rpc(&req, refusal.as_deref(), "2026-05-09T00:00:02Z", tasks)
}

fn answer(step: RpcStep) -> serde_json::Value {
    match step {
        RpcStep::Reply(r) => value(&r),
        other => panic!("expected a reply, got {:?}", other),
    }
}

fn make_record(id: &str) -> A2aTaskRecord {
    A2aTaskRecord {
        task_id: id.into(),
        skill: "dev/review".into(),
        agent: "dev".into(),
        status: "working".into(),
        created_at: "2026-05-09T00:00:00Z".into(),
        updated_at: "2026-05-09T00:00:00Z".into(),
    }
}

const SEND: &str = r#"{"jsonrpc":"2.0","id":1,"method":"tasks/send","params":{"skill":"dev/review","message":"hi"}}"#;
const GET: &str = r#"{"jsonrpc":"2.0","id":1,"method":"tasks/get","params":{"taskId":"abc"}}"#;

#[test]
fn a2a_rpc_auth_required() {
    let mut tasks = A2aTaskRegistry::default();
    let a = auth("api_key", Some("secret-key"), 0);
    assert!(matches!(ask(&a, None, None, false, &mut tasks, SEND), RpcStep::Unauthorized(_)));
}

#[test]
fn a2a_rpc_auth_valid() {
    let mut tasks = A2aTaskRegistry::default();
    let a = auth("api_key", Some("secret-key"), 0);
    let step = ask(&a, Some("secret-key"), None, false, &mut tasks, GET);
    assert!(matches!(step, RpcStep::Reply(_)));
}

#[test]
fn a2a_rpc_unknown_method() {
    let mut tasks = A2aTaskRegistry::default();
    let body = r#"{"jsonrpc":"2.0","id":1,"method":"unknown/method","params":{}}"#;
    let rpc = answer(ask(&auth("none", None, 0), None, None, false, &mut tasks, body));
    assert_eq!(rpc["error"]["code"], -32601);
}

#[test]
fn a2a_rpc_missing_params() {
    let mut tasks = A2aTaskRegistry::default();
    let body = r#"{"jsonrpc":"2.0","id":1,"method":"tasks/send","params":{}}"#;
    let rpc = answer(ask(&auth("none", None, 0), None, None, false, &mut tasks, body));
    assert_eq!(rpc["error"]["code"], -32602);
    assert!(rpc["error"]["message"].as_str().unwrap().contains("missing"));
}

#[test]
fn a2a_jwt_auth_valid() {
    let mut tasks = A2aTaskRegistry::default();
    let step = ask(&auth("jwt", None, 1), None, Some("Bearer t"), true, &mut tasks, GET);
    assert!(matches!(step, RpcStep::Reply(_)));
}

#[test]
fn a2a_jwt_auth_missing_token() {
    let mut tasks = A2aTaskRegistry::default();
    let step = ask(&auth("jwt", None, 1), None, None, false, &mut tasks, GET);
    assert!(matches!(step, RpcStep::Unauthorized(_)));
}

#[test]
fn a2a_jwt_auth_wrong_key() {
    let mut tasks = A2aTaskRegistry::default();
    let step = ask(&auth("jwt", None, 1), None, Some("Bearer t"), false, &mut tasks, GET);
    assert!(matches!(step, RpcStep::Unauthorized(_)));
}

#[test]
fn refusals_say_why() {
    assert_eq!(
        check_auth(&auth("jwt", None, 0), None, None, true).unwrap(),
        "server misconfigured: no trusted keys for JWT verification"
    );
    assert_eq!(
        check_auth(&auth("jwt", None, 1), None, Some("Basic x"), true).unwrap(),
        "unauthorized: missing Bearer token"
    );
    assert_eq!(
        check_auth(&auth("jwt", None, 1), None, Some("Bearer x"), false).unwrap(),
        "unauthorized: JWT signature does not match any trusted key"
    );
    assert_eq!(
        check_auth(&auth("api_key", Some("k"), 0), Some("j"), None, false).unwrap(),
        "unauthorized: invalid or missing API key"
    );
    assert!(check_auth(&auth("api_key", None, 0), None, None, false).is_none());
    assert_eq!(bearer_token(Some("Bearer abc")), Some("abc"));
}

#[test]
fn task_registry_insert_and_get() {
    let mut reg = A2aTaskRegistry::new(8);
    reg.insert(make_record("task-1"));
    let got = reg.get("task-1").expect("task-1 should exist");
    assert_eq!(got.status, "working");
    assert!(reg.get("missing").is_none());
}

#[test]
fn task_registry_fifo_eviction() {
    let mut reg = A2aTaskRegistry::new(2);
    reg.insert(make_record("a"));
    reg.insert(make_record("b"));
    reg.insert(make_record("c"));
    assert!(reg.get("a").is_none());
    assert!(reg.get("b").is_some());
    assert!(reg.get("c").is_some());
}

#[test]
fn task_registry_set_status() {
    let mut reg = A2aTaskRegistry::new(4);
    reg.insert(make_record("task-1"));
    let before = reg.get("task-1").unwrap();
    let updated = reg
        .set_status("task-1", "cancelled", "2026-05-09T00:00:01Z")
        .expect("known task is returned");
    assert_eq!(updated.status, "cancelled");
    assert!(updated.updated_at >= before.updated_at);
    assert!(reg.set_status("unknown", "cancelled", "2026-05-09T00:00:01Z").is_none());
}

#[test]
fn a_registry_has_room_for_one_task() {
    let mut reg = A2aTaskRegistry::new(0);
    reg.insert(make_record("a"));
    reg.insert(make_record("a"));
    assert!(reg.get("a").is_some());
    reg.insert(make_record("b"));
    assert!(reg.get("a").is_none());
    assert!(reg.get("b").is_some());
}

#[test]
fn a2a_tasks_get_unknown_returns_not_found() {
    let mut tasks = A2aTaskRegistry::default();
    let body = r#"{"jsonrpc":"2.0","id":1,"method":"tasks/get","params":{"taskId":"does-not-exist"}}"#;
    let rpc = answer(ask(&auth("none", None, 0), None, None, false, &mut tasks, body));
    assert_eq!(rpc["error"]["code"], -32002);
    assert!(rpc["error"]["message"].as_str().unwrap().contains("not found"));
}

#[test]
fn a2a_tasks_get_returns_registered_task() {
    let mut tasks = A2aTaskRegistry::default();
    tasks.insert(make_record("t-known"));
    let body = r#"{"jsonrpc":"2.0","id":1,"method":"tasks/get","params":{"taskId":"t-known"}}"#;
    let rpc = answer(ask(&auth("none", None, 0), None, None, false, &mut tasks, body));
    assert_eq!(rpc["result"]["task_id"], "t-known");
    assert_eq!(rpc["result"]["status"], "working");
    assert_eq!(rpc["result"]["skill"], "dev/review");
}

#[test]
fn a2a_tasks_cancel_transitions_status() {
    let mut tasks = A2aTaskRegistry::default();
    tasks.insert(make_record("t-cancel"));
    let body = r#"{"jsonrpc":"2.0","id":1,"method":"tasks/cancel","params":{"taskId":"t-cancel"}}"#;
    let rpc = answer(ask(&auth("none", None, 0), None, None, false, &mut tasks, body));
    assert_eq!(rpc["result"]["status"], "cancelled");
    assert_eq!(tasks.get("t-cancel").unwrap().status, "cancelled");
}

#[test]
fn a2a_tasks_cancel_unknown_returns_not_found() {
    let mut tasks = A2aTaskRegistry::default();
    let body = r#"{"jsonrpc":"2.0","id":1,"method":"tasks/cancel","params":{"taskId":"nope"}}"#;
    let rpc = answer(ask(&auth("none", None, 0), None, None, false, &mut tasks, body));
    assert_eq!(rpc["error"]["code"], -32002);
}

#[test]
fn sent_tasks_are_registered() {
    let mut tasks = A2aTaskRegistry::default();
    let route = match ask(&auth("none", None, 0), None, None, false, &mut tasks, SEND) {
        RpcStep::Route(t) => t,
        other => panic!("expected a route, got {:?}", other),
    };
    assert_eq!(route.target, "agent:dev");
    assert_eq!(route.message, "hi");
    let now = "2026-05-09T00:00:00Z";
    let failed = register_task(None, "t1", &route, &Err("no bus".into()), now, &mut tasks);
    assert_eq!(
        value(&failed)["error"]["message"],
        "failed to route task to agent: no bus"
    );
    assert!(tasks.get("t1").is_none());
    let done = finish_tasks_send(None, &route, &Ok(()), now, &mut tasks);
    let v = value(&done);
    assert_eq!(v["result"]["status"], "working");
    let id = v["result"]["taskId"].as_str().unwrap();
    assert_eq!(id.len(), 36);
    assert_eq!(tasks.get(id).unwrap().agent, "dev");
}

#[test]
fn skills_name_an_agent() {
    let mut tasks = A2aTaskRegistry::default();
    let body = r#"{"jsonrpc":"2.0","id":1,"method":"tasks/send","params":{"skill":"/x","message":"m"}}"#;
    let rpc = answer(ask(&auth("none", None, 0), None, None, false, &mut tasks, body));
    assert_eq!(
        rpc["error"]["message"],
        "invalid skill id format: /x (expected agent/skill)"
    );
    assert!(JsonRpcRequest::parse("{}").is_none());
    let listed = JsonRpcRequest::parse(r#"["2.0",null,"tasks/get"]"#).unwrap();
    assert_eq!(listed.method, "tasks/get");
    assert!(JsonRpcRequest::parse(r#"["2.0",null]"#).is_none());
}
