use deskd::json::Json;
use deskd::json_text::{read_json, write_json};
use deskd::web::audit::{expand_home, AuditEntry, Event};
use deskd::web::dashboard::{
    dashboard, expire_cookie_value, DashboardReply, SessionPayload, SESSION_COOKIE_NAME,
};
use deskd::web::dispatch::{AgentCommand, BusAgentCommandDispatcher, BusDispatcher};
use deskd::web::github_webhook::{
    build_metadata, build_summary, check_request, github_webhook, matching_targets,
    publish_delivery, verify_signature, DeliveryDedupe, GitHubWebhookConfig,
    GitHubWebhookSubscription, WebhookRequest, WebhookStatus, DELIVERY_TTL_SECS,
};
use deskd::web::static_assets::{dashboard_css, htmx_js, htmx_sse_js, STATIC_CACHE_CONTROL};
use deskd::web::templates::{dashboard_page, link_sent_page, login_page};
use deskd::web::view::{format_bytes, format_uptime, html_escape, vps_strip, VpsOverview};
use hmac::Mac;

fn json(text: &str) -> Json {
    read_json(text).unwrap()
}

fn value(v: &Json) -> serde_json::Value {
    serde_json::from_str(&write_json(v)).unwrap()
}

// ─── Audit log ──────────────────────────────────────────────────────────────

fn entry(ts: &str, event: Event, telegram_id: Option<i64>) -> AuditEntry {
    AuditEntry {
        ts: ts.into(),
        event,
        telegram_id,
        ip: "127.0.0.1".into(),
        ua: "test".into(),
        ok: true,
        reason: None,
        agent: None,
    }
}

#[test]
fn append_writes_one_jsonl_line_per_event() {
    let mut contents = entry("2026-05-09T00:00:00Z", Event::LoginRequest, Some(1)).to_line();
    contents.push_str(&entry("2026-05-09T00:00:01Z", Event::LoginConsume, Some(1)).to_line());
    let lines: Vec<&str> = contents.lines().collect();
    assert_eq!(lines.len(), 2);
    let l0: serde_json::Value = serde_json::from_str(lines[0]).unwrap();
    assert_eq!(l0["event"], "login_request");
    assert_eq!(l0["telegram_id"], 1);
    assert_eq!(l0["ok"], true);
    assert!(l0.get("reason").is_none());
    let l1: serde_json::Value = serde_json::from_str(lines[1]).unwrap();
    assert_eq!(l1["event"], "login_consume");
}

#[test]
fn failed_event_serializes_reason() {
    let mut e = entry("2026", Event::LoginFailed, Some(99));
    e.ok = false;
    e.reason = Some("not_whitelisted".into());
    let l = e.to_line();
    let v: serde_json::Value = serde_json::from_str(l.trim()).unwrap();
    assert_eq!(v["ok"], false);
    assert_eq!(v["reason"], "not_whitelisted");
}

#[test]
fn expand_home_resolves_tilde() {
    let p = expand_home("~/.deskd/logs/web-audit.jsonl", Some("/tmp/fake-home-test"));
    assert_eq!(p, "/tmp/fake-home-test/.deskd/logs/web-audit.jsonl");
}

#[test]
fn expand_home_passes_through_absolute() {
    assert_eq!(
        expand_home("/var/log/deskd/audit.jsonl", None),
        "/var/log/deskd/audit.jsonl"
    );
}

// ─── Dispatch ───────────────────────────────────────────────────────────────

#[test]
fn agent_command_serializes_snake_case() {
    assert_eq!(AgentCommand::Restart.as_str(), "restart");
    assert_eq!(AgentCommand::Compact.as_str(), "compact");
    assert_eq!(AgentCommand::Stop.as_str(), "stop");
    let (target, payload) = BusAgentCommandDispatcher::command("dev", AgentCommand::Restart);
    assert_eq!(target, "agent:dev");
    assert_eq!(value(&payload)["command"], "restart");
}

#[test]
fn deliveries_carry_the_text_and_the_metadata() {
    let d = BusDispatcher::new("/tmp/bus.sock".into(), "web".into());
    let m = d.send_bus("agent:dev", "hello", json("{\"repo\":\"x/y\"}"));
    assert_eq!(m.source, "web");
    assert_eq!(m.target, "agent:dev");
    assert_eq!(m.id.len(), 36);
    let v = value(&m.payload);
    assert_eq!(v["task"], "hello");
    assert_eq!(v["github"]["repo"], "x/y");
    assert_eq!(BusDispatcher::telegram_target(-7), "telegram.out:-7");
}

// ─── Pages ──────────────────────────────────────────────────────────────────

#[test]
fn login_page_includes_csrf_token() {
    let html = login_page("token-xyz");
    assert!(html.contains(r#"value="token-xyz""#));
    assert!(html.contains(r#"action="/login/request""#));
}

#[test]
fn login_page_escapes_csrf_token() {
    let html = login_page("<script>alert(1)</script>");
    assert!(!html.contains("<script>alert(1)</script>"));
    assert!(html.contains("&lt;script&gt;"));
}

#[test]
fn dashboard_page_includes_logout_form() {
    let html = dashboard_page(
        42,
        "csrf-1",
        "<section class='vps-strip'></section>",
        "<section></section>",
    );
    assert!(html.contains("tg:42"));
    assert!(html.contains(r#"action="/logout""#));
    assert!(html.contains(r#"value="csrf-1""#));
}

#[test]
fn dashboard_page_loads_vendored_htmx() {
    let html = dashboard_page(1, "x", "", "");
    assert!(html.contains(r#"src="/static/htmx.min.js""#));
    assert!(html.contains(r#"src="/static/htmx-sse.js""#));
}

#[test]
fn dashboard_page_includes_word_dashboard_for_smoke_tests() {
    let html = dashboard_page(1, "x", "", "");
    assert!(html.contains("dashboard"));
}

#[test]
fn link_sent_page_is_a_page() {
    assert!(link_sent_page().starts_with("<!doctype html>"));
}

#[test]
fn html_escape_handles_special_chars() {
    assert_eq!(
        html_escape(r#"<script>alert("x")</script>"#),
        "&lt;script&gt;alert(&quot;x&quot;)&lt;/script&gt;"
    );
}

fn overview() -> VpsOverview {
    VpsOverview {
        deskd_version: "0.1.2".into(),
        uptime: Some(3600 + 600),
        disk_total_bytes: None,
        disk_free_bytes: None,
    }
}

#[test]
fn strip_includes_version_and_uptime() {
    let html = vps_strip(&overview());
    assert!(html.contains("v0.1.2"));
    assert!(html.contains("1h 10m"));
}

#[test]
fn strip_renders_em_dash_for_missing_disk() {
    let html = vps_strip(&overview());
    assert!(html.contains("disk"));
    assert!(html.contains("—"));
}

#[test]
fn strip_renders_disk_when_available() {
    let mut o = overview();
    o.disk_free_bytes = Some(40 * 1024 * 1024 * 1024);
    o.disk_total_bytes = Some(80 * 1024 * 1024 * 1024);
    let html = vps_strip(&o);
    assert!(html.contains("40.00 GiB free / 80.00 GiB"));
}

#[test]
fn format_uptime_buckets() {
    assert_eq!(format_uptime(45), "45s");
    assert_eq!(format_uptime(60 * 14), "14m");
    assert_eq!(format_uptime(3600), "1h");
    assert_eq!(format_uptime(3600 * 26), "1d 2h");
    assert_eq!(format_uptime(3600 * 24 * 5), "5d");
}

#[test]
fn sizes_are_shown_in_binary_units() {
    assert_eq!(format_bytes(512), "512 B");
    assert_eq!(format_bytes(3 * 1024 * 1024 * 1024 / 2), "1.50 GiB");
}

#[test]
fn the_dashboard_needs_a_session() {
    match dashboard(None, "", "") {
        DashboardReply::Login { set_cookie, .. } => assert_eq!(set_cookie, expire_cookie_value()),
        DashboardReply::Page(_) => panic!("expected a redirect"),
    }
    assert!(expire_cookie_value().starts_with(SESSION_COOKIE_NAME));
    let session = SessionPayload { telegram_id: 5, csrf: "c".into() };
    match dashboard(Some(&session), "<b>strip</b>", "<b>agents</b>") {
        DashboardReply::Page(html) => {
            assert!(html.contains("tg:5"));
            assert!(html.contains("<b>strip</b>"));
            assert!(html.contains("<b>agents</b>"));
        }
        DashboardReply::Login { .. } => panic!("expected the page"),
    }
}

// ─── GitHub webhook ─────────────────────────────────────────────────────────

fn sign(secret: &[u8], body: &[u8]) -> String {
    let mut mac = hmac::Hmac::<sha2::Sha256>::new_from_slice(secret).unwrap();
    mac.update(body);
    format!("sha256={}", hex::encode(mac.finalize().into_bytes()))
}

#[test]
fn verify_signature_accepts_matching() {
    let secret = b"abc";
    let body = b"hello";
    let header = sign(secret, body);
    assert!(verify_signature(secret, body, &header));
}

#[test]
fn verify_signature_rejects_wrong_secret() {
    assert!(!verify_signature(b"a", b"hello", &sign(b"b", b"hello")));
}

#[test]
fn verify_signature_rejects_missing_prefix() {
    assert!(!verify_signature(b"a", b"hello", "deadbeef"));
}

#[test]
fn verify_signature_rejects_garbage_hex() {
    assert!(!verify_signature(b"a", b"hello", "sha256=not-hex!"));
}

fn subscription(event: &str, target: &str) -> GitHubWebhookSubscription {
    GitHubWebhookSubscription {
        repo: "kgatilin/archai".into(),
        events: vec![event.into()],
        deliver_to: target.into(),
    }
}

#[test]
fn matching_targets_with_action() {
    let cfg = GitHubWebhookConfig {
        secret: "s".into(),
        subscriptions: vec![subscription("pull_request.closed", "agent:kira")],
    };
    assert_eq!(
        matching_targets(&cfg, "kgatilin/archai", "pull_request", Some("closed")),
        vec!["agent:kira"]
    );
    assert!(matching_targets(&cfg, "kgatilin/archai", "pull_request", Some("opened")).is_empty());
    assert!(matching_targets(&cfg, "other/repo", "pull_request", Some("closed")).is_empty());
}

#[test]
fn matching_targets_bare_event() {
    let cfg = GitHubWebhookConfig {
        secret: "s".into(),
        subscriptions: vec![subscription("ping", "agent:kira")],
    };
    assert_eq!(matching_targets(&cfg, "kgatilin/archai", "ping", None), vec!["agent:kira"]);
}

#[test]
fn matching_targets_fan_out() {
    let cfg = GitHubWebhookConfig {
        secret: "s".into(),
        subscriptions: vec![
            subscription("pull_request.closed", "agent:kira"),
            subscription("pull_request.closed", "agent:dev"),
        ],
    };
    assert_eq!(
        matching_targets(&cfg, "kgatilin/archai", "pull_request", Some("closed")),
        vec!["agent:kira", "agent:dev"]
    );
}

#[test]
fn dedupe_blocks_repeat_within_ttl() {
    let mut d = DeliveryDedupe::new();
    assert!(d.check_and_record("abc", 1000));
    assert!(!d.check_and_record("abc", 1100));
}

#[test]
fn dedupe_permits_after_ttl() {
    let mut d = DeliveryDedupe::new();
    assert!(d.check_and_record("abc", 1000));
    assert!(d.check_and_record("abc", 1000 + DELIVERY_TTL_SECS + 1));
}

#[test]
fn build_summary_pr_closed() {
    let payload = json(
        r#"{"pull_request": {
            "number": 42,
            "title": "fix: thing",
            "html_url": "https://github.com/x/y/pull/42"
        }}"#,
    );
    let s = build_summary("x/y", "pull_request", Some("closed"), &payload);
    assert!(s.contains("pull_request.closed"));
    assert!(s.contains("#42"));
    assert!(s.contains("fix: thing"));
}

#[test]
fn build_metadata_extracts_fields() {
    let payload = json(
        r#"{
            "sender": {"login": "alice"},
            "pull_request": {
                "number": 7,
                "title": "t",
                "state": "closed",
                "merged": true,
                "html_url": "u",
                "user": {"login": "bob"}
            }
        }"#,
    );
    let m = value(&build_metadata("x/y", "pull_request", Some("closed"), "d-1", &payload));
    assert_eq!(m["event"], "pull_request");
    assert_eq!(m["action"], "closed");
    assert_eq!(m["repo"], "x/y");
    assert_eq!(m["delivery_id"], "d-1");
    assert_eq!(m["pull_request"]["number"], 7);
    assert_eq!(m["pull_request"]["merged"], true);
    assert_eq!(m["sender"], "alice");
}

fn webhook_config() -> GitHubWebhookConfig {
    GitHubWebhookConfig {
        secret: "s3".into(),
        subscriptions: vec![subscription("pull_request.closed", "agent:kira")],
    }
}

const BODY: &str = r#"{
    "action": "closed",
    "repository": {"full_name": "kgatilin/archai"},
    "pull_request": {"number": 3, "title": "t", "html_url": "u"}
}"#;

#[test]
fn signed_deliveries_are_published_once() {
    let cfg = webhook_config();
    let header = sign(b"s3", BODY.as_bytes());
    let req = WebhookRequest {
        signature: Some(&header),
        event: Some("pull_request"),
        delivery_id: Some("d-1"),
        body: BODY.as_bytes(),
    };
    let mut seen = DeliveryDedupe::new();
    let (status, sent) = github_webhook(Some(&cfg), &req, &mut seen, 100);
    assert_eq!(status, WebhookStatus::Accepted);
    assert_eq!(sent.len(), 1);
    assert_eq!(sent[0].target, "agent:kira");
    assert!(sent[0].summary.contains("#3"));
    assert_eq!(value(&sent[0].metadata)["delivery_id"], "d-1");
    let (status, sent) = github_webhook(Some(&cfg), &req, &mut seen, 101);
    assert_eq!(status, WebhookStatus::Accepted);
    assert!(sent.is_empty());
}

#[test]
fn refused_deliveries_publish_nothing() {
    let cfg = webhook_config();
    let mut seen = DeliveryDedupe::new();
    let header = sign(b"s3", BODY.as_bytes());
    let req = |signature, event, id, body| WebhookRequest {
        signature,
        event,
        delivery_id: id,
        body,
    };
    let body = BODY.as_bytes();
    let (status, _) =
        github_webhook(None, &req(Some(&header), Some("ping"), Some("d"), body), &mut seen, 1);
    assert_eq!(status, WebhookStatus::NotFound);
    let (status, _) =
        github_webhook(Some(&cfg), &req(None, Some("ping"), Some("d"), body), &mut seen, 1);
    assert_eq!(status, WebhookStatus::Unauthorized);
    let (status, _) =
        github_webhook(Some(&cfg), &req(Some(&header), None, Some("d"), body), &mut seen, 1);
    assert_eq!(status, WebhookStatus::BadRequest);
    let bad = b"not json";
    let header = sign(b"s3", bad);
    let (status, sent) =
        github_webhook(Some(&cfg), &req(Some(&header), Some("ping"), Some("d"), bad), &mut seen, 1);
    assert_eq!(status, WebhookStatus::BadRequest);
    assert!(sent.is_empty());
    assert_eq!(check_request(Some(&cfg), true, "ping", "d"), WebhookStatus::Accepted);
    assert_eq!(publish_delivery(&cfg, "ping", "d", None).0, WebhookStatus::BadRequest);
}

// ─── Static assets ──────────────────────────────────────────────────────────

#[test]
fn htmx_js_served_with_js_content_type() {
    let resp = htmx_js("var htmx=1");
    assert_eq!(resp.status, 200);
    assert!(resp.content_type.starts_with("application/javascript"));
    assert_eq!(resp.cache_control, STATIC_CACHE_CONTROL);
    assert_eq!(resp.body, "var htmx=1");
    assert_eq!(htmx_sse_js("x").content_type, resp.content_type);
}

#[test]
fn dashboard_css_served_with_css_content_type() {
    let resp = dashboard_css("body{}");
    assert_eq!(resp.status, 200);
    assert!(resp.content_type.starts_with("text/css"));
}
