use deskd::federation::forward::{Delivery, ForwardMiddleware, PeerConnections};
use deskd::federation::frame::FederationFrame;
use deskd::federation::glob;
use deskd::federation::hub::{
    admits, on_hello, FirstLine, HelloOutcome, HubSession, LineEvent, MAX_SUBSCRIBE_PATTERN_BYTES,
};
use deskd::federation::keepalive::TickAction;
use deskd::federation::peer::{
    after_attempt, hello, on_welcome, Backoff, DialStep, FirstReply, HubLine, PeerAction,
    PeerDialerConfig, PeerSession, SessionExit, WelcomeOutcome,
};
use deskd::federation::preflight::{
    plan_bind, preflight_or_error, resolve_tailscale_bind, BindPlan, CliTailnetIdentity,
    TailnetPeer, TailnetStatus,
};
use deskd::federation::registry::{default_path, PeerRecord, PeerRegistry};
use deskd::federation::routing::RoutingTable;
use deskd::json::Json;
use deskd::json_text::{pretty, read_json, write_json};
use deskd::message::{BusMessage, BusMetadata};
use deskd::names::NameSet;

// ─── Globs ──────────────────────────────────────────────────────────────────

#[test]
fn exact_match() {
    assert!(glob::matches("voice.recorded", "voice.recorded"));
    assert!(!glob::matches("voice.recorded", "voice.recorded.partial"));
    assert!(!glob::matches("voice.recorded", "voice"));
    assert!(!glob::matches("voice.recorded", "voice.published"));
}

#[test]
fn star_matches_one_segment() {
    assert!(glob::matches("voice.*", "voice.recorded"));
    assert!(glob::matches("voice.*", "voice.published"));
    assert!(!glob::matches("voice.*", "voice.recorded.partial"));
    assert!(!glob::matches("voice.*", "voice"));
}

#[test]
fn star_in_middle() {
    assert!(glob::matches("a.*.c", "a.b.c"));
    assert!(glob::matches("a.*.c", "a.x.c"));
    assert!(!glob::matches("a.*.c", "a.b.d"));
    assert!(!glob::matches("a.*.c", "a.b.c.d"));
}

#[test]
fn gt_matches_one_or_more_trailing_segments() {
    assert!(glob::matches("phone.>", "phone.voice"));
    assert!(glob::matches("phone.>", "phone.voice.recorded"));
    assert!(glob::matches("phone.>", "phone.voice.recorded.partial"));
    assert!(!glob::matches("phone.>", "phone"));
}

#[test]
fn gt_only_valid_at_end() {
    assert!(!glob::matches("phone.>.recorded", "phone.voice.recorded"));
}

#[test]
fn empty_inputs_never_match() {
    assert!(!glob::matches("", "anything"));
    assert!(!glob::matches("voice.*", ""));
    assert!(!glob::matches("", ""));
}

#[test]
fn star_does_not_cross_segment_boundary() {
    assert!(!glob::matches("a.*", "a.b.c"));
}

#[test]
fn table_driven_cases() {
    let cases: &[(&str, &str, bool)] = &[
        ("voice.*", "voice.recorded", true),
        ("voice.*", "voice.recorded.partial", false),
        ("phone.>", "phone.voice.recorded", true),
        ("phone.>", "phone", false),
        ("agent.dev.completed", "agent.dev.completed", true),
        ("agent.dev.completed", "agent.dev", false),
        ("agent.dev.completed", "agent.dev.completed.extra", false),
        ("*.voice.recorded", "phone.voice.recorded", true),
        ("*.voice.recorded", "mac.voice.recorded", true),
        ("*.voice.recorded", "phone.cursor.recorded", false),
        ("*.*", "a.b", true),
        ("*.*", "a", false),
        (">", "phone.voice", true),
        (">", "phone", true),
    ];
    for (pat, topic, expected) in cases {
        assert_eq!(glob::matches(pat, topic), *expected, "pattern={pat} topic={topic}");
    }
}

// ─── Routing ────────────────────────────────────────────────────────────────

#[test]
fn subscribe_and_match() {
    let mut t = RoutingTable::new();
    t.subscribe("mac", "voice.*");
    let peers = t.match_topic("voice.recorded");
    assert!(peers.contains("mac"));
    assert_eq!(peers.len(), 1);
}

#[test]
fn match_dedupes_overlapping_patterns() {
    let mut t = RoutingTable::new();
    t.subscribe("mac", "voice.*");
    t.subscribe("mac", "voice.recorded");
    let peers = t.match_topic("voice.recorded");
    assert_eq!(peers.len(), 1);
    assert!(peers.contains("mac"));
}

#[test]
fn multiple_peers_on_same_pattern() {
    let mut t = RoutingTable::new();
    t.subscribe("mac", "voice.*");
    t.subscribe("phone", "voice.*");
    let peers = t.match_topic("voice.recorded");
    assert_eq!(peers.len(), 2);
}

#[test]
fn unsubscribe_removes_mapping() {
    let mut t = RoutingTable::new();
    t.subscribe("mac", "voice.*");
    t.unsubscribe("mac", "voice.*");
    assert!(t.match_topic("voice.recorded").is_empty());
    assert_eq!(t.pattern_subscription_count(), 0);
}

#[test]
fn drop_peer_removes_all_subscriptions() {
    let mut t = RoutingTable::new();
    t.subscribe("mac", "voice.*");
    t.subscribe("mac", "agent.dev.completed");
    t.subscribe("phone", "voice.*");
    t.drop_peer("mac");
    let peers = t.match_topic("voice.recorded");
    assert_eq!(peers.len(), 1);
    assert!(peers.contains("phone"));
    assert!(t.match_topic("agent.dev.completed").is_empty());
}

#[test]
fn inbox_routing() {
    let mut t = RoutingTable::new();
    t.subscribe_inbox("mac", "personal");
    let peers = t.match_inbox("inbox/personal");
    assert_eq!(peers.len(), 1);
    assert!(peers.contains("mac"));
    let peers = t.match_inbox("inbox/personal@mac");
    assert!(peers.contains("mac"));
    assert!(t.match_inbox("voice.recorded").is_empty());
}

#[test]
fn drop_peer_clears_inboxes_too() {
    let mut t = RoutingTable::new();
    t.subscribe_inbox("mac", "personal");
    t.drop_peer("mac");
    assert!(t.match_inbox("inbox/personal").is_empty());
}

#[test]
fn snapshot_is_stable_sorted() {
    let mut t = RoutingTable::new();
    t.subscribe("b", "y.*");
    t.subscribe("a", "x.*");
    t.subscribe("c", "x.*");
    let snap = t.snapshot_patterns();
    assert_eq!(snap.len(), 2);
    assert_eq!(snap[0].0, "x.*");
    assert_eq!(snap[0].1, vec!["a".to_string(), "c".to_string()]);
    assert_eq!(snap[1].0, "y.*");
}

#[test]
fn repeated_subscription_counts_once() {
    let mut t = RoutingTable::new();
    t.subscribe("mac", "voice.*");
    t.subscribe("mac", "voice.*");
    assert_eq!(t.pattern_subscription_count(), 1);
    t.unsubscribe("mac", "voice.*");
    assert_eq!(t.pattern_subscription_count(), 0);
}

#[test]
fn unsubscribing_an_inbox_removes_it() {
    let mut t = RoutingTable::new();
    t.subscribe_inbox("mac", "personal");
    t.unsubscribe_inbox("mac", "personal");
    assert!(t.match_inbox("inbox/personal").is_empty());
}

// ─── Frames ─────────────────────────────────────────────────────────────────

#[test]
fn hello_roundtrip() {
    let frame = FederationFrame::Hello {
        peer_name: "mac".into(),
        deskd_version: "0.1.0".into(),
        capabilities: vec!["basic".into()],
    };
    let line = frame.to_line();
    assert!(line.ends_with('\n'));
    let trimmed = line.trim_end();
    let back = FederationFrame::parse(trimmed).unwrap();
    match back {
        FederationFrame::Hello { peer_name, deskd_version, capabilities } => {
            assert_eq!(peer_name, "mac");
            assert_eq!(deskd_version, "0.1.0");
            assert_eq!(capabilities, vec!["basic".to_string()]);
        }
        _ => panic!("expected Hello"),
    }
}

#[test]
fn welcome_roundtrip() {
    let frame = FederationFrame::Welcome { hub_name: "vps".into(), replay_supported: false };
    let line = frame.to_line();
    let back = FederationFrame::parse(line.trim_end()).unwrap();
    match back {
        FederationFrame::Welcome { hub_name, replay_supported } => {
            assert_eq!(hub_name, "vps");
            assert!(!replay_supported);
        }
        _ => panic!("expected Welcome"),
    }
}

#[test]
fn ping_pong_roundtrip() {
    let ping_line = FederationFrame::Ping.to_line();
    let pong_line = FederationFrame::Pong.to_line();
    assert!(matches!(
        FederationFrame::parse(ping_line.trim_end()).unwrap(),
        FederationFrame::Ping
    ));
    assert!(matches!(
        FederationFrame::parse(pong_line.trim_end()).unwrap(),
        FederationFrame::Pong
    ));
}

#[test]
fn bus_message_roundtrip_preserves_wire_shape() {
    let inner = BusMessage {
        id: "msg-1".into(),
        source: "agent-a".into(),
        target: "agent-b".into(),
        payload: read_json("{\"text\": \"hi\"}").unwrap(),
        reply_to: Some("agent-a".into()),
        metadata: BusMetadata { priority: 5, fresh: false },
    };
    let frame = FederationFrame::BusMessage(inner.copy());
    let line = frame.to_line();
    let parsed: serde_json::Value = serde_json::from_str(line.trim_end()).unwrap();
    assert_eq!(parsed["type"], "bus_message");
    assert_eq!(parsed["id"], "msg-1");
    assert_eq!(parsed["source"], "agent-a");
    assert_eq!(parsed["target"], "agent-b");

    let back = FederationFrame::parse(line.trim_end()).unwrap();
    match back {
        FederationFrame::BusMessage(m) => {
            assert_eq!(m.id, "msg-1");
            assert_eq!(m.source, "agent-a");
            assert_eq!(m, inner);
        }
        _ => panic!("expected BusMessage"),
    }
}

#[test]
fn subscribe_roundtrip() {
    let frame = FederationFrame::Subscribe { pattern: "voice.*".into() };
    let line = frame.to_line();
    assert!(line.contains("\"type\":\"subscribe\""));
    let back = FederationFrame::parse(line.trim_end()).unwrap();
    match back {
        FederationFrame::Subscribe { pattern } => assert_eq!(pattern, "voice.*"),
        _ => panic!("expected Subscribe"),
    }
}

#[test]
fn unsubscribe_roundtrip() {
    let frame = FederationFrame::Unsubscribe { pattern: "voice.*".into() };
    let line = frame.to_line();
    assert!(line.contains("\"type\":\"unsubscribe\""));
    let back = FederationFrame::parse(line.trim_end()).unwrap();
    assert!(matches!(back, FederationFrame::Unsubscribe { .. }));
}

#[test]
fn subscribe_inbox_roundtrip() {
    let frame = FederationFrame::SubscribeInbox { name: "personal".into() };
    let line = frame.to_line();
    assert!(line.contains("\"type\":\"subscribe_inbox\""));
    let back = FederationFrame::parse(line.trim_end()).unwrap();
    match back {
        FederationFrame::SubscribeInbox { name } => assert_eq!(name, "personal"),
        _ => panic!("expected SubscribeInbox"),
    }
}

#[test]
fn forward_roundtrip_preserves_origin_and_inner() {
    let inner = BusMessage {
        id: "msg-7".into(),
        source: "agent.x".into(),
        target: "voice.recorded".into(),
        payload: read_json("{\"transcript\": \"hi\"}").unwrap(),
        reply_to: None,
        metadata: BusMetadata { priority: 5, fresh: false },
    };
    let frame = FederationFrame::Forward { origin: "phone".into(), message: inner };
    let line = frame.to_line();
    let parsed: serde_json::Value = serde_json::from_str(line.trim_end()).unwrap();
    assert_eq!(parsed["type"], "forward");
    assert_eq!(parsed["origin"], "phone");
    assert_eq!(parsed["message"]["id"], "msg-7");
    let back = FederationFrame::parse(line.trim_end()).unwrap();
    match back {
        FederationFrame::Forward { origin, message } => {
            assert_eq!(origin, "phone");
            assert_eq!(message.id, "msg-7");
            assert_eq!(message.target, "voice.recorded");
        }
        _ => panic!("expected Forward"),
    }
}

#[test]
fn floats_in_a_payload_come_back() {
    let message = BusMessage {
        id: "m1".into(),
        source: "a\nb".into(),
        target: "inbox/x".into(),
        payload: read_json(r#"{"share":0.25,"small":1e-7,"list":[-0.5,3]}"#).unwrap(),
        reply_to: None,
        metadata: BusMetadata { priority: 5, fresh: false },
    };
    let frame = FederationFrame::Forward { origin: "mac".into(), message };
    let line = frame.to_line();
    assert_eq!(line.matches('\n').count(), 1);
    assert_eq!(FederationFrame::parse(line.trim_end()), Some(frame));
}

#[test]
fn no_key_has_a_meaning_of_its_own() {
    for key in ["$serde_json::private::RawValue", "$serde_json::private::Number"] {
        let v = Json::List(vec![Json::Object(vec![(key.to_string(), Json::Text("1".into()))])]);
        let text = write_json(&v);
        assert!(text.contains(key));
        assert_eq!(read_json(&text), Some(v));
    }
}

#[test]
fn deep_values_are_written_in_full() {
    let mut v = Json::Object(vec![("k".into(), Json::Number(7))]);
    for _ in 0..200 {
        v = Json::List(vec![v]);
    }
    let text = write_json(&v);
    assert_eq!(text, format!("{}{{\"k\":7}}{}", "[".repeat(200), "]".repeat(200)));
    assert!(pretty(&v).contains("\"k\": 7"));
}

#[test]
fn nesting_is_limited() {
    let nested = |depth: usize| {
        let mut v = Json::List(vec![]);
        for _ in 1..depth {
            v = Json::List(vec![v]);
        }
        v
    };
    assert_eq!(read_json(&write_json(&nested(127))), Some(nested(127)));
    assert_eq!(read_json(&write_json(&nested(128))), None);
}

#[test]
fn unknown_type_rejected() {
    assert!(FederationFrame::parse("{\"type\":\"goodbye\"}").is_none());
}

#[test]
fn malformed_json_rejected() {
    assert!(FederationFrame::parse("not json").is_none());
}

// ─── Forwarding ─────────────────────────────────────────────────────────────

fn msg(target: &str) -> BusMessage {
    BusMessage {
        id: "m-1".into(),
        source: "agent.x".into(),
        target: target.into(),
        payload: Json::Object(Vec::new()),
        reply_to: None,
        metadata: BusMetadata { priority: 5, fresh: false },
    }
}

fn reaches(sent: &Vec<Delivery>, peer: &str) -> bool {
    sent.iter().any(|d| d.peer == peer)
}

#[test]
fn fanout_skips_origin() {
    let mut mw = ForwardMiddleware::for_test("local");
    mw.peers.insert("mac");
    mw.peers.insert("phone");
    mw.routing.subscribe("mac", "voice.*");
    mw.routing.subscribe("phone", "voice.*");
    let sent = mw.fanout("phone", "voice.recorded", &msg("voice.recorded"));
    assert!(reaches(&sent, "mac"));
    assert!(!reaches(&sent, "phone"));
}

#[test]
fn fanout_local_uses_local_origin() {
    let mut mw = ForwardMiddleware::for_test("local");
    mw.peers.insert("mac");
    mw.routing.subscribe("mac", "voice.*");
    let sent = mw.fanout_local("voice.recorded", &msg("voice.recorded"));
    assert_eq!(sent.len(), 1);
    assert_eq!(sent[0].peer, "mac");
    match &sent[0].frame {
        FederationFrame::Forward { origin, message } => {
            assert_eq!(origin, "local");
            assert_eq!(message.target, "voice.recorded");
        }
        _ => panic!("expected Forward"),
    }
}

#[test]
fn fanout_excludes_non_matching_peers() {
    let mut mw = ForwardMiddleware::for_test("local");
    mw.peers.insert("mac");
    mw.peers.insert("phone");
    mw.routing.subscribe("mac", "voice.*");
    let sent = mw.fanout_local("voice.recorded", &msg("voice.recorded"));
    assert!(reaches(&sent, "mac"));
    assert!(!reaches(&sent, "phone"));
}

#[test]
fn handle_inbound_injects_and_does_not_loop_back_to_sender() {
    let mut mw = ForwardMiddleware::new(RoutingTable::new(), PeerConnections::new(), "local");
    let mut session = HubSession::start("mac", 0, &mut mw);
    mw.routing.subscribe("mac", "voice.*");
    let event = LineEvent::Frame(FederationFrame::Forward {
        origin: "mac".into(),
        message: msg("voice.recorded"),
    });
    let outcome = session.on_line(&event, 1, &mut mw);
    assert!(!reaches(&outcome.deliveries, "mac"));
    let seen = outcome.inject.unwrap();
    assert_eq!(seen.origin, "mac");
    assert_eq!(seen.message.target, "voice.recorded");
    assert!(mw.handle_inbound("mac", "mac", &msg("voice.recorded")).is_empty());
}

#[test]
fn handle_inbound_forwards_to_other_peers() {
    let mut mw = ForwardMiddleware::for_test("local");
    mw.peers.insert("mac");
    mw.peers.insert("phone");
    mw.routing.subscribe("mac", "voice.*");
    mw.routing.subscribe("phone", "voice.*");
    let sent = mw.handle_inbound("mac", "mac", &msg("voice.recorded"));
    assert!(!reaches(&sent, "mac"));
    assert!(reaches(&sent, "phone"));
}

#[test]
fn inbox_targets_route_via_inbox_table() {
    let mut mw = ForwardMiddleware::for_test("local");
    mw.peers.insert("mac");
    mw.routing.subscribe_inbox("mac", "personal");
    let sent = mw.fanout_local("inbox/personal", &msg("inbox/personal"));
    assert!(reaches(&sent, "mac"));
    let sent = mw.fanout_local("inbox/personal@mac", &msg("inbox/personal@mac"));
    assert!(reaches(&sent, "mac"));
}

#[test]
fn drop_peer_via_routing_table_clears_subscriptions() {
    let mut mw = ForwardMiddleware::for_test("local");
    mw.peers.insert("mac");
    mw.routing.subscribe("mac", "voice.*");
    mw.routing.drop_peer("mac");
    mw.peers.remove("mac");
    let sent = mw.fanout_local("voice.recorded", &msg("voice.recorded"));
    assert!(sent.is_empty());
    assert!(!mw.peers.get("mac"));
    assert!(mw.peers.connected().is_empty());
}

// ─── Hub ────────────────────────────────────────────────────────────────────

#[test]
fn hello_welcome_roundtrip_and_registry_persist() {
    let line = hello(&PeerDialerConfig {
        hub_addr: "127.0.0.1:7770".into(),
        peer_name: "mac".into(),
        reconnect_backoff_secs: vec![],
        deskd_version: "0.1.0".into(),
    })
    .to_line();
    match on_hello(&FirstLine::of_line(line.trim_end()), "vps") {
        HelloOutcome::Welcome { peer_name, reply } => {
            assert_eq!(peer_name, "mac");
            assert_eq!(
                reply,
                FederationFrame::Welcome { hub_name: "vps".into(), replay_supported: false }
            );
            let mut registry = PeerRegistry::in_memory();
            registry.upsert_on_hello(&peer_name, Some("100.64.0.1"), 1);
            assert_eq!(registry.lookup("mac").unwrap().name, "mac");
        }
        _ => panic!("expected a welcome"),
    }
}

#[test]
fn first_frame_not_hello_drops_connection() {
    let first = FirstLine::of_line(FederationFrame::Ping.to_line().trim_end());
    assert!(!matches!(on_hello(&first, "vps"), HelloOutcome::Welcome { .. }));
    assert!(matches!(on_hello(&FirstLine::of_line("nonsense"), "vps"), HelloOutcome::Fail(_)));
    assert!(!matches!(on_hello(&FirstLine::Closed, "vps"), HelloOutcome::Welcome { .. }));
}

fn subscribe_line(pattern: &str) -> LineEvent {
    let frame = FederationFrame::Subscribe { pattern: pattern.into() };
    LineEvent::of_line(frame.to_line().trim_end())
}

#[test]
fn subscribe_frame_registers_in_routing_table() {
    let mut mw = ForwardMiddleware::for_test("vps");
    let mut session = HubSession::start("mac", 0, &mut mw);
    assert_eq!(session.peer_name(), "mac");
    let outcome = session.on_line(&subscribe_line("voice.*"), 1, &mut mw);
    assert!(!outcome.close);
    assert!(mw.routing.match_topic("voice.recorded").contains("mac"));
}

#[test]
fn disconnect_drops_subscriptions() {
    let mut mw = ForwardMiddleware::for_test("vps");
    let mut session = HubSession::start("mac", 0, &mut mw);
    session.on_line(&subscribe_line("voice.*"), 1, &mut mw);
    assert!(mw.routing.match_topic("voice.recorded").contains("mac"));
    assert!(session.on_line(&LineEvent::Closed, 2, &mut mw).close);
    session.close(&mut mw);
    assert!(!mw.routing.match_topic("voice.recorded").contains("mac"));
    assert!(!mw.peers.get("mac"));
}

#[test]
fn oversize_subscribe_pattern_is_dropped() {
    let mut mw = ForwardMiddleware::for_test("vps");
    let mut session = HubSession::start("mac", 0, &mut mw);
    let huge = "a".repeat(MAX_SUBSCRIBE_PATTERN_BYTES + 1);
    assert!(!session.on_line(&subscribe_line(&huge), 1, &mut mw).close);
    session.on_line(&subscribe_line("voice.*"), 2, &mut mw);
    assert!(mw.routing.match_topic("voice.recorded").contains("mac"));
    assert!(!mw.routing.match_topic(&huge).contains("mac"));
    assert_eq!(mw.routing.pattern_subscription_count(), 1);
}

#[test]
fn hub_answers_a_ping_with_a_pong() {
    let mut mw = ForwardMiddleware::for_test("vps");
    let mut session = HubSession::start("mac", 0, &mut mw);
    let outcome = session.on_line(&LineEvent::Frame(FederationFrame::Ping), 1, &mut mw);
    assert_eq!(outcome.reply, Some(FederationFrame::Pong));
    let outcome = session.on_line(&LineEvent::Closed, 2, &mut mw);
    assert!(outcome.close);
}

#[test]
fn silent_peers_are_dropped() {
    let mut mw = ForwardMiddleware::for_test("vps");
    let mut session = HubSession::start("mac", 0, &mut mw);
    assert!(matches!(session.on_tick(30_000_000_000), TickAction::Ping));
    let mut dropped = false;
    for i in 2..10u128 {
        if matches!(session.on_tick(i * 30_000_000_000), TickAction::Drop) {
            dropped = true;
            break;
        }
    }
    assert!(dropped);
}

#[test]
fn the_hub_admits_known_addresses_and_loopback() {
    let mut allowed = NameSet::new();
    allowed.insert("100.64.0.2");
    assert!(admits("100.64.0.2", false, &allowed));
    assert!(!admits("100.64.0.9", false, &allowed));
    assert!(admits("127.0.0.1", true, &allowed));
}

// ─── Peers ──────────────────────────────────────────────────────────────────

#[test]
fn peers_wait_for_a_welcome() {
    let welcome = FederationFrame::Welcome { hub_name: "vps".into(), replay_supported: false };
    let first = FirstReply::of_line(welcome.to_line().trim_end());
    assert!(matches!(on_welcome(&first), WelcomeOutcome::Ready));
    let first = FirstReply::of_line(FederationFrame::Ping.to_line().trim_end());
    assert!(matches!(on_welcome(&first), WelcomeOutcome::Disconnected));
    assert!(matches!(on_welcome(&FirstReply::TimedOut), WelcomeOutcome::Disconnected));
    assert!(matches!(on_welcome(&FirstReply::ReadFailed), WelcomeOutcome::Fail(_)));
}

#[test]
fn peers_answer_pings() {
    let mut session = PeerSession::new(0);
    let line = HubLine::of_line(FederationFrame::Ping.to_line().trim_end());
    match session.on_line(&line, 1) {
        PeerAction::Reply(f) => assert_eq!(f, FederationFrame::Pong),
        _ => panic!("expected a reply"),
    }
    assert!(matches!(session.on_line(&HubLine::Closed, 2), PeerAction::Disconnect));
    assert!(matches!(session.on_line(&HubLine::of_line("nonsense"), 3), PeerAction::Disconnect));
    let line = HubLine::of_line(FederationFrame::Pong.to_line().trim_end());
    assert!(matches!(session.on_line(&line, 3), PeerAction::Ignore));
    assert!(matches!(session.on_tick(4), TickAction::Ping));
}

#[test]
fn backoff_ends_with_the_last_delay() {
    let mut b = Backoff::new(&vec![1, 5]);
    assert_eq!(b.next_delay(), 1);
    assert_eq!(b.next_delay(), 5);
    assert_eq!(b.next_delay(), 5);
    assert!(matches!(after_attempt(&Ok(SessionExit::Cancelled), &mut b), DialStep::Stop));
    assert_eq!(after_attempt(&Err("refused".into()), &mut b), DialStep::Wait(5));
}

// ─── Preflight ──────────────────────────────────────────────────────────────

fn status_with(backend_state: &str, local_ips: &[&str], peer_ips: &[&[&str]]) -> TailnetStatus {
    let mut peer = Vec::new();
    for (i, ips) in peer_ips.iter().enumerate() {
        let tailscale_ips = ips.iter().map(|s| s.to_string()).collect();
        peer.push((format!("peer-{i}"), TailnetPeer { tailscale_ips }));
    }
    TailnetStatus {
        backend_state: backend_state.to_string(),
        tailscale_ips: local_ips.iter().map(|s| s.to_string()).collect(),
        peer,
    }
}

#[test]
fn allowed_ips_includes_local_and_peers() {
    let status = status_with(
        "Running",
        &["100.64.0.1"],
        &[&["100.64.0.2"], &["100.64.0.3", "fd7a:115c::3"]],
    );
    let ips = status.allowed_ips();
    assert!(ips.contains("100.64.0.1"));
    assert!(ips.contains("100.64.0.2"));
    assert!(ips.contains("100.64.0.3"));
    assert!(ips.contains("fd7a:115c::3"));
}

#[test]
fn is_healthy_only_for_running() {
    let mut status = TailnetStatus { backend_state: "Running".into(), ..Default::default() };
    assert!(status.is_healthy());
    status.backend_state = "NeedsLogin".into();
    assert!(!status.is_healthy());
    status.backend_state = "Stopped".into();
    assert!(!status.is_healthy());
}

#[test]
fn preflight_passes_when_running() {
    let status = preflight_or_error(Ok(status_with("Running", &["100.64.0.1"], &[]))).unwrap();
    assert!(status.is_healthy());
}

#[test]
fn preflight_fails_when_not_running() {
    let s = preflight_or_error(Ok(status_with("NeedsLogin", &[], &[]))).unwrap_err();
    assert!(s.contains("NeedsLogin"), "actual: {s}");
}

#[test]
fn preflight_fails_when_daemon_unreachable() {
    let s = preflight_or_error(Err("tailscale binary not found".into())).unwrap_err();
    assert!(s.contains("tailscale binary not found"), "actual: {s}");
}

#[test]
fn resolve_bind_passes_explicit_ip() {
    match plan_bind("127.0.0.1:7770") {
        Ok(BindPlan::Listen(a)) => assert_eq!(a, "127.0.0.1:7770"),
        _ => panic!("expected an address"),
    }
}

#[test]
fn resolve_bind_missing_port_rejected() {
    let s = plan_bind("tailscale0").unwrap_err();
    assert!(s.contains("missing port"), "actual: {s}");
}

#[test]
fn resolve_bind_asks_tailscale() {
    let port = match plan_bind("tailscale0:7770") {
        Ok(BindPlan::AskTailscale { port }) => port,
        _ => panic!("expected a question"),
    };
    let output = "100.64.0.1\nfd7a::1\n";
    assert_eq!(resolve_tailscale_bind(output, &port, "tailscale").unwrap(), "100.64.0.1:7770");
    assert_eq!(
        resolve_tailscale_bind("", &port, "tailscale").unwrap_err(),
        "`tailscale ip -4` returned empty output"
    );
    assert_eq!(CliTailnetIdentity::new().binary, "tailscale");
}

#[test]
fn parse_real_tailscale_status_subset() {
    let json = r#"{
        "BackendState": "Running",
        "TailscaleIPs": ["100.64.0.1", "fd7a:115c:a1e0::1"],
        "Peer": {
            "abc123": { "TailscaleIPs": ["100.64.0.5"] },
            "def456": { "TailscaleIPs": ["100.64.0.6"] }
        }
    }"#;
    let s = TailnetStatus::parse(json.as_bytes()).unwrap();
    assert!(s.is_healthy());
    let ips = s.allowed_ips();
    assert!(ips.contains("100.64.0.1"));
    assert!(ips.contains("100.64.0.5"));
    assert!(ips.contains("100.64.0.6"));
}

#[test]
fn parse_tolerates_unknown_fields() {
    let json = r#"{
        "BackendState": "Running",
        "TailscaleIPs": ["100.64.0.1"],
        "Peer": {},
        "Something": "extra",
        "Version": "1.x"
    }"#;
    let s = TailnetStatus::parse(json.as_bytes()).unwrap();
    assert!(s.is_healthy());
}

#[test]
fn reports_default_what_they_leave_out() {
    let s = TailnetStatus::parse(b"{}").unwrap();
    assert_eq!(s.backend_state, "");
    assert!(s.tailscale_ips.is_empty());
    assert!(s.peer.is_empty());
    assert_eq!(TailnetStatus::parse(b"[]").unwrap().backend_state, "");
    let s = TailnetStatus::parse(br#"["Running",["a"],{"k":[["b"]]}]"#).unwrap();
    assert_eq!(s.backend_state, "Running");
    assert_eq!(s.peer[0].1.tailscale_ips, vec!["b".to_string()]);
    for bad in ["", "[1]", r#"["Running",[],{},{}]"#, r#"{"BackendState":1}"#, r#"{"TailscaleIPs":null}"#, r#"{"Peer":{"a":1}}"#]
    {
        assert_eq!(
            TailnetStatus::parse(bad.as_bytes()).unwrap_err(),
            "parse tailscale status JSON"
        );
    }
}

// ─── Registry ───────────────────────────────────────────────────────────────

#[test]
fn upsert_inserts_new_row() {
    let mut r = PeerRegistry::in_memory();
    r.upsert_on_hello("mac", Some("100.64.0.5"), 1000);
    let row = r.lookup("mac").unwrap();
    assert_eq!(row.name, "mac");
    assert_eq!(row.tailnet_addr.as_deref(), Some("100.64.0.5"));
    assert_eq!(row.last_seen_ts, 1000);
    assert!(row.last_msg_id.is_none());
}

#[test]
fn upsert_updates_existing_row_preserving_last_msg_id() {
    let mut r = PeerRegistry::in_memory();
    r.upsert_on_hello("mac", Some("100.64.0.5"), 1000);
    let mut row = r.lookup("mac").unwrap();
    row.last_msg_id = Some("cursor-xyz".into());
    r.restore(row);
    r.upsert_on_hello("mac", Some("100.64.0.6"), 2000);
    let row = r.lookup("mac").unwrap();
    assert_eq!(row.tailnet_addr.as_deref(), Some("100.64.0.6"));
    assert_eq!(row.last_seen_ts, 2000);
    assert_eq!(row.last_msg_id.as_deref(), Some("cursor-xyz"));
    assert_eq!(r.list().len(), 1);
}

#[test]
fn lookup_missing_returns_none() {
    let r = PeerRegistry::in_memory();
    assert!(r.lookup("ghost").is_none());
}

#[test]
fn list_orders_by_last_seen_desc() {
    let mut r = PeerRegistry::in_memory();
    r.upsert_on_hello("a", Some("100.64.0.1"), 100);
    r.upsert_on_hello("b", Some("100.64.0.2"), 300);
    r.upsert_on_hello("c", Some("100.64.0.3"), 200);
    let list = r.list();
    assert_eq!(list.len(), 3);
    assert_eq!(list[0].name, "b");
    assert_eq!(list[1].name, "c");
    assert_eq!(list[2].name, "a");
}

#[test]
fn a_hello_leaves_other_peers_alone() {
    let mut r = PeerRegistry::in_memory();
    r.restore(PeerRecord {
        name: "vps".into(),
        tailnet_addr: None,
        last_seen_ts: 5,
        last_msg_id: Some("m1".into()),
    });
    r.upsert_on_hello("mac", None, 9);
    let vps = r.lookup("vps").unwrap();
    assert_eq!(vps.last_seen_ts, 5);
    assert_eq!(vps.last_msg_id.as_deref(), Some("m1"));
    assert_eq!(default_path(Some("/home/kira")), "/home/kira/.deskd/federation.sqlite");
    assert_eq!(default_path(None), "/tmp/.deskd/federation.sqlite");
}
