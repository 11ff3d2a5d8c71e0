//! Federation hub: what the hub does with a peer's connection.
//!
//! A connection is admitted by its source address, then its first line must
//! be a `Hello`. From then on a session reads frames: control frames update the
//! routing table, and bus messages are published here and forwarded to the
//! other peers that they concern. When the session ends, the peer loses its
//! subscriptions.
use super::forward::{
    delivers, deliveries_reach_exactly, Delivery, ForwardMiddleware, ForwardModel,
};
use super::frame::{frame_at, FederationFrame, FrameModel};
use super::keepalive::{Keepalive, KeepaliveModel, TickAction};
use super::glob::topic_matches;
use super::routing::{inbox_target_names_its_inbox, Routes};
use crate::message::{BusMessage, MessageModel};
use crate::names::NameSet;
use crate::text::{byte_len, utf8_len};
use vstd::prelude::*;
use vstd::string::*;

verus! {

/// How long to wait for the `Hello` of a connection, in seconds.
pub const HELLO_TIMEOUT: u64 = 10;

/// The most bytes that a pattern or an inbox name of a subscription may have.
pub const MAX_SUBSCRIBE_PATTERN_BYTES: usize = 1024;

/// Configuration of a hub.
#[derive(Debug, Clone)]
pub struct HubConfig {
    /// Where to listen, such as `tailscale0:7770`.
    pub bind: String,
    /// The name of this hub in its `Welcome`.
    pub hub_name: String,
    /// The `tailscale` program.
    pub tailscale_binary: String,
    /// Idle peer timeout in seconds.
    pub peer_timeout_secs: u64,
}

/// Whether a connection from an address is admitted.
pub open spec fn admitted(ip: Seq<char>, is_loopback: bool, allowed: Set<Seq<char>>) -> bool {
    is_loopback || allowed.contains(ip)
}

/// Whether a connection from an address is admitted: loopback addresses and
/// the allowed addresses do.
pub fn admits(peer_ip: &str, is_loopback: bool, allowed: &NameSet) -> (r: bool)
    ensures
        r == admitted(peer_ip@, is_loopback, allowed@),
{
    is_loopback || allowed.contains(peer_ip)
}

/// What came as the first line of a connection.
#[derive(Debug)]
pub enum FirstLine {
    Frame(FederationFrame),
    Malformed,
    Closed,
    ReadFailed,
    TimedOut,
}

impl FirstLine {
    /// What a line brings.
    pub fn of_line(line: &str) -> (r: FirstLine)
        ensures
            match frame_at(line@) {
                Some(f) => r matches FirstLine::Frame(x) && x@ == f,
                None => r is Malformed,
            },
    {
        match FederationFrame::parse(line) {
            Some(f) => FirstLine::Frame(f),
            None => FirstLine::Malformed,
        }
    }
}

/// What to do about the first line of a connection.
#[derive(Debug)]
pub enum HelloOutcome {
    /// End the connection with an error.
    Fail(String),
    /// End the connection.
    Close,
    /// Note the peer, answer with the frame, and start a session.
    Welcome { peer_name: String, reply: FederationFrame },
}

/// Whether `r` is what to do about the first line of a connection.
pub open spec fn greets(first: FirstLine, hub_name: Seq<char>, r: HelloOutcome) -> bool {
    match first {
        FirstLine::Frame(FederationFrame::Hello { peer_name, .. }) => {
            r matches HelloOutcome::Welcome { peer_name: n, reply } && n@ == peer_name@ && reply@
                == (FrameModel::Welcome { hub_name, replay_supported: false })
        },
        FirstLine::Frame(_) => r is Close,
        FirstLine::Malformed => r matches HelloOutcome::Fail(e) && e@ == "parse hello"@,
        FirstLine::ReadFailed => r matches HelloOutcome::Fail(e) && e@ == "read hello"@,
        FirstLine::Closed => r is Close,
        FirstLine::TimedOut => r is Close,
    }
}

/// What to do about the first line of a connection: only a `Hello` is welcome.
pub fn on_hello(first: &FirstLine, hub_name: &str) -> (r: HelloOutcome)
    ensures
        greets(*first, hub_name@, r),
{
    match first {
        FirstLine::Frame(frame) => match frame {
            FederationFrame::Hello { peer_name, deskd_version: _, capabilities: _ } => {
                HelloOutcome::Welcome {
                    peer_name: peer_name.clone(),
                    reply: FederationFrame::Welcome {
                        hub_name: String::from_str(hub_name),
                        replay_supported: false,
                    },
                }
            },
            _ => HelloOutcome::Close,
        },
        FirstLine::Malformed => HelloOutcome::Fail(String::from_str("parse hello")),
        FirstLine::ReadFailed => HelloOutcome::Fail(String::from_str("read hello")),
        FirstLine::Closed => HelloOutcome::Close,
        FirstLine::TimedOut => HelloOutcome::Close,
    }
}

/// What came as a line of a session.
#[derive(Debug)]
pub enum LineEvent {
    Frame(FederationFrame),
    Malformed,
    Closed,
}

impl LineEvent {
    /// What a line brings.
    pub fn of_line(line: &str) -> (r: LineEvent)
        ensures
            match frame_at(line@) {
                Some(f) => r matches LineEvent::Frame(x) && x@ == f,
                None => r is Malformed,
            },
    {
        match FederationFrame::parse(line) {
            Some(f) => LineEvent::Frame(f),
            None => LineEvent::Malformed,
        }
    }
}

/// A bus message to publish here.
#[derive(Debug)]
pub struct Injection {
    pub origin: String,
    pub message: BusMessage,
}

/// What to do about a line of a session.
#[derive(Debug)]
pub struct LineOutcome {
    /// End the session.
    pub close: bool,
    /// Note in the registry that the peer was seen.
    pub touch: bool,
    /// Send this frame to the peer.
    pub reply: Option<FederationFrame>,
    /// Publish this message here.
    pub inject: Option<Injection>,
    /// Send these frames to other peers.
    pub deliveries: Vec<Delivery>,
}

/// The routing table after a control frame of `peer`. A subscription with an
/// oversize pattern or name changes nothing.
pub open spec fn routes_after(routes: Routes, peer: Seq<char>, frame: FrameModel) -> Routes {
    match frame {
        FrameModel::Subscribe { pattern } => if byte_len(pattern) <= MAX_SUBSCRIBE_PATTERN_BYTES {
            Routes {
                patterns: routes.patterns.insert((pattern, peer)),
                inboxes: routes.inboxes,
            }
        } else {
            routes
        },
        FrameModel::Unsubscribe { pattern } => if byte_len(pattern)
            <= MAX_SUBSCRIBE_PATTERN_BYTES {
            Routes {
                patterns: routes.patterns.remove((pattern, peer)),
                inboxes: routes.inboxes,
            }
        } else {
            routes
        },
        FrameModel::SubscribeInbox { name } => if byte_len(name) <= MAX_SUBSCRIBE_PATTERN_BYTES {
            Routes { patterns: routes.patterns, inboxes: routes.inboxes.insert((name, peer)) }
        } else {
            routes
        },
        _ => routes,
    }
}

/// The origin and the message of a frame that carries a bus message. A message
/// without an origin counts as the peer's own.
pub open spec fn carried(peer: Seq<char>, frame: FrameModel) -> Option<(Seq<char>, MessageModel)> {
    match frame {
        FrameModel::Forward { origin, message } => Some((origin, message)),
        FrameModel::BusMessage(message) => Some((peer, message)),
        _ => None,
    }
}

/// What the middleware holds after an event on the line of `peer`.
pub open spec fn middleware_after(m: ForwardModel, peer: Seq<char>, event: LineEvent) -> ForwardModel {
    ForwardModel {
        routes: match event {
            LineEvent::Frame(frame) => routes_after(m.routes, peer, frame@),
            _ => m.routes,
        },
        ..m
    }
}

/// Whether a connection of `peer` is to do `r` about an event on its line.
pub open spec fn reacts(m: ForwardModel, peer: Seq<char>, event: LineEvent, r: LineOutcome) -> bool {
    match event {
        LineEvent::Frame(frame) => r.answers(m, peer, frame@),
        _ => r.close && !r.touch && r.quiet(),
    }
}

impl LineOutcome {
    /// Whether nothing but `close` and `touch` is asked for.
    pub open spec fn quiet(self) -> bool {
        self.reply is None && self.inject is None && self.deliveries@.len() == 0
    }

    /// Whether this is what the frame of `peer` asks for.
    pub open spec fn answers(self, m: ForwardModel, peer: Seq<char>, frame: FrameModel) -> bool {
        &&& !self.close
        &&& self.touch
        &&& match self.reply {
            Some(reply) => frame is Ping && reply@ is Pong,
            None => !(frame is Ping),
        }
        &&& match carried(peer, frame) {
            Some((origin, message)) => {
                &&& self.inject matches Some(i) && i.origin@ == origin && i.message@ == message
                &&& delivers(
                    self.deliveries@,
                    origin,
                    message,
                    m.recipients(message.target, peer, origin),
                )
            },
            None => self.inject is None && self.deliveries@.len() == 0,
        }
    }
}

/// The session of a connected peer.
pub struct HubSession {
    peer_name: String,
    keepalive: Keepalive,
}

/// The state of a session.
pub struct SessionModel {
    pub peer_name: Seq<char>,
    pub keepalive: KeepaliveModel,
}

/// The state of a session after an event on its line at `now`: a pong is noted.
pub open spec fn session_after(s: SessionModel, event: LineEvent, now: nat) -> SessionModel {
    SessionModel {
        peer_name: s.peer_name,
        keepalive: if event matches LineEvent::Frame(FederationFrame::Pong) {
            KeepaliveModel { last_pong: now, missed: 0 }
        } else {
            s.keepalive
        },
    }
}

/// What to do at a keepalive tick of a session at `now`, and its state from then on.
pub open spec fn tick_of(s: SessionModel, now: nat) -> (TickAction, SessionModel) {
    if s.keepalive.expires(now) {
        (TickAction::Drop, s)
    } else {
        (
            TickAction::Ping,
            SessionModel { peer_name: s.peer_name, keepalive: s.keepalive.ticked(now) },
        )
    }
}

/// The middleware and the session after a peer connected at `now`.
pub open spec fn started(m: ForwardModel, peer: Seq<char>, now: nat) -> (ForwardModel, SessionModel) {
    (
        ForwardModel { connected: m.connected.insert(peer), ..m },
        SessionModel { peer_name: peer, keepalive: KeepaliveModel { last_pong: now, missed: 0 } },
    )
}

impl View for HubSession {
    type V = SessionModel;

    closed spec fn view(&self) -> SessionModel {
        SessionModel { peer_name: self.peer_name@, keepalive: self.keepalive@ }
    }
}

impl HubSession {
    /// Starts the session of a peer at `now`: the peer is connected from then on.
    pub fn start(peer_name: &str, now: u128, middleware: &mut ForwardMiddleware) -> (r: HubSession)
        ensures
            (final(middleware)@, r@) == started(old(middleware)@, peer_name@, now as nat),
    {
        middleware.peers.insert(peer_name);
        HubSession { peer_name: String::from_str(peer_name), keepalive: Keepalive::new(now) }
    }

    /// The name of the peer.
    pub fn peer_name(&self) -> (r: &str)
        ensures
            r@ == self@.peer_name,
    {
        &self.peer_name
    }

    /// A keepalive tick at `now`.
    pub fn on_tick(&mut self, now: u128) -> (r: TickAction)
        ensures
            (r, final(self)@) == tick_of(old(self)@, now as nat),
    {
        self.keepalive.tick(now)
    }

    /// A line that came at `now`.
    pub fn on_line(
        &mut self,
        event: &LineEvent,
        now: u128,
        middleware: &mut ForwardMiddleware,
    ) -> (r: LineOutcome)
        ensures
            reacts(old(middleware)@, old(self)@.peer_name, *event, r),
            final(middleware)@ == middleware_after(
                old(middleware)@,
                old(self)@.peer_name,
                *event,
            ),
            final(self)@ == session_after(old(self)@, *event, now as nat),
    {
        let mut out = LineOutcome {
            close: false,
            touch: true,
            reply: None,
            inject: None,
            deliveries: Vec::new(),
        };
        let frame = match event {
            LineEvent::Frame(frame) => frame,
            _ => {
                out.close = true;
                out.touch = false;
                return out;
            },
        };
        match frame {
            FederationFrame::Pong => {
                self.keepalive.pong(now);
            },
            FederationFrame::Ping => {
                out.reply = Some(FederationFrame::Pong);
            },
            FederationFrame::Subscribe { pattern } => {
                if utf8_len(pattern) <= MAX_SUBSCRIBE_PATTERN_BYTES {
                    middleware.routing.subscribe(&self.peer_name, pattern);
                }
            },
            FederationFrame::Unsubscribe { pattern } => {
                if utf8_len(pattern) <= MAX_SUBSCRIBE_PATTERN_BYTES {
                    middleware.routing.unsubscribe(&self.peer_name, pattern);
                }
            },
            FederationFrame::SubscribeInbox { name } => {
                if utf8_len(name) <= MAX_SUBSCRIBE_PATTERN_BYTES {
                    middleware.routing.subscribe_inbox(&self.peer_name, name);
                }
            },
            FederationFrame::Forward { origin, message } => {
                out.deliveries = middleware.handle_inbound(&self.peer_name, origin, message);
                out.inject = Some(Injection { origin: origin.clone(), message: message.copy() });
            },
            FederationFrame::BusMessage(message) => {
                out.deliveries =
                middleware.handle_inbound(&self.peer_name, &self.peer_name, message);
                out.inject = Some(
                    Injection { origin: self.peer_name.clone(), message: message.copy() },
                );
            },
            _ => {},
        }
        out
    }

    /// Ends the session: the peer is no longer connected and loses its
    /// subscriptions.
    pub fn close(self, middleware: &mut ForwardMiddleware)
        ensures
            final(middleware)@ == old(middleware)@.without(self@.peer_name),
    {
        middleware.peers.remove(&self.peer_name);
        middleware.routing.drop_peer(&self.peer_name);
    }
}

/// No frame of any length of pattern makes the table hold a key over the limit.
pub proof fn oversize_keys_stay_out(routes: Routes, peer: Seq<char>, frame: FrameModel)
    requires
        forall|p: (Seq<char>, Seq<char>)| #[trigger]
            routes.patterns.contains(p) ==> byte_len(p.0) <= MAX_SUBSCRIBE_PATTERN_BYTES,
        forall|p: (Seq<char>, Seq<char>)| #[trigger]
            routes.inboxes.contains(p) ==> byte_len(p.0) <= MAX_SUBSCRIBE_PATTERN_BYTES,
    ensures
        forall|p: (Seq<char>, Seq<char>)| #[trigger]
            routes_after(routes, peer, frame).patterns.contains(p) ==> byte_len(p.0)
                <= MAX_SUBSCRIBE_PATTERN_BYTES,
        forall|p: (Seq<char>, Seq<char>)| #[trigger]
            routes_after(routes, peer, frame).inboxes.contains(p) ==> byte_len(p.0)
                <= MAX_SUBSCRIBE_PATTERN_BYTES,
{
}

/// A frame of one peer changes the subscriptions of no other peer.
pub proof fn frames_touch_own_subscriptions_only(
    routes: Routes,
    peer: Seq<char>,
    frame: FrameModel,
    key: Seq<char>,
    other: Seq<char>,
)
    requires
        other != peer,
    ensures
        routes_after(routes, peer, frame).patterns.contains((key, other))
            == routes.patterns.contains((key, other)),
        routes_after(routes, peer, frame).inboxes.contains((key, other))
            == routes.inboxes.contains((key, other)),
{
}


// ─── What a connection is for ───────────────────────────────────────────────

/// A connection from elsewhere is admitted exactly where its address is allowed, and
/// one from this machine always.
pub proof fn strangers_stay_out(ip: Seq<char>, allowed: Set<Seq<char>>)
    ensures
        admitted(ip, true, allowed),
        admitted(ip, false, allowed.insert(ip)),
        !admitted(ip, false, allowed.remove(ip)),
{
}

/// A connection is welcomed exactly where it begins with a `Hello`, under the name that
/// the `Hello` gives, and the answer names the hub.
pub proof fn only_a_hello_is_welcome(first: FirstLine, hub_name: Seq<char>, r: HelloOutcome)
    requires
        greets(first, hub_name, r),
    ensures
        r is Welcome <==> (first matches FirstLine::Frame(f) && f@ is Hello),
        r is Fail <==> first is Malformed || first is ReadFailed,
        r matches HelloOutcome::Welcome { peer_name, reply } ==> first matches FirstLine::Frame(f)
            && (f@ matches FrameModel::Hello { peer_name: given, .. } && peer_name@ == given) && (
        reply@ matches FrameModel::Welcome { hub_name: named, .. } && named == hub_name),
{
}

/// A peer that has connected is among the connected ones, and nothing else has
/// changed.
pub proof fn started_peer_is_connected(
    m: ForwardModel,
    peer: Seq<char>,
    now: nat,
    other: Seq<char>,
)
    ensures
        started(m, peer, now).0.connected.contains(peer),
        other != peer ==> started(m, peer, now).0.connected.contains(other)
            == m.connected.contains(other),
        started(m, peer, now).0.routes == m.routes,
        started(m, peer, now).0.local_origin == m.local_origin,
        started(m, peer, now).1.peer_name == peer,
        tick_of(started(m, peer, now).1, now).0 == TickAction::Ping,
{
}

/// A connected peer that subscribed to an inbox gets every message for that inbox, with
/// or without the name of a machine behind it, unless the message came from the peer
/// itself; its topics stay as they were.
pub proof fn inbox_subscription_brings_the_inbox(
    m: ForwardModel,
    peer: Seq<char>,
    event: LineEvent,
    name: Seq<char>,
    machine: Seq<char>,
    from: Seq<char>,
    origin: Seq<char>,
)
    requires
        event matches LineEvent::Frame(f) && f@ == (FrameModel::SubscribeInbox { name }),
        byte_len(name) <= 1024,
        !name.contains('@'),
        m.connected.contains(peer),
        from != peer,
        origin != peer,
    ensures
        ({
            let after = middleware_after(m, peer, event);
            &&& after.recipients("inbox/"@ + name, from, origin).contains(peer)
            &&& after.recipients("inbox/"@ + name + "@"@ + machine, from, origin).contains(peer)
            &&& after.routes.inbox_peers("inbox/"@ + name).contains(peer)
            &&& after.routes.patterns == m.routes.patterns
            &&& after.connected == m.connected
        }),
{
    inbox_target_names_its_inbox(name, machine);
}

/// A connected peer that subscribed to a pattern gets every message for a topic that
/// matches it, unless the message came from the peer itself; its inboxes stay as they
/// were.
pub proof fn topic_subscription_brings_the_topics(
    m: ForwardModel,
    peer: Seq<char>,
    event: LineEvent,
    pattern: Seq<char>,
    topic: Seq<char>,
    from: Seq<char>,
    origin: Seq<char>,
)
    requires
        event matches LineEvent::Frame(f) && f@ == (FrameModel::Subscribe { pattern }),
        byte_len(pattern) <= 1024,
        topic_matches(pattern, topic),
        m.connected.contains(peer),
        from != peer,
        origin != peer,
    ensures
        middleware_after(m, peer, event).recipients(topic, from, origin).contains(peer),
        middleware_after(m, peer, event).routes.topic_peers(topic).contains(peer),
        middleware_after(m, peer, event).routes.inboxes == m.routes.inboxes,
        middleware_after(m, peer, event).connected == m.connected,
{
    assert(middleware_after(m, peer, event).routes.patterns.contains((pattern, peer)));
}

/// A peer that gave up a pattern gets no topic on its account: where no other pattern of
/// the peer matches, and no inbox does, it is not among the recipients.
pub proof fn given_up_pattern_brings_nothing(
    m: ForwardModel,
    peer: Seq<char>,
    event: LineEvent,
    pattern: Seq<char>,
    topic: Seq<char>,
    from: Seq<char>,
    origin: Seq<char>,
)
    requires
        event matches LineEvent::Frame(f) && f@ == (FrameModel::Unsubscribe { pattern }),
        byte_len(pattern) <= 1024,
    ensures
        ({
            let after = middleware_after(m, peer, event);
            &&& !after.routes.patterns.contains((pattern, peer))
            &&& forall|other: Seq<char>|
                other != pattern ==> #[trigger] after.routes.patterns.contains((other, peer))
                    == m.routes.patterns.contains((other, peer))
            &&& after.routes.inboxes == m.routes.inboxes
            &&& (forall|other: Seq<char>| #[trigger]
                m.routes.patterns.contains((other, peer)) && topic_matches(other, topic)
                    ==> other == pattern) && !m.routes.inbox_peers(topic).contains(peer)
                ==> !after.recipients(topic, from, origin).contains(peer)
        }),
{
    let after = middleware_after(m, peer, event);
    if after.recipients(topic, from, origin).contains(peer) && after.routes.topic_peers(
        topic,
    ).contains(peer) {
        let other = choose|other: Seq<char>| #[trigger]
            after.routes.patterns.contains((other, peer)) && topic_matches(other, topic);
        assert(m.routes.patterns.contains((other, peer)));
        assert(other != pattern);
    }
}

/// A subscription over the limit of bytes changes nothing, and no frame changes who is
/// connected.
pub proof fn oversize_subscription_changes_nothing(
    m: ForwardModel,
    peer: Seq<char>,
    event: LineEvent,
    key: Seq<char>,
)
    requires
        event matches LineEvent::Frame(f) && (f@ == (FrameModel::Subscribe { pattern: key }) || f@
            == (FrameModel::Unsubscribe { pattern: key }) || f@ == (FrameModel::SubscribeInbox {
            name: key,
        })),
        byte_len(key) > 1024,
    ensures
        middleware_after(m, peer, event) == m,
{
}

/// Frames other than subscriptions, and lines that are no frames, change nothing in the
/// middleware.
pub proof fn other_lines_keep_the_table(m: ForwardModel, peer: Seq<char>, event: LineEvent)
    requires
        event matches LineEvent::Frame(f) ==> !(f@ is Subscribe) && !(f@ is Unsubscribe) && !(
        f@ is SubscribeInbox),
    ensures
        middleware_after(m, peer, event) == m,
{
}

/// A message that a peer sends is published here under its origin, and goes to exactly
/// those connected peers that subscribed to its target, but to neither the sender nor
/// the origin.
pub proof fn message_of_a_peer_goes_round_once(
    m: ForwardModel,
    peer: Seq<char>,
    event: LineEvent,
    r: LineOutcome,
    origin: Seq<char>,
    message: MessageModel,
    to: Seq<char>,
)
    requires
        reacts(m, peer, event, r),
        event matches LineEvent::Frame(f) && (f@ == (FrameModel::Forward { origin, message }) || (
        f@ == FrameModel::BusMessage(message) && origin == peer)),
    ensures
        r.inject matches Some(i) && i.origin@ == origin && i.message@ == message,
        (exists|k: int|
            0 <= k < r.deliveries@.len() && (#[trigger] r.deliveries@[k]).peer@ == to
                && r.deliveries@[k].frame@ == (FrameModel::Forward { origin, message }))
            <==> m.connected.contains(to) && to != peer && to != origin && (
        m.routes.topic_peers(message.target).contains(to) || m.routes.inbox_peers(
            message.target,
        ).contains(to)),
        forall|j: int, k: int|
            0 <= j < k < r.deliveries@.len() ==> (#[trigger] r.deliveries@[j]).peer@ != (
            #[trigger] r.deliveries@[k]).peer@,
        !r.close && r.reply is None,
{
    deliveries_reach_exactly(
        r.deliveries@,
        origin,
        message,
        m.recipients(message.target, peer, origin),
        to,
    );
}

/// A ping is answered with a pong, and with nothing else; only a ping is.
pub proof fn pings_are_answered(m: ForwardModel, peer: Seq<char>, event: LineEvent, r: LineOutcome)
    requires
        reacts(m, peer, event, r),
    ensures
        r.reply is Some <==> (event matches LineEvent::Frame(f) && f@ is Ping),
        r.reply matches Some(f) ==> f@ is Pong && r.inject is None && r.deliveries@.len() == 0,
{
}

/// A line that is no frame, and the end of the line, end the connection; nothing else
/// does.
pub proof fn frames_keep_the_connection(
    m: ForwardModel,
    peer: Seq<char>,
    event: LineEvent,
    r: LineOutcome,
)
    requires
        reacts(m, peer, event, r),
    ensures
        r.close <==> !(event is Frame),
        r.touch <==> event is Frame,
        r.close ==> r.inject is None && r.reply is None && r.deliveries@.len() == 0,
{
}

/// A peer that answered within the last minute is pinged and not dropped; one that has
/// been silent for longer is dropped at the second tick at the latest.
pub proof fn silent_peers_are_dropped(s: SessionModel, event: LineEvent, at: nat, t1: nat, t2: nat)
    requires
        event matches LineEvent::Frame(f) && f@ is Pong,
        s.keepalive.missed < 2,
    ensures
        ({
            let after = session_after(s, event, at);
            &&& t1 <= at + 60_000_000_000 ==> tick_of(after, t1) == (TickAction::Ping, after)
            &&& t1 > at + 60_000_000_000 && t2 > at + 60_000_000_000 ==> tick_of(after, t1).0
                == TickAction::Ping && tick_of(tick_of(after, t1).1, t2).0 == TickAction::Drop
        }),
        session_after(s, event, at).peer_name == s.peer_name,
{
}

} // verus!
