//! Federation peer: the dialing side of a link to a hub.
use super::frame::{frame_at, FederationFrame, FrameModel};
use super::keepalive::{Keepalive, KeepaliveModel, TickAction};
use crate::text::texts;
use vstd::prelude::*;
use vstd::string::*;

verus! {

/// Configuration of the dialer.
#[derive(Debug, Clone)]
pub struct PeerDialerConfig {
    /// `host:port` of the hub.
    pub hub_addr: String,
    /// The name that this peer announces.
    pub peer_name: String,
    /// Delays between attempts, in seconds. The last one stays in force.
    pub reconnect_backoff_secs: Vec<u64>,
    /// The version that this peer announces.
    pub deskd_version: String,
}

/// How a session ends.
#[derive(Debug, Clone, Copy, PartialEq, Eq)]
pub enum SessionExit {
    /// The dialer was cancelled.
    Cancelled,
    /// The link is gone.
    Disconnected,
}

/// The `Hello` of a peer.
pub fn hello(cfg: &PeerDialerConfig) -> (r: FederationFrame)
    ensures
        r@ == (FrameModel::Hello {
            peer_name: cfg.peer_name@,
            deskd_version: cfg.deskd_version@,
            capabilities: Seq::empty(),
        }),
{
    let capabilities: Vec<String> = Vec::new();
    assert(texts(capabilities@) =~= Seq::<Seq<char>>::empty());
    FederationFrame::Hello {
        peer_name: cfg.peer_name.clone(),
        deskd_version: cfg.deskd_version.clone(),
        capabilities,
    }
}

/// What came as the first line from the hub.
#[derive(Debug)]
pub enum FirstReply {
    Frame(FederationFrame),
    Malformed,
    Closed,
    ReadFailed,
    TimedOut,
}

impl FirstReply {
    /// What a line brings.
    pub fn of_line(line: &str) -> (r: FirstReply)
        ensures
            match frame_at(line@) {
                Some(f) => r matches FirstReply::Frame(x) && x@ == f,
                None => r is Malformed,
            },
    {
        match FederationFrame::parse(line) {
            Some(f) => FirstReply::Frame(f),
            None => FirstReply::Malformed,
        }
    }
}

/// What to do about the first line from the hub.
#[derive(Debug)]
pub enum WelcomeOutcome {
    /// The attempt fails with an error.
    Fail(String),
    /// The attempt ends.
    Disconnected,
    /// The handshake is complete.
    Ready,
}

/// Whether `r` is what to do about the first line of a hub.
pub open spec fn welcomes(
    first: FirstReply,
    r: WelcomeOutcome,
) -> bool {
    match first {
        FirstReply::Frame(frame) => if frame@ is Welcome {
            r is Ready
        } else {
            r is Disconnected
        },
        FirstReply::ReadFailed => r matches WelcomeOutcome::Fail(e) && e@ == "read welcome"@,
        _ => r is Disconnected,
    }
}

/// What to do about the first line from the hub: only a `Welcome` completes the
/// handshake.
pub fn on_welcome(first: &FirstReply) -> (r: WelcomeOutcome)
    ensures
        welcomes(*first, r),
{
    match first {
        FirstReply::Frame(frame) => match frame {
            FederationFrame::Welcome { hub_name: _, replay_supported: _ } => WelcomeOutcome::Ready,
            _ => WelcomeOutcome::Disconnected,
        },
        FirstReply::ReadFailed => WelcomeOutcome::Fail(String::from_str("read welcome")),
        _ => WelcomeOutcome::Disconnected,
    }
}

/// What came as a line from the hub.
#[derive(Debug)]
pub enum HubLine {
    Frame(FederationFrame),
    Malformed,
    Closed,
}

impl HubLine {
    /// What a line brings.
    pub fn of_line(line: &str) -> (r: HubLine)
        ensures
            match frame_at(line@) {
                Some(f) => r matches HubLine::Frame(x) && x@ == f,
                None => r is Malformed,
            },
    {
        match FederationFrame::parse(line) {
            Some(f) => HubLine::Frame(f),
            None => HubLine::Malformed,
        }
    }
}

/// What to do about a line from the hub.
#[derive(Debug)]
pub enum PeerAction {
    /// Go on.
    Ignore,
    /// Send this frame.
    Reply(FederationFrame),
    /// End the session.
    Disconnect,
}

/// A session with a hub.
pub struct PeerSession {
    keepalive: Keepalive,
}

impl View for PeerSession {
    type V = KeepaliveModel;

    closed spec fn view(&self) -> KeepaliveModel {
        self.keepalive@
    }
}

/// Whether a tick asks for `r` and leaves the link in the state `after`.
pub open spec fn hub_tick(
    before: KeepaliveModel,
    now: nat,
    r: TickAction,
    after: KeepaliveModel,
) -> bool {
    &&& r == (if before.expires(now) {
        TickAction::Drop
    } else {
        TickAction::Ping
    })
    &&& after == (if before.expires(now) {
        before
    } else {
        before.ticked(now)
    })
}

/// Whether a line of the hub leaves the link in the state `after`.
pub open spec fn hears(
    before: KeepaliveModel,
    line: HubLine,
    now: nat,
    after: KeepaliveModel,
) -> bool {
    after == (if line matches HubLine::Frame(FederationFrame::Pong) {
        KeepaliveModel { last_pong: now, missed: 0 }
    } else {
        before
    })
}

/// Whether `r` is what to do about a line of the hub.
pub open spec fn acts(line: HubLine, r: PeerAction) -> bool {
    match line {
        HubLine::Frame(frame) => if frame@ is Ping {
            r matches PeerAction::Reply(reply) && reply@ is Pong
        } else {
            r is Ignore
        },
        _ => r is Disconnect,
    }
}

impl PeerSession {
    /// A session that starts at `now`.
    pub fn new(now: u128) -> (r: PeerSession)
        ensures
            r@ == (KeepaliveModel { last_pong: now as nat, missed: 0 }),
    {
        PeerSession { keepalive: Keepalive::new(now) }
    }

    /// A keepalive tick at `now`.
    pub fn on_tick(&mut self, now: u128) -> (r: TickAction)
        ensures
            hub_tick(old(self)@, now as nat, r, final(self)@),
    {
        self.keepalive.tick(now)
    }

    /// A line that came at `now`. A ping is answered; bus frames and handshake
    /// frames are passed over; a malformed frame ends the session.
    pub fn on_line(&mut self, line: &HubLine, now: u128) -> (r: PeerAction)
        ensures
            acts(*line, r),
            hears(old(self)@, *line, now as nat, final(self)@),
    {
        let frame = match line {
            HubLine::Frame(frame) => frame,
            _ => {
                return PeerAction::Disconnect;
            },
        };
        match frame {
            FederationFrame::Pong => {
                self.keepalive.pong(now);
                PeerAction::Ignore
            },
            FederationFrame::Ping => PeerAction::Reply(FederationFrame::Pong),
            _ => PeerAction::Ignore,
        }
    }
}

/// The delays of a dialer whose configuration names none.
pub open spec fn default_backoff() -> Seq<u64> {
    seq![1u64, 2u64, 5u64, 15u64, 60u64]
}

/// The delays of a dialer.
pub open spec fn backoff_of(configured: Seq<u64>) -> Seq<u64> {
    if configured.len() == 0 {
        default_backoff()
    } else {
        configured
    }
}

/// The delay after a number of attempts: the list is gone through once, and its
/// last delay stays in force.
pub open spec fn delay_after(delays: Seq<u64>, attempt: nat) -> u64 {
    if attempt < delays.len() {
        delays[attempt as int]
    } else {
        delays.last()
    }
}

/// The delays between the attempts of a dialer.
pub struct Backoff {
    delays: Vec<u64>,
    attempt: usize,
}

impl Backoff {
    #[verifier::type_invariant]
    spec fn wf(self) -> bool {
        self.delays@.len() > 0
    }

    /// The delays.
    pub closed spec fn delays(self) -> Seq<u64> {
        self.delays@
    }

    /// The number of delays handed out.
    pub closed spec fn attempt(self) -> nat {
        self.attempt as nat
    }

    /// The delays of a configuration.
    pub fn new(configured: &Vec<u64>) -> (r: Backoff)
        ensures
            r.delays() == backoff_of(configured@),
            r.attempt() == 0,
    {
        let mut delays: Vec<u64> = Vec::new();
        if configured.len() == 0 {
            delays.push(1);
            delays.push(2);
            delays.push(5);
            delays.push(15);
            delays.push(60);
            assert(delays@ =~= default_backoff());
        } else {
            let mut i: usize = 0;
            while i < configured.len()
                invariant
                    i <= configured@.len(),
                    delays@ == configured@.take(i as int),
                decreases configured@.len() - i,
            {
                delays.push(configured[i]);
                i += 1;
                assert(delays@ =~= configured@.take(i as int));
            }
            assert(delays@ =~= configured@);
        }
        Backoff { delays, attempt: 0 }
    }

    /// The delay before the next attempt, in seconds.
    pub fn next_delay(&mut self) -> (r: u64)
        ensures
            r == delay_after(old(self).delays(), old(self).attempt()),
            final(self).delays() == old(self).delays(),
            final(self).attempt() == if old(self).attempt() < usize::MAX {
                old(self).attempt() + 1
            } else {
                old(self).attempt()
            },
    {
        proof {
            use_type_invariant(&*self);
        }
        let n: usize = self.delays.len();
        let i: usize = if self.attempt < n {
            self.attempt
        } else {
            n - 1
        };
        let delay: u64 = self.delays[i];
        if self.attempt < usize::MAX {
            self.attempt = self.attempt + 1;
        }
        delay
    }
}

/// Once the list of delays is exhausted, the last delay stays in force.
pub proof fn last_delay_stays(delays: Seq<u64>, attempt: nat)
    requires
        delays.len() > 0,
        attempt >= delays.len() - 1,
    ensures
        delay_after(delays, attempt) == delays.last(),
{
}

/// What a dialer does after a session.
#[derive(Debug, Clone, Copy, PartialEq, Eq)]
pub enum DialStep {
    /// Stop.
    Stop,
    /// Wait so many seconds and dial again.
    Wait(u64),
}

/// Whether `r` is the step after an attempt that ended so, and `after` the attempts then.
pub open spec fn steps(
    outcome: Result<SessionExit, String>,
    before: Backoff,
    r: DialStep,
    after: Backoff,
) -> bool {
    match outcome {
        Ok(SessionExit::Cancelled) => r == DialStep::Stop && after == before,
        _ => {
            &&& r == DialStep::Wait(delay_after(before.delays(), before.attempt()))
            &&& after.delays() == before.delays()
            &&& before.attempt() < usize::MAX ==> after.attempt() == before.attempt() + 1
        },
    }
}

/// What a dialer does after an attempt: it stops where it was cancelled, and
/// waits for the next attempt where the session ended or the attempt failed.
pub fn after_attempt(outcome: &Result<SessionExit, String>, backoff: &mut Backoff) -> (r: DialStep)
    ensures
        steps(*outcome, *old(backoff), r, *final(backoff)),
{
    match outcome {
        Ok(SessionExit::Cancelled) => DialStep::Stop,
        _ => DialStep::Wait(backoff.next_delay()),
    }
}

/// A hub is accepted exactly where its first line is a `Welcome`.
pub proof fn only_a_welcome_opens_the_link(first: FirstReply, r: WelcomeOutcome)
    requires
        welcomes(first, r),
    ensures
        r is Ready <==> (first matches FirstReply::Frame(f) && f@ is Welcome),
        r is Fail <==> first is ReadFailed,
{
}

/// Attempts are made after the configured delays, one after the other, and then always after
/// the last one; without a configuration, after one, two, five, fifteen and sixty seconds.
pub proof fn delays_follow_the_list(configured: Seq<u64>, i: nat)
    ensures
        configured.len() > 0 ==> backoff_of(configured) == configured,
        backoff_of(Seq::empty()) == seq![1u64, 2u64, 5u64, 15u64, 60u64],
        i < configured.len() ==> delay_after(configured, i) == configured[i as int],
        configured.len() > 0 && i >= configured.len() ==> delay_after(configured, i)
            == configured[configured.len() - 1],
{
}

/// A ping of the hub is answered with a pong, other frames need no answer, and a line that
/// is no frame ends the link.
pub proof fn hub_pings_are_answered(line: HubLine, r: PeerAction)
    requires
        acts(line, r),
    ensures
        r is Reply <==> (line matches HubLine::Frame(f) && f@ is Ping),
        r matches PeerAction::Reply(f) ==> f@ is Pong,
        r is Disconnect <==> !(line is Frame),
{
}

/// A hub that answers within a minute is kept and pinged; one that stays silent for longer
/// is dropped at the second tick that finds it so.
pub proof fn silent_hub_is_dropped(
    before: KeepaliveModel,
    now: nat,
    r: TickAction,
    after: KeepaliveModel,
)
    requires
        hub_tick(before, now, r, after),
        before.missed < 2,
    ensures
        now <= before.last_pong + 60 * 1_000_000_000 ==> r is Ping && after == before,
        now > before.last_pong + 60 * 1_000_000_000 ==> (r is Drop <==> before.missed == 1),
        r is Ping && now > before.last_pong + 60 * 1_000_000_000 ==> after.missed == before.missed
            + 1 && after.last_pong == before.last_pong,
{
}

/// A pong starts the minute anew; no other line does.
pub proof fn pong_keeps_the_hub(
    before: KeepaliveModel,
    line: HubLine,
    now: nat,
    after: KeepaliveModel,
    r: TickAction,
    later: nat,
    last: KeepaliveModel,
)
    requires
        hears(before, line, now, after),
        hub_tick(after, later, r, last),
    ensures
        (line matches HubLine::Frame(f) && f@ is Pong) && later <= now + 60 * 1_000_000_000
            ==> r is Ping && last.missed == 0,
        !(line matches HubLine::Frame(f) && f@ is Pong) ==> after == before,
{
}

/// An attempt that was cancelled is the last; every other is followed by one more, after
/// the delay that is due.
pub proof fn only_cancelling_stops(
    outcome: Result<SessionExit, String>,
    before: Backoff,
    r: DialStep,
    after: Backoff,
)
    requires
        steps(outcome, before, r, after),
    ensures
        r is Stop <==> outcome == Ok::<SessionExit, String>(SessionExit::Cancelled),
        r matches DialStep::Wait(d) ==> (before.attempt() < before.delays().len() ==> d
            == before.delays()[before.attempt() as int]),
{
}

} // verus!
