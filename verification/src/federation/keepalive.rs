//! Keepalive of a federation link.
//!
//! Each side sends a ping at every tick. A tick that finds the last pong more
//! than two intervals back counts as a miss, and the second miss ends the link.
use vstd::prelude::*;

verus! {

/// The time between two pings, in seconds.
pub const KEEPALIVE_INTERVAL: u64 = 30;

/// Two intervals, in nanoseconds.
pub const PONG_DEADLINE_NANOS: u128 = 60_000_000_000;

/// What a tick asks for.
#[derive(Debug, Clone, Copy, PartialEq, Eq)]
pub enum TickAction {
    /// End the link.
    Drop,
    /// Send a ping.
    Ping,
}

/// The state of a keepalive.
pub struct KeepaliveModel {
    /// When the last pong came, in nanoseconds.
    pub last_pong: nat,
    /// The misses since then.
    pub missed: nat,
}

impl KeepaliveModel {
    /// Whether a tick at `now` finds the last pong too far back.
    pub open spec fn overdue(self, now: nat) -> bool {
        now > self.last_pong + PONG_DEADLINE_NANOS
    }

    /// Whether a tick at `now` ends the link.
    pub open spec fn expires(self, now: nat) -> bool {
        self.overdue(now) && self.missed == 1
    }

    /// The state after a tick at `now` that does not end the link.
    pub open spec fn ticked(self, now: nat) -> KeepaliveModel {
        KeepaliveModel {
            last_pong: self.last_pong,
            missed: if self.overdue(now) {
                self.missed + 1
            } else {
                self.missed
            },
        }
    }
}

/// The keepalive of one link.
pub struct Keepalive {
    last_pong: u128,
    missed: u8,
}

impl View for Keepalive {
    type V = KeepaliveModel;

    closed spec fn view(&self) -> KeepaliveModel {
        KeepaliveModel { last_pong: self.last_pong as nat, missed: self.missed as nat }
    }
}

impl Keepalive {
    #[verifier::type_invariant]
    spec fn wf(self) -> bool {
        self.missed < 2
    }

    /// The keepalive of a link that starts at `now`.
    pub fn new(now: u128) -> (r: Keepalive)
        ensures
            r@ == (KeepaliveModel { last_pong: now as nat, missed: 0 }),
    {
        Keepalive { last_pong: now, missed: 0 }
    }

    /// Notes a pong.
    pub fn pong(&mut self, now: u128)
        ensures
            final(self)@ == (KeepaliveModel { last_pong: now as nat, missed: 0 }),
    {
        *self = Keepalive { last_pong: now, missed: 0 };
    }

    /// A tick at `now`.
    pub fn tick(&mut self, now: u128) -> (r: TickAction)
        ensures
            old(self)@.missed < 2,
            r == (if old(self)@.expires(now as nat) {
                TickAction::Drop
            } else {
                TickAction::Ping
            }),
            final(self)@ == (if old(self)@.expires(now as nat) {
                old(self)@
            } else {
                old(self)@.ticked(now as nat)
            }),
    {
        proof {
            use_type_invariant(&*self);
        }
        if now > self.last_pong && now - self.last_pong > PONG_DEADLINE_NANOS {
            if self.missed == 1 {
                return TickAction::Drop;
            }
            *self = Keepalive { last_pong: self.last_pong, missed: self.missed + 1 };
        }
        TickAction::Ping
    }
}

/// A link from which no pong comes is dropped by the second tick after the
/// deadline.
pub proof fn silent_link_is_dropped(k: KeepaliveModel, t1: nat, t2: nat)
    requires
        k.missed < 2,
        k.overdue(t1),
        k.overdue(t2),
    ensures
        k.expires(t1) || k.ticked(t1).expires(t2),
{
}

/// A link with a pong within the deadline is not dropped.
pub proof fn answering_link_is_kept(k: KeepaliveModel, now: nat)
    requires
        !k.overdue(now),
    ensures
        !k.expires(now),
        k.ticked(now) == k,
{
}

/// A link is overdue where its last answer is more than a minute ago.
pub proof fn links_are_overdue_after_a_minute(k: KeepaliveModel, now: nat)
    ensures
        k.overdue(now) <==> now > k.last_pong + 60 * 1_000_000_000,
        k.expires(now) ==> k.overdue(now),
        k.ticked(now).last_pong == k.last_pong,
{
}

/// A link may miss one answer: it is the second miss that ends it.
pub proof fn one_miss_is_forgiven(k: KeepaliveModel, now: nat)
    ensures
        k.missed == 0 ==> !k.expires(now),
        k.missed == 1 ==> (k.expires(now) <==> k.overdue(now)),
        k.overdue(now) ==> k.ticked(now).missed == k.missed + 1,
{
}

} // verus!
