//! Forward middleware: decides which connected peers a frame goes to.
//!
//! Every forwarded frame carries the name of the peer that it came from, its
//! origin. A frame never goes back to its origin, nor to the peer on whose
//! connection it arrived.
use super::frame::{FederationFrame, FrameModel};
use super::routing::{subscriber_gets_matching_topics, Routes, RoutingTable};
use crate::message::{BusMessage, MessageModel};
use crate::names::NameSet;
use crate::text::{same, texts};
use super::glob::topic_matches;
use vstd::prelude::*;
use vstd::string::*;

verus! {

/// Capacity of the outbound channel of a peer. A frame for a peer whose channel
/// is full is dropped.
pub const PEER_CHANNEL_CAPACITY: usize = 1024;

/// The names of the connected peers.
pub struct PeerConnections {
    names: NameSet,
}

impl View for PeerConnections {
    type V = Set<Seq<char>>;

    closed spec fn view(&self) -> Set<Seq<char>> {
        self.names@
    }
}

impl PeerConnections {
    /// No peer is connected.
    pub fn new() -> (r: PeerConnections)
        ensures
            r@ == Set::<Seq<char>>::empty(),
    {
        PeerConnections { names: NameSet::new() }
    }

    /// Registers a peer.
    pub fn insert(&mut self, peer: &str)
        ensures
            final(self)@ == old(self)@.insert(peer@),
    {
        let _ = self.names.insert(peer);
    }

    /// Drops a peer.
    pub fn remove(&mut self, peer: &str)
        ensures
            final(self)@ == old(self)@.remove(peer@),
    {
        let _ = self.names.remove(peer);
    }

    /// Whether a peer is connected.
    pub fn get(&self, peer: &str) -> (r: bool)
        ensures
            r == self@.contains(peer@),
    {
        self.names.contains(peer)
    }

    /// The names of the connected peers, each once.
    pub fn connected(&self) -> (r: Vec<String>)
        ensures
            texts(r@).no_duplicates(),
            texts(r@).to_set() == self@,
    {
        self.names.names()
    }
}

/// A frame for the outbound channel of a peer.
#[derive(Debug)]
pub struct Delivery {
    pub peer: String,
    pub frame: FederationFrame,
}

/// The peers of a list of deliveries.
pub open spec fn delivery_peers(v: Seq<Delivery>) -> Seq<Seq<char>> {
    Seq::new(v.len(), |i: int| v[i].peer@)
}

/// Whether `v` delivers `message`, as a frame that came from `origin`, to each
/// peer of `to` once and to no other peer.
pub open spec fn delivers(
    v: Seq<Delivery>,
    origin: Seq<char>,
    message: MessageModel,
    to: Set<Seq<char>>,
) -> bool {
    &&& delivery_peers(v).no_duplicates()
    &&& delivery_peers(v).to_set() == to
    &&& forall|i: int|
        0 <= i < v.len() ==> (#[trigger] v[i]).frame@ == (FrameModel::Forward { origin, message })
}

/// What the forward middleware holds.
pub struct ForwardModel {
    pub routes: Routes,
    pub connected: Set<Seq<char>>,
    pub local_origin: Seq<char>,
}

impl ForwardModel {
    /// The connected peers that a frame for `target` goes to, where it came from
    /// `origin` over the connection of `from`.
    pub open spec fn recipients(
        self,
        target: Seq<char>,
        from: Seq<char>,
        origin: Seq<char>,
    ) -> Set<Seq<char>> {
        self.routes.peers_for(target).intersect(self.connected).remove(from).remove(origin)
    }

    /// The middleware after `peer` has gone.
    pub open spec fn without(self, peer: Seq<char>) -> ForwardModel {
        ForwardModel {
            routes: self.routes.without(peer),
            connected: self.connected.remove(peer),
            local_origin: self.local_origin,
        }
    }
}

/// The routing table, the connected peers, and the name of this hub.
pub struct ForwardMiddleware {
    pub routing: RoutingTable,
    pub peers: PeerConnections,
    /// The origin of the frames that are published here.
    pub local_origin: String,
}

impl View for ForwardMiddleware {
    type V = ForwardModel;

    open spec fn view(&self) -> ForwardModel {
        ForwardModel {
            routes: self.routing@,
            connected: self.peers@,
            local_origin: self.local_origin@,
        }
    }
}

impl ForwardMiddleware {
    /// The middleware over a routing table and the connected peers.
    pub fn new(routing: RoutingTable, peers: PeerConnections, local_origin: &str) -> (r:
        ForwardMiddleware)
        ensures
            r@ == (ForwardModel {
                routes: routing@,
                connected: peers@,
                local_origin: local_origin@,
            }),
    {
        ForwardMiddleware { routing, peers, local_origin: String::from_str(local_origin) }
    }

    /// The middleware over an empty routing table with no connected peer.
    pub fn for_test(local_origin: &str) -> (r: ForwardMiddleware)
        ensures
            r@ == (ForwardModel {
                routes: Routes { patterns: Set::empty(), inboxes: Set::empty() },
                connected: Set::empty(),
                local_origin: local_origin@,
            }),
    {
        ForwardMiddleware::new(RoutingTable::new(), PeerConnections::new(), local_origin)
    }

    fn deliveries(&self, target: &str, from: &str, origin: &str, msg: &BusMessage) -> (r: Vec<
        Delivery,
    >)
        ensures
            delivers(r@, origin@, msg@, self@.recipients(target@, from@, origin@)),
    {
        let mut concerned = self.routing.match_topic(target);
        let inbox = self.routing.match_inbox(target);
        concerned.extend(&inbox);
        let names = concerned.names();
        let ghost all = texts(names@);
        let ghost to = self@.recipients(target@, from@, origin@);
        let mut out: Vec<Delivery> = Vec::new();
        let mut i: usize = 0;
        while i < names.len()
            invariant
                i <= names@.len(),
                all == texts(names@),
                all.no_duplicates(),
                all.to_set() == self@.routes.peers_for(target@),
                to == self@.recipients(target@, from@, origin@),
                delivery_peers(out@).no_duplicates(),
                forall|k: int|
                    0 <= k < out@.len() ==> all.take(i as int).contains(
                        #[trigger] delivery_peers(out@)[k],
                    ) && to.contains(delivery_peers(out@)[k]),
                forall|j: int|
                    0 <= j < i && to.contains(#[trigger] all[j]) ==> delivery_peers(out@).contains(
                        all[j],
                    ),
                forall|k: int|
                    0 <= k < out@.len() ==> (#[trigger] out@[k]).frame@ == (FrameModel::Forward {
                        origin: origin@,
                        message: msg@,
                    }),
            decreases names@.len() - i,
        {
            let peer = &names[i];
            let ghost before = delivery_peers(out@);
            let ghost taken = all.take(i as int);
            proof {
                assert(all[i as int] == peer@);
                assert(all.contains(peer@));
                assert(all.to_set().contains(peer@));
                assert(all.take(i + 1) =~= taken.push(peer@));
                assert forall|x: Seq<char>| taken.contains(x) implies all.take(i + 1).contains(
                    x,
                ) by {
                    let j = choose|j: int| 0 <= j < taken.len() && taken[j] == x;
                    assert(all.take(i + 1)[j] == x);
                }
                assert(all.take(i + 1)[i as int] == peer@);
                assert(!taken.contains(peer@)) by {
                    if taken.contains(peer@) {
                        let j = choose|j: int| 0 <= j < taken.len() && taken[j] == peer@;
                        assert(all[j] == all[i as int]);
                    }
                }
            }
            if !same(peer, from) && !same(peer, origin) && self.peers.get(peer) {
                let frame = FederationFrame::Forward {
                    origin: String::from_str(origin),
                    message: msg.copy(),
                };
                out.push(Delivery { peer: peer.clone(), frame });
                proof {
                    let after = delivery_peers(out@);
                    assert(after =~= before.push(peer@));
                    assert forall|j: int|
                        0 <= j < i + 1 && to.contains(#[trigger] all[j]) implies after.contains(
                        all[j],
                    ) by {
                        if j < i {
                            assert(before.contains(all[j]));
                            let k = choose|k: int| 0 <= k < before.len() && before[k] == all[j];
                            assert(after[k] == all[j]);
                        } else {
                            assert(after[before.len() as int] == all[j]);
                        }
                    }
                    assert forall|k: int| 0 <= k < out@.len() implies all.take(i + 1).contains(
                        #[trigger] after[k],
                    ) && to.contains(after[k]) by {
                        if k < before.len() {
                            assert(after[k] == before[k]);
                        }
                    }
                }
            } else {
                assert(!to.contains(peer@));
            }
            i += 1;
        }
        proof {
            let peers = delivery_peers(out@);
            assert(all.take(i as int) =~= all);
            assert forall|x: Seq<char>| peers.to_set().contains(x) == to.contains(x) by {
                if peers.contains(x) {
                    let k = choose|k: int| 0 <= k < peers.len() && peers[k] == x;
                    assert(to.contains(peers[k]));
                }
                if to.contains(x) {
                    assert(all.to_set().contains(x));
                    let j = choose|j: int| 0 <= j < all.len() && all[j] == x;
                    assert(to.contains(all[j]));
                }
            }
            assert(peers.to_set() =~= to);
        }
        out
    }

    /// The deliveries of a frame published under `target_topic`: to every
    /// connected peer that it concerns, but for `origin`.
    pub fn fanout(&self, origin: &str, target_topic: &str, msg: &BusMessage) -> (r: Vec<Delivery>)
        ensures
            delivers(r@, origin@, msg@, self@.recipients(target_topic@, origin@, origin@)),
    {
        proof {
            assert(self@.recipients(target_topic@, origin@, origin@)
                =~= self@.routes.peers_for(target_topic@).intersect(self@.connected).remove(
                origin@,
            ));
        }
        self.deliveries(target_topic, origin, origin, msg)
    }

    /// The deliveries of a frame that is published here.
    pub fn fanout_local(&self, target_topic: &str, msg: &BusMessage) -> (r: Vec<Delivery>)
        ensures
            delivers(
                r@,
                self@.local_origin,
                msg@,
                self@.recipients(target_topic@, self@.local_origin, self@.local_origin),
            ),
    {
        self.fanout(&self.local_origin, target_topic, msg)
    }

    /// The deliveries of a frame that came from `origin` over the connection of
    /// `from_peer`. The frame is published here as well.
    pub fn handle_inbound(&self, from_peer: &str, origin: &str, msg: &BusMessage) -> (r: Vec<
        Delivery,
    >)
        ensures
            delivers(r@, origin@, msg@, self@.recipients(msg@.target, from_peer@, origin@)),
    {
        self.deliveries(&msg.target, from_peer, origin, msg)
    }
}

/// A frame goes back neither to its origin nor to the peer that sent it.
pub proof fn no_frame_loops_back(
    m: ForwardModel,
    target: Seq<char>,
    from: Seq<char>,
    origin: Seq<char>,
)
    ensures
        !m.recipients(target, from, origin).contains(origin),
        !m.recipients(target, from, origin).contains(from),
{
}

/// Every connected peer that a frame concerns gets it, but for the sender and
/// the origin; no other peer gets it.
pub proof fn recipients_are_the_concerned_peers(
    m: ForwardModel,
    target: Seq<char>,
    from: Seq<char>,
    origin: Seq<char>,
    peer: Seq<char>,
)
    ensures
        m.recipients(target, from, origin).contains(peer) <==> m.routes.peers_for(target).contains(
            peer,
        ) && m.connected.contains(peer) && peer != from && peer != origin,
{
}

/// A peer that has gone gets no frame, and the other peers get what they got.
pub proof fn gone_peer_gets_no_frame(
    m: ForwardModel,
    peer: Seq<char>,
    target: Seq<char>,
    from: Seq<char>,
    origin: Seq<char>,
)
    ensures
        m.without(peer).recipients(target, from, origin) == m.recipients(
            target,
            from,
            origin,
        ).remove(peer),
{
    super::routing::dropped_peer_gets_nothing(m.routes, peer, target);
    assert(m.without(peer).recipients(target, from, origin) =~= m.recipients(
        target,
        from,
        origin,
    ).remove(peer));
}


/// Deliveries bring the message, under its origin, to each of the peers once and to no
/// other peer.
pub proof fn deliveries_reach_exactly(
    v: Seq<Delivery>,
    origin: Seq<char>,
    message: MessageModel,
    to: Set<Seq<char>>,
    peer: Seq<char>,
)
    requires
        delivers(v, origin, message, to),
    ensures
        (exists|k: int|
            0 <= k < v.len() && (#[trigger] v[k]).peer@ == peer && v[k].frame@ == (
            FrameModel::Forward { origin, message })) <==> to.contains(peer),
        forall|j: int, k: int|
            0 <= j < k < v.len() ==> (#[trigger] v[j]).peer@ != (#[trigger] v[k]).peer@,
{
    let peers = delivery_peers(v);
    assert(peers.to_set().contains(peer) == peers.contains(peer));
    if to.contains(peer) {
        let k = choose|k: int| 0 <= k < peers.len() && peers[k] == peer;
        assert(v[k].peer@ == peer);
    }
    if exists|k: int|
        0 <= k < v.len() && (#[trigger] v[k]).peer@ == peer && v[k].frame@ == (
        FrameModel::Forward { origin, message }) {
        let k = choose|k: int|
            0 <= k < v.len() && (#[trigger] v[k]).peer@ == peer && v[k].frame@ == (
            FrameModel::Forward { origin, message });
        assert(peers[k] == peer);
    }
    assert forall|j: int, k: int| 0 <= j < k < v.len() implies (#[trigger] v[j]).peer@ != (
    #[trigger] v[k]).peer@ by {
        assert(peers[j] != peers[k]);
    }
}

/// What is published here goes to every connected peer that subscribed to it, and never
/// back to its origin.
pub proof fn subscribed_peers_get_what_is_published(
    m: ForwardModel,
    topic: Seq<char>,
    origin: Seq<char>,
    pattern: Seq<char>,
    peer: Seq<char>,
)
    requires
        m.routes.patterns.contains((pattern, peer)),
        topic_matches(pattern, topic),
        m.connected.contains(peer),
    ensures
        m.recipients(topic, origin, origin).contains(peer) <==> peer != origin,
{
    subscriber_gets_matching_topics(m.routes, peer, pattern, topic);
}

} // verus!
