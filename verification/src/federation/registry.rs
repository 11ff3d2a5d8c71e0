//! The registry of the peers that a hub has seen.
use crate::order::{
    descending, ranked, ranked_is_descending, ranked_is_permutation, sort_by_rank, Ranked,
};
use crate::text::{copy_opt, opt_str, opt_text, same};
use crate::web::audit::{join, join_path};
use vstd::prelude::*;
use vstd::string::*;

verus! {

/// What is known of a peer.
#[derive(Debug, Clone, PartialEq)]
pub struct PeerRecord {
    pub name: String,
    /// The address from which the peer came last.
    pub tailnet_addr: Option<String>,
    /// When the peer was last seen, in seconds since the Unix epoch.
    pub last_seen_ts: i64,
    /// How far the peer has read.
    pub last_msg_id: Option<String>,
}

/// The contents of what is known of a peer.
pub struct PeerModel {
    pub name: Seq<char>,
    pub tailnet_addr: Option<Seq<char>>,
    pub last_seen_ts: i64,
    pub last_msg_id: Option<Seq<char>>,
}

impl View for PeerRecord {
    type V = PeerModel;

    open spec fn view(&self) -> PeerModel {
        PeerModel {
            name: self.name@,
            tailnet_addr: opt_text(self.tailnet_addr),
            last_seen_ts: self.last_seen_ts,
            last_msg_id: opt_text(self.last_msg_id),
        }
    }
}

impl Ranked for PeerRecord {
    open spec fn rank(self) -> int {
        self.last_seen_ts as int
    }

    fn rank_value(&self) -> (r: i128) {
        self.last_seen_ts as i128
    }
}

impl PeerRecord {
    fn copy(&self) -> (r: PeerRecord)
        ensures
            r@ == self@,
    {
        PeerRecord {
            name: self.name.clone(),
            tailnet_addr: copy_opt(&self.tailnet_addr),
            last_seen_ts: self.last_seen_ts,
            last_msg_id: copy_opt(&self.last_msg_id),
        }
    }
}

/// The contents of records.
pub open spec fn peer_models(v: Seq<PeerRecord>) -> Seq<PeerModel> {
    Seq::new(v.len(), |i: int| v[i]@)
}

/// Whether no two peers have the same name.
pub open spec fn names_differ(v: Seq<PeerModel>) -> bool {
    forall|i: int, j: int| 0 <= i < j < v.len() ==> (#[trigger] v[i]).name != (#[trigger] v[j]).name
}

/// The position of the peer with a name; the number of peers where there is none.
pub open spec fn peer_index(v: Seq<PeerModel>, name: Seq<char>) -> nat
    decreases v.len(),
{
    if v.len() == 0 || v[0].name == name {
        0
    } else {
        1 + peer_index(v.skip(1), name)
    }
}

/// The peer with a name.
pub open spec fn peer_named(v: Seq<PeerModel>, name: Seq<char>) -> Option<PeerModel> {
    let i = peer_index(v, name) as int;
    if i < v.len() {
        Some(v[i])
    } else {
        None
    }
}

/// The peers after one of them said hello: its address and its time are new, and
/// how far it has read stays.
pub open spec fn after_hello(
    v: Seq<PeerModel>,
    name: Seq<char>,
    tailnet_addr: Option<Seq<char>>,
    last_seen_ts: i64,
) -> Seq<PeerModel> {
    let i = peer_index(v, name) as int;
    if i < v.len() {
        v.update(i, PeerModel { tailnet_addr, last_seen_ts, ..v[i] })
    } else {
        v.push(PeerModel { name, tailnet_addr, last_seen_ts, last_msg_id: None })
    }
}

/// The peers with a record: one of the same name is replaced.
pub open spec fn with_peer(v: Seq<PeerModel>, r: PeerModel) -> Seq<PeerModel> {
    let i = peer_index(v, r.name) as int;
    if i < v.len() {
        v.update(i, r)
    } else {
        v.push(r)
    }
}

proof fn peer_index_bounds(v: Seq<PeerModel>, name: Seq<char>)
    ensures
        peer_index(v, name) <= v.len(),
        forall|j: int| 0 <= j < peer_index(v, name) ==> (#[trigger] v[j]).name != name,
        peer_index(v, name) < v.len() ==> v[peer_index(v, name) as int].name == name,
    decreases v.len(),
{
    if v.len() > 0 && v[0].name != name {
        let t = v.skip(1);
        peer_index_bounds(t, name);
        assert forall|j: int| 0 <= j < peer_index(v, name) implies (#[trigger] v[j]).name != name by {
            if j > 0 {
                assert(t[j - 1] == v[j]);
            }
        }
        if peer_index(v, name) < v.len() {
            assert(t[peer_index(t, name) as int] == v[peer_index(v, name) as int]);
        }
    }
}

proof fn peer_index_is(v: Seq<PeerModel>, name: Seq<char>, i: int)
    requires
        0 <= i <= v.len(),
        forall|j: int| 0 <= j < i ==> (#[trigger] v[j]).name != name,
        i == v.len() || v[i].name == name,
    ensures
        peer_index(v, name) == i,
    decreases v.len(),
{
    if v.len() > 0 && i > 0 {
        assert(v[0].name != name);
        let t = v.skip(1);
        assert forall|j: int| 0 <= j < i - 1 implies (#[trigger] t[j]).name != name by {
            assert(t[j] == v[j + 1]);
        }
        peer_index_is(t, name, i - 1);
    }
}

/// The registry of the peers, in the order in which they came first.
pub struct PeerRegistry {
    peers: Vec<PeerRecord>,
}

impl View for PeerRegistry {
    type V = Seq<PeerModel>;

    closed spec fn view(&self) -> Seq<PeerModel> {
        peer_models(self.peers@)
    }
}

/// Where the registry is kept under a home directory.
pub fn default_path(home: Option<&str>) -> (r: String)
    ensures
        r@ == join_path(
            join_path(
                match home {
                    Some(h) => h@,
                    None => "/tmp"@,
                },
                ".deskd"@,
            ),
            "federation.sqlite"@,
        ),
{
    let dir = match home {
        Some(h) => join(h, ".deskd"),
        None => join("/tmp", ".deskd"),
    };
    join(&dir, "federation.sqlite")
}

impl PeerRegistry {
    #[verifier::type_invariant]
    spec fn inv(self) -> bool {
        names_differ(self@)
    }

    /// A registry without peers.
    pub fn in_memory() -> (r: PeerRegistry)
        ensures
            r@ == Seq::<PeerModel>::empty(),
    {
        let peers: Vec<PeerRecord> = Vec::new();
        assert(peer_models(peers@) =~= Seq::<PeerModel>::empty());
        PeerRegistry { peers }
    }

    fn position(&self, name: &str) -> (r: usize)
        ensures
            r == peer_index(self@, name@),
            r <= self.peers@.len(),
    {
        let ghost all = peer_models(self.peers@);
        let mut i: usize = 0;
        while i < self.peers.len()
            invariant
                i <= self.peers@.len(),
                all == peer_models(self.peers@),
                forall|j: int| 0 <= j < i ==> (#[trigger] all[j]).name != name@,
            decreases self.peers@.len() - i,
        {
            assert(all[i as int] == self.peers@[i as int]@);
            if same(&self.peers[i].name, name) {
                proof {
                    peer_index_is(all, name@, i as int);
                }
                return i;
            }
            i += 1;
        }
        proof {
            peer_index_is(all, name@, i as int);
        }
        i
    }

    fn take(&mut self) -> (r: Vec<PeerRecord>)
        ensures
            peer_models(r@) == old(self)@,
    {
        let mut other = PeerRegistry::in_memory();
        std::mem::swap(self, &mut other);
        other.peers
    }

    /// Puts a record in, in place of one of the same name.
    pub fn restore(&mut self, record: PeerRecord)
        ensures
            final(self)@ == with_peer(old(self)@, record@),
    {
        proof {
            use_type_invariant(&*self);
            peer_index_bounds(self@, record@.name);
        }
        let ghost before = self@;
        let i: usize = self.position(&record.name);
        let mut peers = self.take();
        if i < peers.len() {
            peers[i] = record;
        } else {
            peers.push(record);
        }
        proof {
            let after = peer_models(peers@);
            assert(after =~= with_peer(before, record@));
            stays_unique(before, after, i as int, record@.name);
        }
        *self = PeerRegistry { peers };
    }

    /// Notes the hello of a peer from an address at a time.
    pub fn upsert_on_hello(&mut self, name: &str, tailnet_addr: Option<&str>, last_seen_ts: i64)
        ensures
            final(self)@ == after_hello(old(self)@, name@, opt_str(tailnet_addr), last_seen_ts),
    {
        let i: usize = self.position(name);
        let last_msg_id = if i < self.peers.len() {
            copy_opt(&self.peers[i].last_msg_id)
        } else {
            None
        };
        let addr = match tailnet_addr {
            Some(a) => Some(String::from_str(a)),
            None => None,
        };
        proof {
            peer_index_bounds(self@, name@);
        }
        let ghost before = self@;
        let record = PeerRecord {
            name: String::from_str(name),
            tailnet_addr: addr,
            last_seen_ts,
            last_msg_id,
        };
        self.restore(record);
        proof {
            assert(self@ =~= after_hello(before, name@, opt_str(tailnet_addr), last_seen_ts));
        }
    }

    /// The peer with a name.
    pub fn lookup(&self, name: &str) -> (r: Option<PeerRecord>)
        ensures
            match r {
                Some(p) => peer_named(self@, name@) == Some(p@),
                None => peer_named(self@, name@) is None,
            },
    {
        let i: usize = self.position(name);
        if i < self.peers.len() {
            Some(self.peers[i].copy())
        } else {
            None
        }
    }

    /// All peers, the one that was seen last first.
    pub fn list(&self) -> (r: Vec<PeerRecord>)
        ensures
            r@.len() == self@.len(),
            descending(r@),
            peer_models(r@).to_multiset() == self@.to_multiset(),
    {
        let mut all: Vec<PeerRecord> = Vec::new();
        let ghost models = peer_models(self.peers@);
        let mut i: usize = 0;
        assert(peer_models(all@) =~= models.take(0));
        while i < self.peers.len()
            invariant
                i <= self.peers@.len(),
                models == peer_models(self.peers@),
                peer_models(all@) == models.take(i as int),
            decreases self.peers@.len() - i,
        {
            let ghost before = peer_models(all@);
            all.push(self.peers[i].copy());
            assert(peer_models(all@) =~= before.push(models[i as int]));
            assert(models.take(i + 1) =~= before.push(models[i as int]));
            i += 1;
        }
        assert(models.take(i as int) =~= models);
        let ghost given = all@;
        let r = sort_by_rank(all);
        proof {
            ranked_is_descending(given);
            ranked_keeps_models(given);
        }
        r
    }
}

proof fn stays_unique(before: Seq<PeerModel>, after: Seq<PeerModel>, k: int, name: Seq<char>)
    requires
        names_differ(before),
        k == peer_index(before, name),
        after.len() == if k < before.len() {
            before.len()
        } else {
            before.len() + 1
        },
        forall|i: int| 0 <= i < before.len() && i != k ==> after[i] == #[trigger] before[i],
        after[k].name == name,
    ensures
        names_differ(after),
{
    peer_index_bounds(before, name);
    assert forall|i: int, j: int| 0 <= i < j < after.len() implies (#[trigger] after[i]).name != (
    #[trigger] after[j]).name by {
        if i != k {
            assert(after[i] == before[i]);
        }
        if j != k {
            assert(after[j] == before[j]);
        }
        if k < before.len() {
            assert(before[k].name == name);
        }
    }
}

proof fn ranked_keeps_models(s: Seq<PeerRecord>)
    ensures
        peer_models(ranked(s)).to_multiset() == peer_models(s).to_multiset(),
        ranked(s).len() == s.len(),
    decreases s.len(),
{
    broadcast use vstd::seq_lib::group_to_multiset_ensures;

    if s.len() > 0 {
        let rest = s.skip(1);
        ranked_keeps_models(rest);
        let sorted = ranked(rest);
        let k = crate::order::leaders(sorted, s[0].rank()) as int;
        ranked_is_permutation(s);
        leaders_within(sorted, s[0].rank());
        assert(peer_models(sorted.insert(k, s[0])) =~= peer_models(sorted).insert(k, s[0]@));
        vstd::seq_lib::to_multiset_insert(peer_models(sorted), k, s[0]@);
        assert(peer_models(s) =~= seq![s[0]@] + peer_models(rest));
        assert(peer_models(s) =~= peer_models(rest).insert(0, s[0]@));
        vstd::seq_lib::to_multiset_insert(peer_models(rest), 0, s[0]@);
    }
}

proof fn leaders_within<T: Ranked>(s: Seq<T>, rank: int)
    ensures
        crate::order::leaders(s, rank) <= s.len(),
    decreases s.len(),
{
    if s.len() > 0 {
        leaders_within(s.skip(1), rank);
    }
}

/// A peer that said hello is known under its name, with its address and its time.
pub proof fn hello_is_noted(
    v: Seq<PeerModel>,
    name: Seq<char>,
    tailnet_addr: Option<Seq<char>>,
    last_seen_ts: i64,
)
    ensures
        peer_named(after_hello(v, name, tailnet_addr, last_seen_ts), name) matches Some(p)
            && p.tailnet_addr == tailnet_addr && p.last_seen_ts == last_seen_ts && p.last_msg_id == (
        match peer_named(v, name) {
            Some(q) => q.last_msg_id,
            None => None,
        }),
{
    peer_index_bounds(v, name);
    let k = peer_index(v, name) as int;
    let after = after_hello(v, name, tailnet_addr, last_seen_ts);
    assert forall|j: int| 0 <= j < k implies (#[trigger] after[j]).name != name by {
        assert(after[j] == v[j]);
    }
    peer_index_is(after, name, k);
}

/// The hello of a peer changes nothing of another one.
pub proof fn hello_leaves_others_alone(
    v: Seq<PeerModel>,
    name: Seq<char>,
    tailnet_addr: Option<Seq<char>>,
    last_seen_ts: i64,
    other: Seq<char>,
)
    requires
        other != name,
    ensures
        peer_named(after_hello(v, name, tailnet_addr, last_seen_ts), other) == peer_named(v, other),
{
    peer_index_bounds(v, name);
    peer_index_bounds(v, other);
    let k = peer_index(v, name) as int;
    let o = peer_index(v, other) as int;
    let after = after_hello(v, name, tailnet_addr, last_seen_ts);
    assert forall|j: int| 0 <= j < o implies (#[trigger] after[j]).name != other by {
        if j < v.len() && j != k {
            assert(after[j] == v[j]);
        }
    }
    if o < v.len() {
        assert(after[o] == v[o]);
        peer_index_is(after, other, o);
    } else {
        if k >= v.len() {
            assert(after[o].name == name);
            peer_index_is(after, other, o + 1);
        } else {
            peer_index_is(after, other, o);
        }
    }
}

/// The peer that a name finds has that name, and a peer that was restored is found as it
/// was.
pub proof fn restored_peer_is_found(v: Seq<PeerModel>, r: PeerModel, other: Seq<char>)
    requires
        other != r.name,
    ensures
        peer_named(with_peer(v, r), r.name) == Some(r),
        peer_named(with_peer(v, r), other) == peer_named(v, other),
        peer_named(v, other) matches Some(p) ==> p.name == other && v.contains(p),
    decreases v.len(),
{
    if v.len() == 0 {
        let w = with_peer(v, r);
        assert(w =~= seq![r]);
        assert(w.skip(1) =~= Seq::<PeerModel>::empty());
        assert(peer_index(w.skip(1), other) == 0);
    } else {
        let rest = v.skip(1);
        restored_peer_is_found(rest, r, other);
        let w = with_peer(v, r);
        let x = with_peer(rest, r);
        if v[0].name == r.name {
            assert(w[0] == r);
            assert(w.skip(1) =~= rest);
        } else {
            assert(w[0] == v[0]);
            assert(w.skip(1) =~= x);
            let i = peer_index(x, r.name) as int;
            if i < x.len() {
                assert(x[i] == w[i + 1]);
            }
        }
        let j = peer_index(w.skip(1), other) as int;
        if j < w.skip(1).len() {
            assert(w.skip(1)[j] == w[j + 1]);
        }
        let k = peer_index(rest, other) as int;
        if k < rest.len() {
            assert(rest[k] == v[k + 1]);
        }
        if v[0].name == other {
            assert(v.contains(v[0]));
        }
    }
}

} // verus!
