//! In-memory routing table for federation.
//!
//! The table holds pairs of a topic pattern and a peer that subscribed to it,
//! and pairs of an inbox name and a peer that subscribed to it. A pair is there
//! at most once. A peer whose connection ends loses all of its pairs.
use super::glob::topic_matches;
use crate::names::NameSet;
use crate::text::{
    index_of_is, le, same, split_once, split_once_spec, strip_prefix, strip_prefix_spec, text_le,
    text_le_antisymmetric, text_le_total, text_le_transitive, texts,
};
use vstd::prelude::*;
use vstd::string::*;

verus! {

/// A pair of a subscription key and a peer name.
pub type Pair = (Seq<char>, Seq<char>);

/// The contents of a pair of strings.
pub open spec fn pair_of(p: (String, String)) -> Pair {
    (p.0@, p.1@)
}

spec fn pairs_of(v: Seq<(String, String)>) -> Seq<Pair> {
    Seq::new(v.len(), |i: int| pair_of(v[i]))
}

/// The strict order of texts.
pub open spec fn text_lt(a: Seq<char>, b: Seq<char>) -> bool {
    a != b && text_le(a, b)
}

/// The strict order of pairs: by key, then by peer.
spec fn pair_lt(a: Pair, b: Pair) -> bool {
    if a.0 == b.0 {
        text_lt(a.1, b.1)
    } else {
        text_lt(a.0, b.0)
    }
}

proof fn pair_lt_transitive(a: Pair, b: Pair, c: Pair)
    requires
        pair_lt(a, b),
        pair_lt(b, c),
    ensures
        pair_lt(a, c),
        a != c,
{
    if a.0 == b.0 && b.0 == c.0 {
        text_le_transitive(a.1, b.1, c.1);
        if a.1 == c.1 {
            text_le_antisymmetric(a.1, b.1);
        }
    } else if a.0 != b.0 && b.0 != c.0 {
        text_le_transitive(a.0, b.0, c.0);
        if a.0 == c.0 {
            text_le_antisymmetric(a.0, b.0);
        }
    }
}

proof fn pair_lt_total(a: Pair, b: Pair)
    ensures
        a == b || pair_lt(a, b) || pair_lt(b, a),
{
    text_le_total(a.0, b.0);
    text_le_total(a.1, b.1);
}

proof fn pair_lt_irreflexive(a: Pair, b: Pair)
    requires
        pair_lt(a, b),
    ensures
        !pair_lt(b, a),
        a != b,
{
    if pair_lt(b, a) {
        pair_lt_transitive(a, b, a);
    }
}

spec fn sorted(v: Seq<Pair>) -> bool {
    forall|i: int, j: int| 0 <= i < j < v.len() ==> pair_lt(#[trigger] v[i], #[trigger] v[j])
}

/// A set of pairs, kept in order.
struct PairSet {
    pairs: Vec<(String, String)>,
}

impl View for PairSet {
    type V = Set<Pair>;

    closed spec fn view(&self) -> Set<Pair> {
        pairs_of(self.pairs@).to_set()
    }
}

impl PairSet {
    #[verifier::type_invariant]
    spec fn wf(self) -> bool {
        sorted(pairs_of(self.pairs@))
    }

    fn new() -> (r: PairSet)
        ensures
            r@ == Set::<Pair>::empty(),
    {
        let r = PairSet { pairs: Vec::new() };
        assert(r@ =~= Set::<Pair>::empty());
        r
    }

    fn take(&mut self) -> (r: Vec<(String, String)>)
        ensures
            r@ == old(self).pairs@,
            final(self)@ == Set::<Pair>::empty(),
    {
        let mut taken = PairSet::new();
        std::mem::swap(self, &mut taken);
        taken.pairs
    }

    fn insert(&mut self, key: &str, peer: &str)
        ensures
            final(self)@ == old(self)@.insert((key@, peer@)),
    {
        proof {
            use_type_invariant(&*self);
        }
        let ghost x: Pair = (key@, peer@);
        let mut pairs = self.take();
        let ghost before = pairs_of(pairs@);
        let mut i: usize = 0;
        while i < pairs.len() && less(&pairs[i].0, &pairs[i].1, key, peer)
            invariant
                i <= pairs@.len(),
                before == pairs_of(pairs@),
                x == (key@, peer@),
                forall|j: int| 0 <= j < i ==> pair_lt(#[trigger] before[j], x),
            decreases pairs@.len() - i,
        {
            assert(before[i as int] == pair_of(pairs@[i as int]));
            i += 1;
        }
        if i < pairs.len() && same(&pairs[i].0, key) && same(&pairs[i].1, peer) {
            proof {
                assert(before[i as int] == x);
                assert(before.to_set().insert(x) =~= before.to_set());
            }
            *self = PairSet { pairs };
            return;
        }
        pairs.insert(i, (String::from_str(key), String::from_str(peer)));
        proof {
            let after = pairs_of(pairs@);
            assert(after =~= before.insert(i as int, x));
            if i < before.len() {
                assert(before[i as int] == pair_of(pairs@[i + 1]));
                pair_lt_total(before[i as int], x);
            }
            assert forall|a: int, b: int| 0 <= a < b < after.len() implies pair_lt(
                #[trigger] after[a],
                #[trigger] after[b],
            ) by {
                let sa = if a < i { a } else { a - 1 };
                let sb = if b < i { b } else { b - 1 };
                if a == i {
                    assert(after[b] == before[sb]);
                    if sb > i {
                        pair_lt_transitive(x, before[i as int], before[sb]);
                    }
                } else if b == i {
                    assert(after[a] == before[sa]);
                } else {
                    assert(after[a] == before[sa] && after[b] == before[sb]);
                }
            }
            assert forall|y: Pair| after.to_set().contains(y) == before.to_set().insert(
                x,
            ).contains(y) by {
                if after.contains(y) {
                    let k = choose|k: int| 0 <= k < after.len() && after[k] == y;
                    if k != i {
                        let s = if k < i { k } else { k - 1 };
                        assert(before[s] == y);
                    }
                }
                if before.contains(y) {
                    let k = choose|k: int| 0 <= k < before.len() && before[k] == y;
                    let s = if k < i { k } else { k + 1 };
                    assert(after[s] == y);
                }
                assert(after[i as int] == x);
            }
            assert(after.to_set() =~= before.to_set().insert(x));
        }
        *self = PairSet { pairs };
    }

    fn remove(&mut self, key: &str, peer: &str)
        ensures
            final(self)@ == old(self)@.remove((key@, peer@)),
    {
        proof {
            use_type_invariant(&*self);
        }
        let ghost x: Pair = (key@, peer@);
        let mut pairs = self.take();
        let ghost before = pairs_of(pairs@);
        let mut i: usize = 0;
        while i < pairs.len() && !(same(&pairs[i].0, key) && same(&pairs[i].1, peer))
            invariant
                i <= pairs@.len(),
                before == pairs_of(pairs@),
                x == (key@, peer@),
                forall|j: int| 0 <= j < i ==> #[trigger] before[j] != x,
            decreases pairs@.len() - i,
        {
            assert(before[i as int] == pair_of(pairs@[i as int]));
            i += 1;
        }
        if i < pairs.len() {
            pairs.remove(i);
            proof {
                let after = pairs_of(pairs@);
                assert(after =~= before.remove(i as int));
                assert forall|a: int, b: int| 0 <= a < b < after.len() implies pair_lt(
                    #[trigger] after[a],
                    #[trigger] after[b],
                ) by {
                    let sa = if a < i { a } else { a + 1 };
                    let sb = if b < i { b } else { b + 1 };
                    assert(after[a] == before[sa] && after[b] == before[sb]);
                }
                assert(before[i as int] == x);
                assert forall|y: Pair| after.to_set().contains(y) == before.to_set().remove(
                    x,
                ).contains(y) by {
                    if after.contains(y) {
                        let k = choose|k: int| 0 <= k < after.len() && after[k] == y;
                        let s = if k < i { k } else { k + 1 };
                        assert(before[s] == y);
                        if s < i {
                            pair_lt_irreflexive(before[s], before[i as int]);
                        } else {
                            pair_lt_irreflexive(before[i as int], before[s]);
                        }
                    }
                    if before.contains(y) && y != x {
                        let k = choose|k: int| 0 <= k < before.len() && before[k] == y;
                        let s = if k < i { k } else { k - 1 };
                        assert(after[s] == y);
                    }
                }
                assert(after.to_set() =~= before.to_set().remove(x));
            }
        } else {
            assert(!before.contains(x));
            assert(before.to_set().remove(x) =~= before.to_set());
        }
        *self = PairSet { pairs };
    }

    fn remove_peer(&mut self, peer: &str)
        ensures
            final(self)@ == without_peer(old(self)@, peer@),
    {
        proof {
            use_type_invariant(&*self);
        }
        let pairs = self.take();
        let ghost before = pairs_of(pairs@);
        let mut kept: Vec<(String, String)> = Vec::new();
        let ghost mut origin: Seq<int> = Seq::empty();
        let mut i: usize = 0;
        while i < pairs.len()
            invariant
                i <= pairs@.len(),
                before == pairs_of(pairs@),
                sorted(before),
                origin.len() == kept@.len(),
                forall|k: int| 0 <= k < origin.len() ==> 0 <= #[trigger] origin[k] < i,
                forall|k: int, l: int|
                    0 <= k < l < origin.len() ==> #[trigger] origin[k] < #[trigger] origin[l],
                forall|k: int|
                    0 <= k < origin.len() ==> pair_of(#[trigger] kept@[k]) == before[origin[k]]
                        && before[origin[k]].1 != peer@,
                forall|j: int|
                    0 <= j < i && (#[trigger] before[j]).1 != peer@ ==> origin.contains(j),
            decreases pairs@.len() - i,
        {
            assert(before[i as int] == pair_of(pairs@[i as int]));
            if !same(&pairs[i].1, peer) {
                kept.push((pairs[i].0.clone(), pairs[i].1.clone()));
                proof {
                    let old_origin = origin;
                    origin = origin.push(i as int);
                    assert(origin[old_origin.len() as int] == i);
                    assert forall|j: int|
                        0 <= j < i + 1 && (#[trigger] before[j]).1
                            != peer@ implies origin.contains(j) by {
                        if j < i {
                            let k = choose|k: int|
                                0 <= k < old_origin.len() && old_origin[k] == j;
                            assert(origin[k] == j);
                        }
                    }
                }
            }
            i += 1;
        }
        proof {
            let after = pairs_of(kept@);
            assert forall|a: int, b: int| 0 <= a < b < after.len() implies pair_lt(
                #[trigger] after[a],
                #[trigger] after[b],
            ) by {
                assert(after[a] == before[origin[a]]);
                assert(after[b] == before[origin[b]]);
            }
            assert forall|y: Pair| after.to_set().contains(y) == without_peer(
                before.to_set(),
                peer@,
            ).contains(y) by {
                if after.contains(y) {
                    let k = choose|k: int| 0 <= k < after.len() && after[k] == y;
                    assert(after[k] == before[origin[k]]);
                    assert(before.contains(y));
                }
                if before.contains(y) && y.1 != peer@ {
                    let j = choose|j: int| 0 <= j < before.len() && before[j] == y;
                    assert(origin.contains(j));
                    let k = choose|k: int| 0 <= k < origin.len() && origin[k] == j;
                    assert(after[k] == y);
                }
            }
            assert(after.to_set() =~= without_peer(before.to_set(), peer@));
        }
        *self = PairSet { pairs: kept };
    }
}

fn less(key: &str, peer: &str, key2: &str, peer2: &str) -> (r: bool)
    ensures
        r == pair_lt((key@, peer@), (key2@, peer2@)),
{
    if same(key, key2) {
        !same(peer, peer2) && le(peer, peer2)
    } else {
        le(key, key2)
    }
}

// ─── The routing table ──────────────────────────────────────────────────────

/// What a routing table holds.
pub struct Routes {
    /// Topic subscriptions: pattern and peer.
    pub patterns: Set<Pair>,
    /// Inbox subscriptions: inbox name and peer.
    pub inboxes: Set<Pair>,
}

/// The pairs of `m` with a peer other than `peer`.
pub open spec fn without_peer(m: Set<Pair>, peer: Seq<char>) -> Set<Pair> {
    Set::new(|p: Pair| m.contains(p) && p.1 != peer)
}

/// The name of the inbox that a target addresses: what stands between `inbox/`
/// and the first `@`.
pub open spec fn inbox_name(target: Seq<char>) -> Option<Seq<char>> {
    match strip_prefix_spec(target, "inbox/"@) {
        None => None,
        Some(rest) => match split_once_spec(rest, '@') {
            Some((name, _)) => Some(name),
            None => Some(rest),
        },
    }
}

impl Routes {
    /// The peers with a pattern that matches `topic`.
    pub open spec fn topic_peers(self, topic: Seq<char>) -> Set<Seq<char>> {
        Set::new(
            |peer: Seq<char>|
                exists|pattern: Seq<char>|
                    #[trigger] self.patterns.contains((pattern, peer)) && topic_matches(
                        pattern,
                        topic,
                    ),
        )
    }

    /// The peers that subscribed to the inbox that `target` addresses.
    pub open spec fn inbox_peers(self, target: Seq<char>) -> Set<Seq<char>> {
        match inbox_name(target) {
            Some(name) => Set::new(|peer: Seq<char>| self.inboxes.contains((name, peer))),
            None => Set::empty(),
        }
    }

    /// The peers that a frame for `target` concerns.
    pub open spec fn peers_for(self, target: Seq<char>) -> Set<Seq<char>> {
        self.topic_peers(target).union(self.inbox_peers(target))
    }

    /// The table after `peer` subscribed to `pattern`.
    pub open spec fn with_pattern(self, peer: Seq<char>, pattern: Seq<char>) -> Routes {
        Routes { patterns: self.patterns.insert((pattern, peer)), inboxes: self.inboxes }
    }

    /// The table after `peer` gave `pattern` up.
    pub open spec fn without_pattern(self, peer: Seq<char>, pattern: Seq<char>) -> Routes {
        Routes { patterns: self.patterns.remove((pattern, peer)), inboxes: self.inboxes }
    }

    /// The table after `peer` subscribed to `inbox`.
    pub open spec fn with_inbox(self, peer: Seq<char>, inbox: Seq<char>) -> Routes {
        Routes { patterns: self.patterns, inboxes: self.inboxes.insert((inbox, peer)) }
    }

    /// The table after `peer` gave `inbox` up.
    pub open spec fn without_inbox(self, peer: Seq<char>, inbox: Seq<char>) -> Routes {
        Routes { patterns: self.patterns, inboxes: self.inboxes.remove((inbox, peer)) }
    }

    /// The table without the pairs of `peer`.
    pub open spec fn without(self, peer: Seq<char>) -> Routes {
        Routes {
            patterns: without_peer(self.patterns, peer),
            inboxes: without_peer(self.inboxes, peer),
        }
    }
}

/// The contents of a snapshot: each pattern with its peers.
pub open spec fn snapshot_of(r: Seq<(String, Vec<String>)>) -> Seq<(Seq<char>, Seq<Seq<char>>)> {
    Seq::new(r.len(), |i: int| (r[i].0@, texts(r[i].1@)))
}

/// Whether the texts are in strict order.
pub open spec fn increasing(v: Seq<Seq<char>>) -> bool {
    forall|i: int, j: int| 0 <= i < j < v.len() ==> text_lt(#[trigger] v[i], #[trigger] v[j])
}

/// Whether `r` lists the pairs of `m` by pattern: the patterns in order, each
/// with at least one peer, and its peers in order.
pub open spec fn is_snapshot(r: Seq<(Seq<char>, Seq<Seq<char>>)>, m: Set<Pair>) -> bool {
    &&& forall|i: int, j: int|
        0 <= i < j < r.len() ==> text_lt((#[trigger] r[i]).0, (#[trigger] r[j]).0)
    &&& forall|i: int| 0 <= i < r.len() ==> (#[trigger] r[i]).1.len() > 0 && increasing(r[i].1)
    &&& forall|p: Pair| #[trigger]
        m.contains(p) <==> exists|i: int|
            0 <= i < r.len() && (#[trigger] r[i]).0 == p.0 && r[i].1.contains(p.1)
}

/// Routing table: topic patterns and inbox names with the peers subscribed to
/// them.
pub struct RoutingTable {
    by_pattern: PairSet,
    inboxes: PairSet,
}

impl View for RoutingTable {
    type V = Routes;

    closed spec fn view(&self) -> Routes {
        Routes { patterns: self.by_pattern@, inboxes: self.inboxes@ }
    }
}

impl RoutingTable {
    /// An empty routing table.
    pub fn new() -> (r: RoutingTable)
        ensures
            r@ == (Routes { patterns: Set::empty(), inboxes: Set::empty() }),
    {
        RoutingTable { by_pattern: PairSet::new(), inboxes: PairSet::new() }
    }

    /// Adds the pattern for the peer.
    pub fn subscribe(&mut self, peer: &str, pattern: &str)
        ensures
            final(self)@ == old(self)@.with_pattern(peer@, pattern@),
    {
        self.by_pattern.insert(pattern, peer);
    }

    /// Removes the pattern of the peer.
    pub fn unsubscribe(&mut self, peer: &str, pattern: &str)
        ensures
            final(self)@ == old(self)@.without_pattern(peer@, pattern@),
    {
        self.by_pattern.remove(pattern, peer);
    }

    /// Adds the inbox name for the peer.
    pub fn subscribe_inbox(&mut self, peer: &str, inbox: &str)
        ensures
            final(self)@ == old(self)@.with_inbox(peer@, inbox@),
    {
        self.inboxes.insert(inbox, peer);
    }

    /// Removes the inbox name of the peer.
    pub fn unsubscribe_inbox(&mut self, peer: &str, inbox: &str)
        ensures
            final(self)@ == old(self)@.without_inbox(peer@, inbox@),
    {
        self.inboxes.remove(inbox, peer);
    }

    /// Removes every subscription of the peer.
    pub fn drop_peer(&mut self, peer: &str)
        ensures
            final(self)@ == old(self)@.without(peer@),
    {
        self.by_pattern.remove_peer(peer);
        self.inboxes.remove_peer(peer);
    }

    /// The peers with a pattern that matches `topic`, each once.
    pub fn match_topic(&self, topic: &str) -> (r: NameSet)
        ensures
            r@ == self@.topic_peers(topic@),
    {
        let ghost all = pairs_of(self.by_pattern.pairs@);
        let mut out = NameSet::new();
        let mut i: usize = 0;
        while i < self.by_pattern.pairs.len()
            invariant
                i <= self.by_pattern.pairs@.len(),
                all == pairs_of(self.by_pattern.pairs@),
                forall|peer: Seq<char>| #[trigger]
                    out@.contains(peer) <==> exists|j: int|
                        0 <= j < i && (#[trigger] all[j]).1 == peer && topic_matches(
                            all[j].0,
                            topic@,
                        ),
            decreases self.by_pattern.pairs@.len() - i,
        {
            let ghost before = out@;
            let pattern = &self.by_pattern.pairs[i].0;
            let peer = &self.by_pattern.pairs[i].1;
            assert(all[i as int] == (pattern@, peer@));
            if crate::federation::glob::matches(pattern, topic) {
                let _ = out.insert(peer);
            }
            i += 1;
        }
        proof {
            let m = self@.patterns;
            assert forall|peer: Seq<char>| out@.contains(peer) == self@.topic_peers(
                topic@,
            ).contains(peer) by {
                if out@.contains(peer) {
                    let j = choose|j: int|
                        0 <= j < all.len() && (#[trigger] all[j]).1 == peer && topic_matches(
                            all[j].0,
                            topic@,
                        );
                    assert(all.to_set().contains(all[j]));
                    assert(m.contains((all[j].0, peer)));
                }
                if self@.topic_peers(topic@).contains(peer) {
                    let pattern = choose|pattern: Seq<char>| #[trigger]
                        m.contains((pattern, peer)) && topic_matches(pattern, topic@);
                    assert(all.contains((pattern, peer)));
                    let j = choose|j: int| 0 <= j < all.len() && all[j] == (pattern, peer);
                    assert(all[j].1 == peer);
                }
            }
            assert(out@ =~= self@.topic_peers(topic@));
        }
        out
    }

    /// The peers that subscribed to the inbox that `target` addresses, as
    /// `inbox/<name>` or `inbox/<name>@<peer>`. No peer for any other target.
    pub fn match_inbox(&self, target: &str) -> (r: NameSet)
        ensures
            r@ == self@.inbox_peers(target@),
    {
        let rest = match strip_prefix(target, "inbox/") {
            Some(rest) => rest,
            None => {
                return NameSet::new();
            },
        };
        let name = match split_once(rest, '@') {
            Some((name, _)) => name,
            None => rest,
        };
        assert(inbox_name(target@) == Some(name@));
        let ghost all = pairs_of(self.inboxes.pairs@);
        let mut out = NameSet::new();
        let mut i: usize = 0;
        while i < self.inboxes.pairs.len()
            invariant
                i <= self.inboxes.pairs@.len(),
                all == pairs_of(self.inboxes.pairs@),
                forall|peer: Seq<char>| #[trigger]
                    out@.contains(peer) <==> exists|j: int|
                        0 <= j < i && #[trigger] all[j] == (name@, peer),
            decreases self.inboxes.pairs@.len() - i,
        {
            assert(all[i as int] == pair_of(self.inboxes.pairs@[i as int]));
            if same(&self.inboxes.pairs[i].0, name) {
                let _ = out.insert(&self.inboxes.pairs[i].1);
            }
            i += 1;
        }
        assert(out@ =~= self@.inbox_peers(target@));
        out
    }

    /// The pattern subscriptions in order.
    pub fn snapshot_patterns(&self) -> (r: Vec<(String, Vec<String>)>)
        ensures
            is_snapshot(snapshot_of(r@), self@.patterns),
    {
        proof {
            use_type_invariant(&self.by_pattern);
        }
        let ghost all = pairs_of(self.by_pattern.pairs@);
        let n: usize = self.by_pattern.pairs.len();
        let mut out: Vec<(String, Vec<String>)> = Vec::new();
        let mut i: usize = 0;
        assert(is_snapshot(snapshot_of(out@), all.take(0).to_set()));
        while i < n
            invariant
                i <= n,
                n == self.by_pattern.pairs@.len(),
                all == pairs_of(self.by_pattern.pairs@),
                sorted(all),
                is_snapshot(snapshot_of(out@), all.take(i as int).to_set()),
                i < n ==> forall|k: int|
                    0 <= k < out@.len() ==> text_lt((#[trigger] snapshot_of(out@)[k]).0, all[i as int].0),
            decreases n - i,
        {
            let key = &self.by_pattern.pairs[i].0;
            let mut peers: Vec<String> = Vec::new();
            let start: usize = i;
            while i < n && same(&self.by_pattern.pairs[i].0, key)
                invariant
                    start <= i <= n,
                    n == self.by_pattern.pairs@.len(),
                    all == pairs_of(self.by_pattern.pairs@),
                    sorted(all),
                    key@ == all[start as int].0,
                    start < n,
                    peers@.len() == i - start,
                    forall|k: int|
                        0 <= k < peers@.len() ==> (#[trigger] peers@[k])@ == all[start + k].1,
                    forall|j: int| start <= j < i ==> (#[trigger] all[j]).0 == key@,
                decreases n - i,
            {
                assert(all[i as int] == pair_of(self.by_pattern.pairs@[i as int]));
                peers.push(self.by_pattern.pairs[i].1.clone());
                i += 1;
            }
            let ghost before = snapshot_of(out@);
            let ghost group = texts(peers@);
            proof {
                assert(all[start as int] == pair_of(self.by_pattern.pairs@[start as int]));
                assert(i > start);
            }
            out.push((key.clone(), peers));
            proof {
                let after = snapshot_of(out@);
                assert(after =~= before.push((key@, group)));
                assert forall|a: int, b: int| 0 <= a < b < group.len() implies text_lt(
                    #[trigger] group[a],
                    #[trigger] group[b],
                ) by {
                    assert(pair_lt(all[start + a], all[start + b]));
                }
                assert(increasing(group));
                let m0 = all.take(start as int).to_set();
                let m = all.take(i as int).to_set();
                assert forall|p: Pair| #[trigger] m.contains(p) <==> exists|k: int|
                    0 <= k < after.len() && (#[trigger] after[k]).0 == p.0 && after[k].1.contains(
                        p.1,
                    ) by {
                    if m.contains(p) {
                        let j = choose|j: int| 0 <= j < i && all.take(i as int)[j] == p;
                        if j < start {
                            assert(all.take(start as int)[j] == p);
                            assert(m0.contains(p));
                            let k = choose|k: int|
                                0 <= k < before.len() && (#[trigger] before[k]).0 == p.0
                                    && before[k].1.contains(p.1);
                            assert(after[k] == before[k]);
                        } else {
                            assert(group[j - start] == p.1);
                            assert(after[before.len() as int].1.contains(p.1));
                        }
                    }
                    if exists|k: int|
                        0 <= k < after.len() && (#[trigger] after[k]).0 == p.0
                            && after[k].1.contains(p.1) {
                        let k = choose|k: int|
                            0 <= k < after.len() && (#[trigger] after[k]).0 == p.0
                                && after[k].1.contains(p.1);
                        if k < before.len() {
                            assert(before[k] == after[k]);
                            assert(m0.contains(p));
                            let j = choose|j: int|
                                0 <= j < start && all.take(start as int)[j] == p;
                            assert(all.take(i as int)[j] == p);
                        } else {
                            let q = choose|q: int| 0 <= q < group.len() && group[q] == p.1;
                            assert(all.take(i as int)[start + q] == p);
                        }
                    }
                }
                assert forall|a: int, b: int| 0 <= a < b < after.len() implies text_lt(
                    (#[trigger] after[a]).0,
                    (#[trigger] after[b]).0,
                ) by {
                    assert(after[a] == before[a]);
                    if b < before.len() {
                        assert(after[b] == before[b]);
                    }
                }
                assert forall|k: int| 0 <= k < after.len() implies (#[trigger] after[k]).1.len() > 0
                    && increasing(after[k].1) by {
                    if k < before.len() {
                        assert(after[k] == before[k]);
                    }
                }
                if i < n {
                    assert(all[i as int] == pair_of(self.by_pattern.pairs@[i as int]));
                    assert(pair_lt(all[start as int], all[i as int]));
                    assert forall|k: int| 0 <= k < out@.len() implies text_lt(
                        (#[trigger] after[k]).0,
                        all[i as int].0,
                    ) by {
                        if k < before.len() {
                            assert(after[k] == before[k]);
                            text_le_transitive(before[k].0, key@, all[i as int].0);
                            if before[k].0 == all[i as int].0 {
                                text_le_antisymmetric(before[k].0, key@);
                            }
                        }
                    }
                }
            }
        }
        assert(all.take(i as int) =~= all);
        out
    }

    /// The number of pairs of a pattern and a peer.
    pub fn pattern_subscription_count(&self) -> (r: usize)
        ensures
            r == self@.patterns.len(),
    {
        proof {
            use_type_invariant(&self.by_pattern);
            let all = pairs_of(self.by_pattern.pairs@);
            assert forall|i: int, j: int| 0 <= i < all.len() && 0 <= j < all.len() && i
                != j implies all[i] != all[j] by {
                if i < j {
                    pair_lt_irreflexive(all[i], all[j]);
                } else {
                    pair_lt_irreflexive(all[j], all[i]);
                }
            }
            all.unique_seq_to_set();
        }
        self.by_pattern.pairs.len()
    }
}

// ─── Laws ───────────────────────────────────────────────────────────────────

/// To subscribe twice is to subscribe once.
pub proof fn subscribe_is_idempotent(m: Set<Pair>, key: Seq<char>, peer: Seq<char>)
    ensures
        m.insert((key, peer)).insert((key, peer)) == m.insert((key, peer)),
{
    assert(m.insert((key, peer)).insert((key, peer)) =~= m.insert((key, peer)));
}

/// To unsubscribe undoes a subscription that was new.
pub proof fn unsubscribe_undoes_subscribe(m: Set<Pair>, key: Seq<char>, peer: Seq<char>)
    requires
        !m.contains((key, peer)),
    ensures
        m.insert((key, peer)).remove((key, peer)) == m,
{
    assert(m.insert((key, peer)).remove((key, peer)) =~= m);
}

/// A dropped peer is in the answer to no topic and no inbox target, and the
/// other peers' answers stay as they were.
pub proof fn dropped_peer_gets_nothing(routes: Routes, peer: Seq<char>, target: Seq<char>)
    ensures
        routes.without(peer).peers_for(target) == routes.peers_for(target).remove(peer),
{
    let after = routes.without(peer);
    assert forall|p: Seq<char>| after.peers_for(target).contains(p) == routes.peers_for(
        target,
    ).remove(peer).contains(p) by {
        if routes.topic_peers(target).contains(p) && p != peer {
            let pattern = choose|pattern: Seq<char>| #[trigger]
                routes.patterns.contains((pattern, p)) && topic_matches(pattern, target);
            assert(after.patterns.contains((pattern, p)));
        }
        if after.topic_peers(target).contains(p) {
            let pattern = choose|pattern: Seq<char>| #[trigger]
                after.patterns.contains((pattern, p)) && topic_matches(pattern, target);
            assert(routes.patterns.contains((pattern, p)));
        }
    }
    assert(after.peers_for(target) =~= routes.peers_for(target).remove(peer));
}

/// A peer gets what matches a pattern that it subscribed to.
pub proof fn subscriber_gets_matching_topics(
    routes: Routes,
    peer: Seq<char>,
    pattern: Seq<char>,
    topic: Seq<char>,
)
    requires
        routes.patterns.contains((pattern, peer)),
        topic_matches(pattern, topic),
    ensures
        routes.peers_for(topic).contains(peer),
{
}


/// A target names an inbox by what stands behind `inbox/`, and a machine behind it, after
/// an `@`, makes no difference.
pub proof fn inbox_target_names_its_inbox(name: Seq<char>, machine: Seq<char>)
    requires
        !name.contains('@'),
    ensures
        inbox_name("inbox/"@ + name) == Some(name),
        inbox_name("inbox/"@ + name + "@"@ + machine) == Some(name),
{
    reveal_strlit("inbox/");
    reveal_strlit("@");
    let plain = "inbox/"@ + name;
    assert(plain.take(6) =~= "inbox/"@);
    assert(plain.skip(6) =~= name);
    assert forall|j: int| 0 <= j < name.len() implies name[j] != '@' by {
        assert(name.contains(name[j]));
    }
    index_of_is(name, '@', name.len() as int);
    let full = "inbox/"@ + name + "@"@ + machine;
    let rest = name + "@"@ + machine;
    assert(full.take(6) =~= "inbox/"@);
    assert(full.skip(6) =~= rest);
    assert(rest[name.len() as int] == '@');
    index_of_is(rest, '@', name.len() as int);
    assert(rest.take(name.len() as int) =~= name);
}

/// A target that does not begin with `inbox/` concerns no inbox.
pub proof fn other_targets_name_no_inbox(routes: Routes, target: Seq<char>)
    requires
        target.len() < 6 || target.take(6) != "inbox/"@,
    ensures
        routes.peers_for(target) == routes.topic_peers(target),
{
    reveal_strlit("inbox/");
    assert(routes.peers_for(target) =~= routes.topic_peers(target));
}

/// A peer that subscribed to a pattern is concerned by exactly the topics that match it,
/// besides those that concerned it before; no other peer is concerned by more or less.
pub proof fn subscription_adds_its_topics(
    routes: Routes,
    peer: Seq<char>,
    pattern: Seq<char>,
    target: Seq<char>,
    other: Seq<char>,
)
    requires
        other != peer,
    ensures
        routes.with_pattern(peer, pattern).peers_for(target).contains(peer) <==> topic_matches(
            pattern,
            target,
        ) || routes.peers_for(target).contains(peer),
        routes.with_pattern(peer, pattern).peers_for(target).contains(other) <==> routes.peers_for(
            target,
        ).contains(other),
        routes.with_pattern(peer, pattern).inbox_peers(target) == routes.inbox_peers(target),
{
    let after = routes.with_pattern(peer, pattern);
    if topic_matches(pattern, target) {
        assert(after.patterns.contains((pattern, peer)));
    }
    old_patterns_stay(routes, peer, pattern, target, peer);
    old_patterns_stay(routes, peer, pattern, target, other);
    assert(after.inbox_peers(target) =~= routes.inbox_peers(target));
}

proof fn old_patterns_stay(
    routes: Routes,
    peer: Seq<char>,
    pattern: Seq<char>,
    target: Seq<char>,
    p: Seq<char>,
)
    ensures
        routes.topic_peers(target).contains(p) ==> routes.with_pattern(peer, pattern).topic_peers(
            target,
        ).contains(p),
        routes.with_pattern(peer, pattern).topic_peers(target).contains(p) ==> routes.topic_peers(
            target,
        ).contains(p) || (p == peer && topic_matches(pattern, target)),
{
    let after = routes.with_pattern(peer, pattern);
    if routes.topic_peers(target).contains(p) {
        let q = choose|q: Seq<char>| #[trigger]
            routes.patterns.contains((q, p)) && topic_matches(q, target);
        assert(after.patterns.contains((q, p)));
    }
    if after.topic_peers(target).contains(p) {
        let q = choose|q: Seq<char>| #[trigger]
            after.patterns.contains((q, p)) && topic_matches(q, target);
        if (q, p) != (pattern, peer) {
            assert(routes.patterns.contains((q, p)));
        }
    }
}

/// A peer that subscribed to an inbox is concerned by what goes there, and one that gave it
/// up no longer is; other inboxes, other peers and all topics stay as they were.
pub proof fn inbox_subscription_adds_its_inbox(
    routes: Routes,
    peer: Seq<char>,
    inbox: Seq<char>,
    target: Seq<char>,
    other: Seq<char>,
)
    requires
        other != peer,
    ensures
        inbox_name(target) == Some(inbox) ==> routes.with_inbox(peer, inbox).inbox_peers(
            target,
        ).contains(peer) && !routes.without_inbox(peer, inbox).inbox_peers(target).contains(peer),
        inbox_name(target) != Some(inbox) ==> routes.with_inbox(peer, inbox).peers_for(target)
            == routes.peers_for(target) && routes.without_inbox(peer, inbox).peers_for(target)
            == routes.peers_for(target),
        routes.with_inbox(peer, inbox).peers_for(target).contains(other) <==> routes.peers_for(
            target,
        ).contains(other),
        routes.without_inbox(peer, inbox).peers_for(target).contains(other) <==> routes.peers_for(
            target,
        ).contains(other),
        routes.with_inbox(peer, inbox).topic_peers(target) == routes.topic_peers(target),
{
    let with = routes.with_inbox(peer, inbox);
    let without = routes.without_inbox(peer, inbox);
    assert(with.topic_peers(target) =~= routes.topic_peers(target));
    assert(without.topic_peers(target) =~= routes.topic_peers(target));
    if inbox_name(target) != Some(inbox) {
        assert(with.inbox_peers(target) =~= routes.inbox_peers(target));
        assert(without.inbox_peers(target) =~= routes.inbox_peers(target));
    }
}

/// A pattern that was given up brings nothing by itself: whatever still concerns the peer
/// does so by another pattern or an inbox.
pub proof fn given_up_pattern_is_gone(
    routes: Routes,
    peer: Seq<char>,
    pattern: Seq<char>,
    other: Seq<char>,
    kept: Seq<char>,
)
    requires
        other != peer || kept != pattern,
    ensures
        !routes.without_pattern(peer, pattern).patterns.contains((pattern, peer)),
        routes.without_pattern(peer, pattern).patterns.contains((kept, other))
            <==> routes.patterns.contains((kept, other)),
        routes.without_pattern(peer, pattern).inboxes == routes.inboxes,
{
}

} // verus!
