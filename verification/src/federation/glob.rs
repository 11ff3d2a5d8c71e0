//! Topic glob matching for federation.
//!
//! Topics and patterns are split into segments at each `.`. In a pattern, a
//! segment `*` matches exactly one segment, and a final segment `>` matches one
//! or more trailing segments. Empty patterns and empty topics never match.
use crate::text::{
    contains_char, index_of, index_of_bounds, index_of_is, same, split, split_spec, texts,
};
use vstd::prelude::*;
use vstd::string::*;

verus! {

/// Whether the segments of a topic match the segments of a pattern.
pub open spec fn segments_match(pattern: Seq<Seq<char>>, topic: Seq<Seq<char>>) -> bool
    decreases pattern.len(),
{
    if pattern.len() == 0 {
        topic.len() == 0
    } else if pattern[0] == ">"@ {
        pattern.len() == 1 && topic.len() > 0
    } else {
        &&& topic.len() > 0
        &&& pattern[0] == "*"@ || pattern[0] == topic[0]
        &&& segments_match(pattern.skip(1), topic.skip(1))
    }
}

/// Whether a topic matches a pattern.
pub open spec fn topic_matches(pattern: Seq<char>, topic: Seq<char>) -> bool {
    &&& pattern.len() > 0
    &&& topic.len() > 0
    &&& segments_match(split_spec(pattern, '.'), split_spec(topic, '.'))
}

/// Texts with the same segments are the same text.
pub proof fn split_injective(a: Seq<char>, b: Seq<char>, c: char)
    requires
        split_spec(a, c) == split_spec(b, c),
    ensures
        a == b,
    decreases a.len(),
{
    index_of_bounds(a, c);
    index_of_bounds(b, c);
    let i = index_of(a, c) as int;
    let j = index_of(b, c) as int;
    split_not_empty(a.skip(i + 1), c);
    split_not_empty(b.skip(j + 1), c);
    if i < a.len() {
        let pa = split_spec(a, c);
        assert(pa == seq![a.take(i)] + split_spec(a.skip(i + 1), c));
        assert(pa.len() > 1);
        assert(j < b.len());
        let pb = split_spec(b, c);
        assert(pb == seq![b.take(j)] + split_spec(b.skip(j + 1), c));
        assert(pa[0] == a.take(i));
        assert(pb[0] == b.take(j));
        assert(pa.skip(1) =~= split_spec(a.skip(i + 1), c));
        assert(pb.skip(1) =~= split_spec(b.skip(j + 1), c));
        split_injective(a.skip(i + 1), b.skip(j + 1), c);
        assert(a =~= a.take(i) + seq![c] + a.skip(i + 1));
        assert(b =~= b.take(j) + seq![c] + b.skip(j + 1));
    } else {
        assert(split_spec(a, c) =~= seq![a]);
        if j < b.len() {
            assert(split_spec(b, c).len() > 1);
        }
        assert(split_spec(b, c) =~= seq![b]);
        assert(seq![a][0] == seq![b][0]);
    }
}

/// There is at least one segment.
pub proof fn split_not_empty(s: Seq<char>, c: char)
    ensures
        split_spec(s, c).len() > 0,
{
}

/// A character that a text lacks is in none of its segments.
proof fn split_keeps_out(s: Seq<char>, c: char, x: char, k: int)
    requires
        !s.contains(x),
        0 <= k < split_spec(s, c).len(),
    ensures
        !split_spec(s, c)[k].contains(x),
    decreases s.len(),
{
    index_of_bounds(s, c);
    let i = index_of(s, c) as int;
    if i < s.len() {
        let head = s.take(i);
        let tail = s.skip(i + 1);
        assert(split_spec(s, c) == seq![head] + split_spec(tail, c));
        if k == 0 {
            if head.contains(x) {
                let j = choose|j: int| 0 <= j < head.len() && head[j] == x;
                assert(s[j] == x);
            }
        } else {
            if tail.contains(x) {
                let j = choose|j: int| 0 <= j < tail.len() && tail[j] == x;
                assert(s[i + 1 + j] == x);
            }
            split_keeps_out(tail, c, x, k - 1);
        }
    }
}

proof fn literal_segments(pattern: Seq<Seq<char>>, topic: Seq<Seq<char>>)
    requires
        forall|k: int| 0 <= k < pattern.len() ==> #[trigger] pattern[k] != "*"@ && pattern[k] != ">"@,
    ensures
        segments_match(pattern, topic) == (pattern == topic),
    decreases pattern.len(),
{
    if pattern.len() == 0 {
        assert(topic.len() == 0 ==> pattern =~= topic);
    } else {
        assert(pattern[0] != "*"@ && pattern[0] != ">"@);
        if topic.len() > 0 {
            let p = pattern.skip(1);
            let t = topic.skip(1);
            assert forall|k: int| 0 <= k < p.len() implies #[trigger] p[k] != "*"@ && p[k]
                != ">"@ by {
                assert(p[k] == pattern[k + 1]);
            }
            literal_segments(p, t);
            if pattern[0] == topic[0] && p == t {
                assert(pattern =~= seq![pattern[0]] + p);
                assert(topic =~= seq![topic[0]] + t);
            }
        }
    }
}

/// A pattern without wildcards matches exactly the topic that it spells out.
pub proof fn literal_pattern_matches_itself(pattern: Seq<char>, topic: Seq<char>)
    requires
        !pattern.contains('*'),
        !pattern.contains('>'),
        pattern.len() > 0,
        topic.len() > 0,
    ensures
        topic_matches(pattern, topic) == (pattern == topic),
{
    let ps = split_spec(pattern, '.');
    reveal_strlit("*");
    reveal_strlit(">");
    assert forall|k: int| 0 <= k < ps.len() implies #[trigger] ps[k] != "*"@ && ps[k] != ">"@ by {
        split_keeps_out(pattern, '.', '*', k);
        split_keeps_out(pattern, '.', '>', k);
        assert("*"@.contains("*"@[0]));
        assert(">"@.contains(">"@[0]));
    }
    literal_segments(ps, split_spec(topic, '.'));
    if ps == split_spec(topic, '.') {
        split_injective(pattern, topic, '.');
    }
}

/// The pattern `>` matches every topic that is not empty.
pub proof fn tail_wildcard_matches_all(topic: Seq<char>)
    requires
        topic.len() > 0,
    ensures
        topic_matches(">"@, topic),
{
    reveal_strlit(">");
    split_not_empty(topic, '.');
    let p = ">"@;
    index_of_is(p, '.', 1);
    assert(split_spec(p, '.') =~= seq![p]);
}

/// A `*` stands for exactly one segment: a pattern without `>` matches only
/// topics with as many segments as it has.
pub proof fn star_keeps_segment_count(pattern: Seq<Seq<char>>, topic: Seq<Seq<char>>)
    requires
        segments_match(pattern, topic),
        forall|k: int| 0 <= k < pattern.len() ==> #[trigger] pattern[k] != ">"@,
    ensures
        pattern.len() == topic.len(),
    decreases pattern.len(),
{
    if pattern.len() > 0 {
        assert(pattern[0] != ">"@);
        let p = pattern.skip(1);
        assert forall|k: int| 0 <= k < p.len() implies #[trigger] p[k] != ">"@ by {
            assert(p[k] == pattern[k + 1]);
        }
        star_keeps_segment_count(p, topic.skip(1));
    }
}

/// A pattern with a `>` before its last segment matches nothing.
pub proof fn inner_tail_wildcard_matches_nothing(
    pattern: Seq<Seq<char>>,
    topic: Seq<Seq<char>>,
    k: int,
)
    requires
        0 <= k < pattern.len() - 1,
        pattern[k] == ">"@,
    ensures
        !segments_match(pattern, topic),
    decreases pattern.len(),
{
    if k > 0 && pattern[0] != ">"@ && topic.len() > 0 {
        assert(pattern.skip(1)[k - 1] == pattern[k]);
        inner_tail_wildcard_matches_nothing(pattern.skip(1), topic.skip(1), k - 1);
    }
}

/// Whether `topic` matches `pattern` under federation glob rules.
pub fn matches(pattern: &str, topic: &str) -> (r: bool)
    ensures
        r == topic_matches(pattern@, topic@),
{
    if pattern.is_empty() || topic.is_empty() {
        return false;
    }
    if !contains_char(pattern, '*') && !contains_char(pattern, '>') {
        proof {
            literal_pattern_matches_itself(pattern@, topic@);
        }
        return same(pattern, topic);
    }
    let ps = split(pattern, '.');
    let ts = split(topic, '.');
    let ghost all_p = texts(ps@);
    let ghost all_t = texts(ts@);
    let mut i: usize = 0;
    assert(all_p.skip(0) =~= all_p);
    assert(all_t.skip(0) =~= all_t);
    while i < ps.len()
        invariant
            i <= ps@.len(),
            i <= ts@.len(),
            all_p == texts(ps@),
            all_t == texts(ts@),
            segments_match(all_p.skip(i as int), all_t.skip(i as int)) == segments_match(
                all_p,
                all_t,
            ),
            pattern@.len() > 0,
            topic@.len() > 0,
            all_p == split_spec(pattern@, '.'),
            all_t == split_spec(topic@, '.'),
        decreases ps@.len() - i,
    {
        let ghost p = all_p.skip(i as int);
        let ghost t = all_t.skip(i as int);
        assert(p[0] == ps@[i as int]@);
        if same(&ps[i], ">") {
            return i + 1 == ps.len() && ts.len() > i;
        }
        if i >= ts.len() {
            return false;
        }
        assert(t[0] == ts@[i as int]@);
        if !same(&ps[i], "*") && !same(&ts[i], &ps[i]) {
            return false;
        }
        assert(p.skip(1) =~= all_p.skip(i + 1));
        assert(t.skip(1) =~= all_t.skip(i + 1));
        i += 1;
    }
    ps.len() == ts.len()
}

/// A pattern whose segments are no tail wildcard matches segment by segment: each of its
/// segments is a star or the segment of the topic itself.
pub proof fn segments_match_one_by_one(pattern: Seq<Seq<char>>, topic: Seq<Seq<char>>)
    requires
        forall|k: int| 0 <= k < pattern.len() ==> #[trigger] pattern[k] != ">"@,
    ensures
        segments_match(pattern, topic) <==> pattern.len() == topic.len() && forall|k: int|
            0 <= k < pattern.len() ==> #[trigger] pattern[k] == "*"@ || pattern[k] == topic[k],
    decreases pattern.len(),
{
    if pattern.len() > 0 && topic.len() > 0 {
        let p = pattern.skip(1);
        let t = topic.skip(1);
        assert forall|k: int| 0 <= k < p.len() implies #[trigger] p[k] != ">"@ by {
            assert(p[k] == pattern[k + 1]);
        }
        segments_match_one_by_one(p, t);
        if segments_match(pattern, topic) {
            assert forall|k: int| 0 <= k < pattern.len() implies #[trigger] pattern[k] == "*"@
                || pattern[k] == topic[k] by {
                if k > 0 {
                    assert(p[k - 1] == pattern[k] && t[k - 1] == topic[k]);
                }
            }
        }
        if pattern.len() == topic.len() && forall|k: int|
            0 <= k < pattern.len() ==> #[trigger] pattern[k] == "*"@ || pattern[k] == topic[k] {
            assert forall|k: int| 0 <= k < p.len() implies #[trigger] p[k] == "*"@ || p[k]
                == t[k] by {
                assert(p[k] == pattern[k + 1] && t[k] == topic[k + 1]);
            }
        }
    } else if pattern.len() > 0 {
        assert(pattern[0] != ">"@);
    }
}

/// A tail wildcard stands for the rest of the topic, which is not empty: the segments
/// before it match the start of the topic one by one.
pub proof fn tail_wildcard_matches_the_rest(head: Seq<Seq<char>>, topic: Seq<Seq<char>>)
    requires
        forall|k: int| 0 <= k < head.len() ==> #[trigger] head[k] != ">"@,
    ensures
        segments_match(head.push(">"@), topic) <==> topic.len() > head.len() && forall|k: int|
            0 <= k < head.len() ==> #[trigger] head[k] == "*"@ || head[k] == topic[k],
    decreases head.len(),
{
    let pattern = head.push(">"@);
    if head.len() > 0 {
        assert(pattern[0] == head[0]);
        if topic.len() > 0 {
            let h = head.skip(1);
            let t = topic.skip(1);
            assert(pattern.skip(1) =~= h.push(">"@));
            assert forall|k: int| 0 <= k < h.len() implies #[trigger] h[k] != ">"@ by {
                assert(h[k] == head[k + 1]);
            }
            tail_wildcard_matches_the_rest(h, t);
            if segments_match(pattern, topic) {
                assert forall|k: int| 0 <= k < head.len() implies #[trigger] head[k] == "*"@
                    || head[k] == topic[k] by {
                    if k > 0 {
                        assert(h[k - 1] == head[k] && t[k - 1] == topic[k]);
                    }
                }
            }
            if topic.len() > head.len() && forall|k: int|
                0 <= k < head.len() ==> #[trigger] head[k] == "*"@ || head[k] == topic[k] {
                assert forall|k: int| 0 <= k < h.len() implies #[trigger] h[k] == "*"@ || h[k]
                    == t[k] by {
                    assert(h[k] == head[k + 1] && t[k] == topic[k + 1]);
                }
            }
        }
    } else {
        assert(pattern[0] == ">"@);
    }
}

} // verus!
