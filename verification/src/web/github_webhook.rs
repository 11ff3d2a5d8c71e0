//! Intake of GitHub webhook deliveries.
//!
//! A delivery is accepted where its signature is the HMAC-SHA256 of its body
//! under the shared secret. A delivery that was seen in the last ten minutes is
//! passed over. What is left is matched against the subscriptions, and each
//! subscriber gets a summary with structured metadata.
use crate::decimal::{decimal_int, show_i64};
use crate::json::{
    copy_bool, copy_i64, copy_text, field_of, i64_of, item_models, opt_bool_model, opt_number_model,
    opt_text_model, or_null, text_list_model, text_of, Fields, Json, JsonModel,
};
use crate::json_text::{parse_bytes, parsed_bytes};
use crate::text::{
    cat, cat3, contains_spec, index_of_bounds, index_of_is, opt_str, part_occurs,
    part_of_a_part_occurs, same, split_once, split_once_spec, strip_prefix, strip_prefix_spec,
    texts,
};
use hmac::Mac;
use crate::message::{lookup_absent, lookup_steps};
use vstd::prelude::*;
use vstd::string::*;

verus! {

/// How long a delivery counts as seen, in seconds.
pub const DELIVERY_TTL_SECS: i64 = 600;

// ─── Deduplication ──────────────────────────────────────────────────────────

/// The entries as a map. A later entry with the same key wins.
spec fn entry_map(v: Seq<(String, i64)>) -> Map<Seq<char>, i64>
    decreases v.len(),
{
    if v.len() == 0 {
        Map::empty()
    } else {
        entry_map(v.drop_last()).insert(v.last().0@, v.last().1)
    }
}

spec fn keys_differ(v: Seq<(String, i64)>) -> bool {
    forall|i: int, j: int| 0 <= i < j < v.len() ==> (#[trigger] v[i]).0@ != (#[trigger] v[j]).0@
}

proof fn entry_map_has(v: Seq<(String, i64)>, key: Seq<char>)
    requires
        keys_differ(v),
    ensures
        entry_map(v).contains_key(key) <==> exists|i: int|
            0 <= i < v.len() && (#[trigger] v[i]).0@ == key,
    decreases v.len(),
{
    if v.len() > 0 {
        let t = v.drop_last();
        assert forall|i: int, j: int| 0 <= i < j < t.len() implies (#[trigger] t[i]).0@ != (
        #[trigger] t[j]).0@ by {
            assert(t[i] == v[i] && t[j] == v[j]);
        }
        entry_map_has(t, key);
        if exists|i: int| 0 <= i < t.len() && (#[trigger] t[i]).0@ == key {
            let i = choose|i: int| 0 <= i < t.len() && (#[trigger] t[i]).0@ == key;
            assert(v[i] == t[i]);
        }
        if exists|i: int| 0 <= i < v.len() && (#[trigger] v[i]).0@ == key {
            let i = choose|i: int| 0 <= i < v.len() && (#[trigger] v[i]).0@ == key;
            if i < t.len() {
                assert(t[i] == v[i]);
            } else {
                assert(v.last().0@ == key);
            }
        }
        assert(v[v.len() - 1] == v.last());
    }
}

/// The deliveries of `m` that still count as seen at `now`.
pub open spec fn still_seen(m: Map<Seq<char>, i64>, now: i64) -> Map<Seq<char>, i64> {
    Map::new(
        |id: Seq<char>| m.contains_key(id) && now - m[id] < DELIVERY_TTL_SECS,
        |id: Seq<char>| m[id],
    )
}

/// Whether a delivery is new at `now`, and what is remembered after it was seen.
pub open spec fn recorded(m: Map<Seq<char>, i64>, id: Seq<char>, now: i64) -> (
    bool,
    Map<Seq<char>, i64>,
) {
    let seen = still_seen(m, now);
    if seen.contains_key(id) {
        (false, seen)
    } else {
        (true, seen.insert(id, now))
    }
}

/// When each delivery was first seen.
pub struct DeliveryDedupe {
    seen: Vec<(String, i64)>,
}

impl View for DeliveryDedupe {
    type V = Map<Seq<char>, i64>;

    closed spec fn view(&self) -> Map<Seq<char>, i64> {
        entry_map(self.seen@)
    }
}

impl DeliveryDedupe {
    #[verifier::type_invariant]
    spec fn wf(self) -> bool {
        keys_differ(self.seen@)
    }

    /// Nothing was seen.
    pub fn new() -> (r: DeliveryDedupe)
        ensures
            r@ == Map::<Seq<char>, i64>::empty(),
    {
        DeliveryDedupe { seen: Vec::new() }
    }

    /// Forgets the deliveries that no longer count as seen at `now`. Where the
    /// delivery `id` is not among the others, notes it and returns `true`.
    pub fn check_and_record(&mut self, id: &str, now: i64) -> (r: bool)
        ensures
            (r, final(self)@) == recorded(old(self)@, id@, now),
    {
        proof {
            use_type_invariant(&*self);
        }
        let ghost all = self.seen@;
        let mut kept: Vec<(String, i64)> = Vec::new();
        let mut found: bool = false;
        let mut i: usize = 0;
        assert(entry_map(kept@) =~= still_seen(entry_map(all.take(0)), now));
        while i < self.seen.len()
            invariant
                i <= self.seen@.len(),
                all == self.seen@,
                all == old(self).seen@,
                keys_differ(all),
                keys_differ(kept@),
                forall|k: int|
                    0 <= k < kept@.len() ==> exists|j: int|
                        0 <= j < i && (#[trigger] kept@[k]).0@ == (#[trigger] all[j]).0@,
                entry_map(kept@) == still_seen(entry_map(all.take(i as int)), now),
                found == exists|k: int| 0 <= k < kept@.len() && (#[trigger] kept@[k]).0@ == id@,
            decreases self.seen@.len() - i,
        {
            let ghost head = all.take(i as int);
            let ghost next = all.take(i + 1);
            let ghost before = kept@;
            let key = self.seen[i].0.clone();
            let ts: i64 = self.seen[i].1;
            proof {
                assert(next.drop_last() =~= head);
                assert(next.last() == all[i as int]);
                assert(keys_differ(head)) by {
                    assert forall|a: int, b: int| 0 <= a < b < head.len() implies (
                    #[trigger] head[a]).0@ != (#[trigger] head[b]).0@ by {
                        assert(head[a] == all[a] && head[b] == all[b]);
                    }
                }
                entry_map_has(head, key@);
                assert(!entry_map(head).contains_key(key@)) by {
                    if entry_map(head).contains_key(key@) {
                        let j = choose|j: int| 0 <= j < head.len() && (#[trigger] head[j]).0@
                            == key@;
                        assert(all[j] == head[j]);
                        assert(all[j].0@ != all[i as int].0@);
                    }
                }
                assert forall|k: int| 0 <= k < before.len() implies (#[trigger] before[k]).0@
                    != key@ by {
                    let j = choose|j: int| 0 <= j < i && before[k].0@ == (#[trigger] all[j]).0@;
                    assert(all[j].0@ != all[i as int].0@);
                }
            }
            if (now as i128) - (ts as i128) < DELIVERY_TTL_SECS as i128 {
                if same(&key, id) {
                    found = true;
                }
                kept.push((key, ts));
                proof {
                    assert(kept@.drop_last() =~= before);
                    assert(entry_map(kept@) =~= still_seen(entry_map(next), now));
                    assert forall|k: int| 0 <= k < kept@.len() implies exists|j: int|
                        0 <= j < i + 1 && (#[trigger] kept@[k]).0@ == (#[trigger] all[j]).0@ by {
                        if k < before.len() {
                            assert(kept@[k] == before[k]);
                            let j = choose|j: int|
                                0 <= j < i && before[k].0@ == (#[trigger] all[j]).0@;
                            assert(kept@[k].0@ == all[j].0@);
                        } else {
                            assert(kept@[k].0@ == all[i as int].0@);
                        }
                    }
                    if found {
                        if exists|k: int| 0 <= k < before.len() && (#[trigger] before[k]).0@
                            == id@ {
                            let k = choose|k: int|
                                0 <= k < before.len() && (#[trigger] before[k]).0@ == id@;
                            assert(kept@[k].0@ == id@);
                        } else {
                            assert(kept@[before.len() as int].0@ == id@);
                        }
                    } else {
                        assert forall|k: int| 0 <= k < kept@.len() implies (#[trigger] kept@[k]).0@
                            != id@ by {
                            if k < before.len() {
                                assert(kept@[k] == before[k]);
                            }
                        }
                    }
                }
            } else {
                assert(entry_map(kept@) =~= still_seen(entry_map(next), now));
            }
            i += 1;
        }
        proof {
            assert(all.take(i as int) =~= all);
            entry_map_has(kept@, id@);
        }
        if !found {
            let ghost before = kept@;
            kept.push((String::from_str(id), now));
            assert(kept@.drop_last() =~= before);
        }
        *self = DeliveryDedupe { seen: kept };
        !found
    }
}

/// A delivery is blocked for as long as it counts as seen.
pub proof fn repeat_is_blocked(m: Map<Seq<char>, i64>, id: Seq<char>, first: i64, now: i64)
    requires
        !still_seen(m, first).contains_key(id),
        now - first < DELIVERY_TTL_SECS,
    ensures
        still_seen(still_seen(m, first).insert(id, first), now).contains_key(id),
{
}

/// A delivery passes again after that time.
pub proof fn repeat_passes_after_ttl(m: Map<Seq<char>, i64>, id: Seq<char>, first: i64, now: i64)
    requires
        !still_seen(m, first).contains_key(id),
        now - first >= DELIVERY_TTL_SECS,
    ensures
        !still_seen(still_seen(m, first).insert(id, first), now).contains_key(id),
{
}

// ─── Signature ──────────────────────────────────────────────────────────────

/// The value of a hexadecimal digit.
pub open spec fn hex_digit(c: char) -> Option<int> {
    if '0' <= c <= '9' {
        Some(c as u32 - '0' as u32)
    } else if 'a' <= c <= 'f' {
        Some(c as u32 - 'a' as u32 + 10)
    } else if 'A' <= c <= 'F' {
        Some(c as u32 - 'A' as u32 + 10)
    } else {
        None
    }
}

/// The bytes that pairs of hexadecimal digits denote.
pub open spec fn hex_bytes(s: Seq<char>) -> Option<Seq<u8>> {
    if s.len() % 2 == 0 && forall|i: int| 0 <= i < s.len() ==> hex_digit(#[trigger] s[i]) is Some {
        Some(
            Seq::new(
                s.len() / 2,
                |i: int| (16 * hex_digit(s[2 * i])->0 + hex_digit(s[2 * i + 1])->0) as u8,
            ),
        )
    } else {
        None
    }
}

/// `hex::decode` reads pairs of hexadecimal digits of either case as bytes, and
/// fails on an odd length or on any other character.
#[verifier::external_body]
fn hex_decode(s: &str) -> (r: Option<Vec<u8>>)
    ensures
        match r {
            Some(v) => hex_bytes(s@) == Some(v@),
            None => hex_bytes(s@) is None,
        },
{
    hex::decode(s).ok()
}

/// HMAC-SHA256 of a message under a key.
pub uninterp spec fn hmac_sha256(key: Seq<u8>, message: Seq<u8>) -> Seq<u8>;

/// `Hmac::<Sha256>::verify_slice`, on a MAC made by `new_from_slice`, which
/// takes keys of every length, and fed the message by `update`: succeeds exactly
/// where the tag is the whole HMAC-SHA256 of the message under the key.
#[verifier::external_body]
fn mac_matches(key: &[u8], message: &[u8], tag: &[u8]) -> (r: bool)
    ensures
        r == (tag@ == hmac_sha256(key@, message@)),
{
    match hmac::Hmac::<sha2::Sha256>::new_from_slice(key) {
        Ok(mut mac) => {
            mac.update(message);
            mac.verify_slice(tag).is_ok()
        },
        Err(_) => false,
    }
}

/// Whether the header is `sha256=` and the hexadecimal form of `mac`.
pub open spec fn signature_carries(header: Seq<char>, mac: Seq<u8>) -> bool {
    match strip_prefix_spec(header, "sha256="@) {
        Some(digits) => hex_bytes(digits) == Some(mac),
        None => false,
    }
}

/// The tag that a signature header carries: the bytes after `sha256=`.
pub open spec fn signature_tag(header: Seq<char>) -> Option<Seq<u8>> {
    match strip_prefix_spec(header, "sha256="@) {
        Some(digits) => hex_bytes(digits),
        None => None,
    }
}

/// The tag that a signature header carries.
pub fn read_signature(header_value: &str) -> (r: Option<Vec<u8>>)
    ensures
        match r {
            Some(v) => signature_tag(header_value@) == Some(v@),
            None => signature_tag(header_value@) is None,
        },
{
    match strip_prefix(header_value, "sha256=") {
        Some(digits) => hex_decode(digits),
        None => None,
    }
}

/// Whether the header is the signature of `body` under `secret`.
pub fn verify_signature(secret: &[u8], body: &[u8], header_value: &str) -> (r: bool)
    ensures
        r == signature_carries(header_value@, hmac_sha256(secret@, body@)),
{
    match read_signature(header_value) {
        Some(tag) => mac_matches(secret, body, &tag),
        None => false,
    }
}

// ─── Subscriptions ──────────────────────────────────────────────────────────

/// A subscription to events of a repository.
#[derive(Debug, Clone)]
pub struct GitHubWebhookSubscription {
    pub repo: String,
    /// Events, each `event` or `event.action`.
    pub events: Vec<String>,
    /// The bus target that gets the deliveries.
    pub deliver_to: String,
}

/// Configuration of the webhook intake.
#[derive(Debug, Clone)]
pub struct GitHubWebhookConfig {
    pub secret: String,
    pub subscriptions: Vec<GitHubWebhookSubscription>,
}

/// Whether a subscribed event covers a delivery: `event.action` covers that
/// action of the event, and `event` covers all of its actions.
pub open spec fn event_covers(
    subscribed: Seq<char>,
    event: Seq<char>,
    action: Option<Seq<char>>,
) -> bool {
    match split_once_spec(subscribed, '.') {
        Some((base, sub_action)) => base == event && action == Some(sub_action),
        None => subscribed == event,
    }
}

impl GitHubWebhookSubscription {
    /// Whether this subscription covers a delivery.
    pub open spec fn covers(
        self,
        repo: Seq<char>,
        event: Seq<char>,
        action: Option<Seq<char>>,
    ) -> bool {
        &&& self.repo@ == repo
        &&& exists|i: int|
            0 <= i < self.events@.len() && event_covers(
                (#[trigger] self.events@[i])@,
                event,
                action,
            )
    }
}

/// The targets of the subscriptions that cover a delivery, in order.
pub open spec fn targets_of(
    subs: Seq<GitHubWebhookSubscription>,
    repo: Seq<char>,
    event: Seq<char>,
    action: Option<Seq<char>>,
) -> Seq<Seq<char>>
    decreases subs.len(),
{
    if subs.len() == 0 {
        Seq::empty()
    } else {
        let head = targets_of(subs.drop_last(), repo, event, action);
        if subs.last().covers(repo, event, action) {
            head.push(subs.last().deliver_to@)
        } else {
            head
        }
    }
}

/// Every subscription that covers a delivery gets it, and no other target does.
pub proof fn covering_subscriptions_get_the_delivery(
    subs: Seq<GitHubWebhookSubscription>,
    repo: Seq<char>,
    event: Seq<char>,
    action: Option<Seq<char>>,
    target: Seq<char>,
)
    ensures
        targets_of(subs, repo, event, action).contains(target) <==> exists|i: int|
            0 <= i < subs.len() && (#[trigger] subs[i]).covers(repo, event, action)
                && subs[i].deliver_to@ == target,
    decreases subs.len(),
{
    let all = targets_of(subs, repo, event, action);
    if subs.len() > 0 {
        let front = subs.drop_last();
        let head = targets_of(front, repo, event, action);
        covering_subscriptions_get_the_delivery(front, repo, event, action, target);
        if all.contains(target) {
            let k = choose|k: int| 0 <= k < all.len() && all[k] == target;
            if k < head.len() {
                assert(head[k] == target);
                let i = choose|i: int|
                    0 <= i < front.len() && (#[trigger] front[i]).covers(repo, event, action)
                        && front[i].deliver_to@ == target;
                assert(subs[i] == front[i]);
            } else {
                assert(subs[subs.len() - 1] == subs.last());
            }
        }
        if exists|i: int|
            0 <= i < subs.len() && (#[trigger] subs[i]).covers(repo, event, action)
                && subs[i].deliver_to@ == target {
            let i = choose|i: int|
                0 <= i < subs.len() && (#[trigger] subs[i]).covers(repo, event, action)
                    && subs[i].deliver_to@ == target;
            if i < front.len() {
                assert(front[i] == subs[i]);
                let k = choose|k: int| 0 <= k < head.len() && head[k] == target;
                assert(all[k] == target);
            } else {
                assert(all[all.len() - 1] == target);
            }
        }
    }
}

fn covers(
    sub: &GitHubWebhookSubscription,
    repo_full_name: &str,
    event_header: &str,
    action: Option<&str>,
) -> (r: bool)
    ensures
        r == sub.covers(repo_full_name@, event_header@, opt_str(action)),
{
    if !same(&sub.repo, repo_full_name) {
        return false;
    }
    let mut i: usize = 0;
    while i < sub.events.len()
        invariant
            i <= sub.events@.len(),
            sub.repo@ == repo_full_name@,
            forall|j: int|
                0 <= j < i ==> !event_covers(
                    (#[trigger] sub.events@[j])@,
                    event_header@,
                    opt_str(action),
                ),
        decreases sub.events@.len() - i,
    {
        let ev = &sub.events[i];
        let hit: bool = match split_once(ev, '.') {
            Some((base, sub_action)) => match action {
                Some(a) => same(base, event_header) && same(a, sub_action),
                None => false,
            },
            None => same(ev, event_header),
        };
        if hit {
            assert(event_covers(sub.events@[i as int]@, event_header@, opt_str(action)));
            return true;
        }
        i += 1;
    }
    false
}

/// The targets of the subscriptions that cover a delivery, in order.
pub fn matching_targets(
    cfg: &GitHubWebhookConfig,
    repo_full_name: &str,
    event_header: &str,
    action: Option<&str>,
) -> (r: Vec<String>)
    ensures
        texts(r@) == targets_of(
            cfg.subscriptions@,
            repo_full_name@,
            event_header@,
            opt_str(action),
        ),
{
    let mut out: Vec<String> = Vec::new();
    let ghost all = cfg.subscriptions@;
    let mut i: usize = 0;
    assert(texts(out@) =~= Seq::<Seq<char>>::empty());
    while i < cfg.subscriptions.len()
        invariant
            i <= cfg.subscriptions@.len(),
            all == cfg.subscriptions@,
            texts(out@) == targets_of(
                all.take(i as int),
                repo_full_name@,
                event_header@,
                opt_str(action),
            ),
        decreases cfg.subscriptions@.len() - i,
    {
        let ghost before = texts(out@);
        assert(all.take(i + 1).drop_last() =~= all.take(i as int));
        assert(all.take(i + 1).last() == all[i as int]);
        if covers(&cfg.subscriptions[i], repo_full_name, event_header, action) {
            out.push(cfg.subscriptions[i].deliver_to.clone());
            assert(texts(out@) =~= before.push(all[i as int].deliver_to@));
        }
        i += 1;
    }
    assert(all.take(i as int) =~= all);
    out
}

// ─── Summary and metadata ───────────────────────────────────────────────────

/// A text, or the empty text where there is none.
pub open spec fn or_empty(o: Option<Seq<char>>) -> Seq<char> {
    match o {
        Some(t) => t,
        None => Seq::empty(),
    }
}

/// The second line of a summary: what the event is about. Empty for events
/// without one.
pub open spec fn summary_detail(event: Seq<char>, payload: JsonModel) -> Seq<char> {
    let pr = payload.at("pull_request"@);
    let review = payload.at("review"@);
    let issue = payload.at("issue"@);
    let comment = payload.at("comment"@);
    if event == "pull_request"@ {
        let rest = or_empty(pr.text_field("title"@)) + " ("@ + or_empty(pr.text_field("html_url"@))
            + ")"@;
        match pr.i64_field("number"@) {
            Some(n) => "PR #"@ + decimal_int(n) + ": "@ + rest,
            None => rest,
        }
    } else if event == "pull_request_review"@ {
        let rest = "review "@ + or_empty(review.text_field("state"@)) + " ("@ + or_empty(
            review.text_field("html_url"@),
        ) + ")"@;
        match pr.i64_field("number"@) {
            Some(n) => "PR #"@ + decimal_int(n) + " "@ + rest,
            None => rest,
        }
    } else if event == "issues"@ {
        let rest = or_empty(issue.text_field("title"@)) + " ("@ + or_empty(
            issue.text_field("html_url"@),
        ) + ")"@;
        match issue.i64_field("number"@) {
            Some(n) => "Issue #"@ + decimal_int(n) + ": "@ + rest,
            None => rest,
        }
    } else if event == "issue_comment"@ {
        let rest = "("@ + or_empty(comment.text_field("html_url"@)) + ")"@;
        match issue.i64_field("number"@) {
            Some(n) => "comment on #"@ + decimal_int(n) + " "@ + rest,
            None => "comment "@ + rest,
        }
    } else {
        Seq::empty()
    }
}

/// The first line of a summary.
pub open spec fn summary_header(
    repo: Seq<char>,
    event: Seq<char>,
    action: Option<Seq<char>>,
) -> Seq<char> {
    let base = "[github] "@ + repo + " "@ + event;
    match action {
        Some(a) => base + "."@ + a,
        None => base,
    }
}

/// The summary of a delivery.
pub open spec fn summary_of(
    repo: Seq<char>,
    event: Seq<char>,
    action: Option<Seq<char>>,
    payload: JsonModel,
) -> Seq<char> {
    let header = summary_header(repo, event, action);
    let detail = summary_detail(event, payload);
    if detail.len() == 0 {
        header
    } else {
        header + "\n"@ + detail
    }
}

fn text_or_empty<'a>(o: Option<&'a Json>, key: &str) -> (r: &'a str)
    ensures
        r@ == or_empty(or_null(o).text_field(key@)),
{
    match text_of(o, key) {
        Some(t) => t,
        None => {
            proof {
                reveal_strlit("");
                assert(""@ =~= Seq::<char>::empty());
            }
            ""
        },
    }
}

fn numbered(before: &str, number: Option<i64>, after: &str, rest: String, alone: &str) -> (r: String)
    ensures
        r@ == match number {
            Some(n) => before@ + decimal_int(n as int) + after@ + rest@,
            None => alone@ + rest@,
        },
{
    match number {
        Some(n) => {
            let mut out = cat3(before, &show_i64(n), after);
            out.append(&rest);
            out
        },
        None => cat(alone, &rest),
    }
}

fn parenthesised(before: &str, url: &str) -> (r: String)
    ensures
        r@ == before@ + " ("@ + url@ + ")"@,
{
    let mut out = cat3(before, " (", url);
    out.append(")");
    out
}

fn detail(event: &str, payload: &Json) -> (r: String)
    ensures
        r@ == summary_detail(event@, payload@),
{
    proof {
        reveal_strlit("");
    }
    let pr = payload.get("pull_request");
    let review = payload.get("review");
    let issue = payload.get("issue");
    let comment = payload.get("comment");
    if same(event, "pull_request") {
        let rest = parenthesised(text_or_empty(pr, "title"), text_or_empty(pr, "html_url"));
        assert(""@ + rest@ =~= rest@);
        numbered("PR #", i64_of(pr, "number"), ": ", rest, "")
    } else if same(event, "pull_request_review") {
        let state = cat("review ", text_or_empty(review, "state"));
        let rest = parenthesised(&state, text_or_empty(review, "html_url"));
        assert(""@ + rest@ =~= rest@);
        numbered("PR #", i64_of(pr, "number"), " ", rest, "")
    } else if same(event, "issues") {
        let rest = parenthesised(text_or_empty(issue, "title"), text_or_empty(issue, "html_url"));
        assert(""@ + rest@ =~= rest@);
        numbered("Issue #", i64_of(issue, "number"), ": ", rest, "")
    } else if same(event, "issue_comment") {
        let rest = cat3("(", text_or_empty(comment, "html_url"), ")");
        numbered("comment on #", i64_of(issue, "number"), " ", rest, "comment ")
    } else {
        String::new()
    }
}

/// The summary of a delivery.
pub fn build_summary(repo: &str, event: &str, action: Option<&str>, payload: &Json) -> (r: String)
    ensures
        r@ == summary_of(repo@, event@, opt_str(action), payload@),
{
    let mut header = cat3("[github] ", repo, " ");
    header.append(event);
    match action {
        Some(a) => {
            header.append(".");
            header.append(a);
        },
        None => {},
    }
    let detail = detail(event, payload);
    if !detail.as_str().is_empty() {
        header.append("\n");
        header.append(&detail);
    }
    header
}

/// The names of a list of labels.
pub open spec fn label_names(labels: Seq<JsonModel>) -> Seq<Seq<char>>
    decreases labels.len(),
{
    if labels.len() == 0 {
        Seq::empty()
    } else {
        let head = label_names(labels.drop_last());
        match labels.last().text_field("name"@) {
            Some(t) => head.push(t),
            None => head,
        }
    }
}

/// The names of the labels of an issue, or null where it has no list of them.
pub open spec fn labels_model(issue: JsonModel) -> JsonModel {
    match issue.list_field("labels"@) {
        Some(labels) => text_list_model(label_names(labels)),
        None => JsonModel::Null,
    }
}

/// What the metadata says of a pull request.
pub open spec fn pull_request_model(pr: JsonModel) -> JsonModel {
    JsonModel::Object(
        seq![
            ("number"@, opt_number_model(pr.i64_field("number"@))),
            ("title"@, opt_text_model(pr.text_field("title"@))),
            ("state"@, opt_text_model(pr.text_field("state"@))),
            ("merged"@, opt_bool_model(pr.bool_field("merged"@))),
            ("html_url"@, opt_text_model(pr.text_field("html_url"@))),
            ("user"@, opt_text_model(pr.at("user"@).text_field("login"@))),
        ],
    )
}

/// What the metadata says of an issue.
pub open spec fn issue_model(issue: JsonModel) -> JsonModel {
    JsonModel::Object(
        seq![
            ("number"@, opt_number_model(issue.i64_field("number"@))),
            ("title"@, opt_text_model(issue.text_field("title"@))),
            ("state"@, opt_text_model(issue.text_field("state"@))),
            ("html_url"@, opt_text_model(issue.text_field("html_url"@))),
            ("labels"@, labels_model(issue)),
        ],
    )
}

/// What the metadata says of a review.
pub open spec fn review_model(review: JsonModel) -> JsonModel {
    JsonModel::Object(
        seq![
            ("state"@, opt_text_model(review.text_field("state"@))),
            ("html_url"@, opt_text_model(review.text_field("html_url"@))),
            ("user"@, opt_text_model(review.at("user"@).text_field("login"@))),
        ],
    )
}

/// What the metadata says of a label.
pub open spec fn label_model(label: JsonModel) -> JsonModel {
    JsonModel::Object(seq![("name"@, opt_text_model(label.text_field("name"@)))])
}

/// The field `key` with the model of a part of the payload, where the payload
/// has that part.
pub open spec fn part(key: Seq<char>, model: Option<JsonModel>) -> Seq<(Seq<char>, JsonModel)> {
    match model {
        Some(m) => seq![(key, m)],
        None => Seq::empty(),
    }
}

/// The metadata of a delivery.
pub open spec fn metadata_model(
    repo: Seq<char>,
    event: Seq<char>,
    action: Option<Seq<char>>,
    delivery_id: Seq<char>,
    payload: JsonModel,
) -> JsonModel {
    let base = seq![
        ("delivery_id"@, JsonModel::Text(delivery_id)),
        ("event"@, JsonModel::Text(event)),
        ("action"@, opt_text_model(action)),
        ("repo"@, JsonModel::Text(repo)),
        ("sender"@, opt_text_model(payload.at("sender"@).text_field("login"@))),
    ];
    let pr = match payload.get("pull_request"@) {
        Some(v) => Some(pull_request_model(v)),
        None => None,
    };
    let issue = match payload.get("issue"@) {
        Some(v) => Some(issue_model(v)),
        None => None,
    };
    let review = match payload.get("review"@) {
        Some(v) => Some(review_model(v)),
        None => None,
    };
    let label = match payload.get("label"@) {
        Some(v) => Some(label_model(v)),
        None => None,
    };
    JsonModel::Object(
        base + part("pull_request"@, pr) + part("issue"@, issue) + part("review"@, review) + part(
            "label"@,
            label,
        ),
    )
}

fn collect_label_names(labels: &Vec<Json>) -> (r: Vec<String>)
    ensures
        texts(r@) == label_names(item_models(labels@)),
{
    let ghost all = item_models(labels@);
    let mut out: Vec<String> = Vec::new();
    let mut i: usize = 0;
    assert(texts(out@) =~= label_names(all.take(0)));
    while i < labels.len()
        invariant
            i <= labels@.len(),
            all == item_models(labels@),
            texts(out@) == label_names(all.take(i as int)),
        decreases labels@.len() - i,
    {
        let ghost before = texts(out@);
        assert(all.take(i + 1).drop_last() =~= all.take(i as int));
        assert(all.take(i + 1).last() == labels@[i as int]@);
        match labels[i].text_field("name") {
            Some(t) => {
                out.push(String::from_str(t));
                assert(texts(out@) =~= before.push(t@));
            },
            None => {},
        }
        i += 1;
    }
    assert(all.take(i as int) =~= all);
    out
}

fn pull_request_json(pr: &Json) -> (r: Json)
    ensures
        r@ == pull_request_model(pr@),
{
    let o = Some(pr);
    let mut f = Fields::new();
    f.put("number", copy_i64(o, "number"));
    f.put("title", copy_text(o, "title"));
    f.put("state", copy_text(o, "state"));
    f.put("merged", copy_bool(o, "merged"));
    f.put("html_url", copy_text(o, "html_url"));
    f.put("user", copy_text(field_of(o, "user"), "login"));
    assert(f@ =~= pull_request_model(pr@)->Object_0);
    f.object()
}

fn issue_json(issue: &Json) -> (r: Json)
    ensures
        r@ == issue_model(issue@),
{
    let o = Some(issue);
    let labels = match issue.list_field("labels") {
        Some(labels) => Json::texts(&collect_label_names(labels)),
        None => Json::Null,
    };
    let mut f = Fields::new();
    f.put("number", copy_i64(o, "number"));
    f.put("title", copy_text(o, "title"));
    f.put("state", copy_text(o, "state"));
    f.put("html_url", copy_text(o, "html_url"));
    f.put("labels", labels);
    assert(f@ =~= issue_model(issue@)->Object_0);
    f.object()
}

fn review_json(review: &Json) -> (r: Json)
    ensures
        r@ == review_model(review@),
{
    let o = Some(review);
    let mut f = Fields::new();
    f.put("state", copy_text(o, "state"));
    f.put("html_url", copy_text(o, "html_url"));
    f.put("user", copy_text(field_of(o, "user"), "login"));
    assert(f@ =~= review_model(review@)->Object_0);
    f.object()
}

fn label_json(label: &Json) -> (r: Json)
    ensures
        r@ == label_model(label@),
{
    let mut f = Fields::new();
    f.put("name", copy_text(Some(label), "name"));
    assert(f@ =~= label_model(label@)->Object_0);
    f.object()
}

/// The metadata of a delivery.
pub fn build_metadata(
    repo: &str,
    event: &str,
    action: Option<&str>,
    delivery_id: &str,
    payload: &Json,
) -> (r: Json)
    ensures
        r@ == metadata_model(repo@, event@, opt_str(action), delivery_id@, payload@),
{
    let mut f = Fields::new();
    f.put_text("delivery_id", delivery_id);
    f.put_text("event", event);
    f.put(
        "action",
        match action {
            Some(a) => Json::text(a),
            None => Json::Null,
        },
    );
    f.put_text("repo", repo);
    f.put("sender", copy_text(payload.get("sender"), "login"));
    match payload.get("pull_request") {
        Some(pr) => {
            f.put("pull_request", pull_request_json(pr));
        },
        None => {},
    }
    match payload.get("issue") {
        Some(issue) => {
            f.put("issue", issue_json(issue));
        },
        None => {},
    }
    match payload.get("review") {
        Some(review) => {
            f.put("review", review_json(review));
        },
        None => {},
    }
    match payload.get("label") {
        Some(label) => {
            f.put("label", label_json(label));
        },
        None => {},
    }
    assert(f@ =~= metadata_model(
        repo@,
        event@,
        opt_str(action),
        delivery_id@,
        payload@,
    )->Object_0);
    f.object()
}

// ─── The request ────────────────────────────────────────────────────────────

/// The answer to a webhook request.
#[derive(Debug, Clone, Copy, PartialEq, Eq)]
pub enum WebhookStatus {
    Accepted,
    BadRequest,
    Unauthorized,
    NotFound,
}

/// A message for a subscriber.
#[derive(Debug)]
pub struct WebhookPublish {
    pub target: String,
    pub summary: String,
    pub metadata: Json,
}

/// The parts of a webhook request.
pub struct WebhookRequest<'a> {
    pub signature: Option<&'a str>,
    pub event: Option<&'a str>,
    pub delivery_id: Option<&'a str>,
    pub body: &'a [u8],
}

/// The repository that a payload names, or the empty text.
pub open spec fn payload_repo(payload: JsonModel) -> Seq<char> {
    or_empty(payload.at("repository"@).text_field("full_name"@))
}

/// Whether `v` holds one message with the summary and the metadata for each of
/// the targets, in order.
pub open spec fn publishes(
    v: Seq<WebhookPublish>,
    targets: Seq<Seq<char>>,
    summary: Seq<char>,
    metadata: JsonModel,
) -> bool {
    &&& v.len() == targets.len()
    &&& forall|i: int|
        0 <= i < v.len() ==> (#[trigger] v[i]).target@ == targets[i] && v[i].summary@ == summary
            && v[i].metadata@ == metadata
}

/// Whether the request passes the checks that come before deduplication, and
/// the answer to it where it does not. `signed` says whether the body carries
/// its signature under the secret.
pub open spec fn admission(
    cfg: Option<&GitHubWebhookConfig>,
    signed: bool,
    event: Seq<char>,
    delivery_id: Seq<char>,
) -> WebhookStatus {
    match cfg {
        None => WebhookStatus::NotFound,
        Some(c) => if c.secret@.len() == 0 || !signed {
            WebhookStatus::Unauthorized
        } else if event.len() == 0 || delivery_id.len() == 0 {
            WebhookStatus::BadRequest
        } else {
            WebhookStatus::Accepted
        },
    }
}

/// Whether the body of a request carries its signature.
pub open spec fn request_signed(cfg: Option<&GitHubWebhookConfig>, req: WebhookRequest) -> bool {
    cfg matches Some(c) && signature_carries(
        or_empty(opt_str(req.signature)),
        hmac_sha256(vstd::utf8::encode_utf8(c.secret@), req.body@),
    )
}

/// The checks that come before deduplication.
pub fn check_request(
    cfg: Option<&GitHubWebhookConfig>,
    signed: bool,
    event: &str,
    delivery_id: &str,
) -> (r: WebhookStatus)
    ensures
        r == admission(cfg, signed, event@, delivery_id@),
{
    match cfg {
        None => WebhookStatus::NotFound,
        Some(c) => {
            if c.secret.as_str().is_empty() || !signed {
                WebhookStatus::Unauthorized
            } else if event.is_empty() || delivery_id.is_empty() {
                WebhookStatus::BadRequest
            } else {
                WebhookStatus::Accepted
            }
        },
    }
}

/// Whether `r` answers a delivery that passed the checks and is no repeat.
pub open spec fn delivered(
    cfg: GitHubWebhookConfig,
    event: Seq<char>,
    delivery_id: Seq<char>,
    payload: Option<JsonModel>,
    r: (WebhookStatus, Vec<WebhookPublish>),
) -> bool {
    match payload {
        None => r.0 == WebhookStatus::BadRequest && r.1@.len() == 0,
        Some(p) => {
            let action = p.text_field("action"@);
            let repo = payload_repo(p);
            &&& r.0 == WebhookStatus::Accepted
            &&& if repo.len() == 0 {
                r.1@.len() == 0
            } else {
                publishes(
                    r.1@,
                    targets_of(cfg.subscriptions@, repo, event, action),
                    summary_of(repo, event, action, p),
                    metadata_model(repo, event, action, delivery_id, p),
                )
            }
        },
    }
}

/// Whether `r` answers a request at `now`, and `after` is remembered from then on.
pub open spec fn answered(
    cfg: Option<&GitHubWebhookConfig>,
    req: WebhookRequest,
    before: Map<Seq<char>, i64>,
    now: i64,
    r: (WebhookStatus, Vec<WebhookPublish>),
    after: Map<Seq<char>, i64>,
) -> bool {
    let event = or_empty(opt_str(req.event));
    let id = or_empty(opt_str(req.delivery_id));
    let status = admission(cfg, request_signed(cfg, req), event, id);
    if status != WebhookStatus::Accepted {
        r.0 == status && r.1@.len() == 0 && after == before
    } else {
        let (new, seen) = recorded(before, id, now);
        &&& after == seen
        &&& if new {
            delivered(*(cfg->0), event, id, parsed_bytes(req.body@), r)
        } else {
            r.0 == WebhookStatus::Accepted && r.1@.len() == 0
        }
    }
}

/// The messages of a delivery that passed the checks and is no repeat.
pub fn publish_delivery(
    cfg: &GitHubWebhookConfig,
    event: &str,
    delivery_id: &str,
    payload: Option<&Json>,
) -> (r: (WebhookStatus, Vec<WebhookPublish>))
    ensures
        delivered(
            *cfg,
            event@,
            delivery_id@,
            match payload {
                Some(p) => Some(p@),
                None => None,
            },
            r,
        ),
{
    let mut out: Vec<WebhookPublish> = Vec::new();
    let p = match payload {
        None => {
            return (WebhookStatus::BadRequest, out);
        },
        Some(p) => p,
    };
    let repo = text_or_empty(p.get("repository"), "full_name");
    if repo.is_empty() {
        return (WebhookStatus::Accepted, out);
    }
    let action = p.text_field("action");
    let targets = matching_targets(cfg, repo, event, action);
    let ghost all = texts(targets@);
    let summary = build_summary(repo, event, action, p);
    let metadata = build_metadata(repo, event, action, delivery_id, p);
    let mut i: usize = 0;
    while i < targets.len()
        invariant
            i <= targets@.len(),
            all == texts(targets@),
            publishes(out@, all.take(i as int), summary@, metadata@),
        decreases targets@.len() - i,
    {
        out.push(
            WebhookPublish {
                target: targets[i].clone(),
                summary: summary.clone(),
                metadata: metadata.copy(),
            },
        );
        i += 1;
    }
    assert(all.take(i as int) =~= all);
    (WebhookStatus::Accepted, out)
}

/// The answer to a webhook request, and the messages that it asks for.
pub fn github_webhook(
    cfg: Option<&GitHubWebhookConfig>,
    req: &WebhookRequest,
    deliveries: &mut DeliveryDedupe,
    now: i64,
) -> (r: (WebhookStatus, Vec<WebhookPublish>))
    ensures
        answered(cfg, *req, old(deliveries)@, now, r, final(deliveries)@),
{
    proof {
        reveal_strlit("");
        assert(""@ =~= Seq::<char>::empty());
    }
    let none: Vec<WebhookPublish> = Vec::new();
    let header = match req.signature {
        Some(s) => s,
        None => "",
    };
    let event = match req.event {
        Some(s) => s,
        None => "",
    };
    let id = match req.delivery_id {
        Some(s) => s,
        None => "",
    };
    let signed: bool = match cfg {
        Some(c) => verify_signature(c.secret.as_str().as_bytes(), req.body, header),
        None => false,
    };
    let status = check_request(cfg, signed, event, id);
    match (status, cfg) {
        (WebhookStatus::Accepted, Some(c)) => {
            if !deliveries.check_and_record(id, now) {
                return (WebhookStatus::Accepted, none);
            }
            match parse_bytes(req.body) {
                Some(p) => publish_delivery(c, event, id, Some(&p)),
                None => publish_delivery(c, event, id, None),
            }
        },
        _ => (status, none),
    }
}

/// A request without a configuration, without a secret or without its signature
/// is refused, whatever else it holds, and asks for no message.
pub proof fn unsigned_requests_are_refused(
    cfg: Option<&GitHubWebhookConfig>,
    event: Seq<char>,
    delivery_id: Seq<char>,
)
    ensures
        admission(cfg, false, event, delivery_id) != WebhookStatus::Accepted,
{
}

// ─── What the intake is for ─────────────────────────────────────────────────

/// An event with its action, as a subscription lists it.
pub open spec fn event_with_action(event: Seq<char>, action: Seq<char>) -> Seq<char> {
    event + "."@ + action
}

proof fn dotted_text_splits(event: Seq<char>, action: Seq<char>)
    requires
        !event.contains('.'),
    ensures
        split_once_spec(event, '.') is None,
        split_once_spec(event_with_action(event, action), '.') == Some((event, action)),
{
    reveal_strlit(".");
    let full = event_with_action(event, action);
    let n = event.len() as int;
    assert forall|j: int| 0 <= j < n implies event[j] != '.' && full[j] != '.' by {
        assert(event.contains(event[j]));
        assert(full[j] == event[j]);
    }
    index_of_is(event, '.', n);
    assert(full[n] == '.');
    index_of_is(full, '.', n);
    assert(full.take(n) =~= event);
    assert(full.skip(n + 1) =~= action);
}

proof fn split_text_is_dotted(s: Seq<char>)
    ensures
        match split_once_spec(s, '.') {
            Some((a, b)) => s == event_with_action(a, b),
            None => true,
        },
{
    reveal_strlit(".");
    index_of_bounds(s, '.');
    if let Some((a, b)) = split_once_spec(s, '.') {
        assert(s =~= event_with_action(a, b));
    }
}

/// A delivery goes to a target exactly where a subscription of its repository for that
/// target lists the event alone, which stands for every action and for none, or the event
/// with a dot and the action of the delivery.
pub proof fn delivery_goes_to_its_subscribers(
    subs: Seq<GitHubWebhookSubscription>,
    repo: Seq<char>,
    event: Seq<char>,
    action: Option<Seq<char>>,
    target: Seq<char>,
)
    requires
        !event.contains('.'),
    ensures
        targets_of(subs, repo, event, action).contains(target) <==> exists|i: int, j: int|
            0 <= i < subs.len() && 0 <= j < (#[trigger] subs[i]).events@.len() && subs[i].repo@
                == repo && subs[i].deliver_to@ == target && ((#[trigger] subs[i].events@[j])@
                == event || (action is Some && subs[i].events@[j]@ == event_with_action(
                event,
                action->0,
            ))),
{
    covering_subscriptions_get_the_delivery(subs, repo, event, action, target);
    dotted_text_splits(event, or_empty(action));
    if targets_of(subs, repo, event, action).contains(target) {
        let i = choose|i: int|
            0 <= i < subs.len() && (#[trigger] subs[i]).covers(repo, event, action)
                && subs[i].deliver_to@ == target;
        let j = choose|j: int|
            0 <= j < subs[i].events@.len() && event_covers(
                (#[trigger] subs[i].events@[j])@,
                event,
                action,
            );
        split_text_is_dotted(subs[i].events@[j]@);
    }
    if exists|i: int, j: int|
        0 <= i < subs.len() && 0 <= j < (#[trigger] subs[i]).events@.len() && subs[i].repo@ == repo
            && subs[i].deliver_to@ == target && ((#[trigger] subs[i].events@[j])@ == event || (
        action is Some && subs[i].events@[j]@ == event_with_action(event, action->0))) {
        let (i, j) = choose|i: int, j: int|
            0 <= i < subs.len() && 0 <= j < (#[trigger] subs[i]).events@.len() && subs[i].repo@
                == repo && subs[i].deliver_to@ == target && ((#[trigger] subs[i].events@[j])@
                == event || (action is Some && subs[i].events@[j]@ == event_with_action(
                event,
                action->0,
            )));
        assert(event_covers(subs[i].events@[j]@, event, action));
        assert(subs[i].covers(repo, event, action));
    }
}

/// A subscription to an event without an action brings every delivery of the event.
pub proof fn event_alone_stands_for_every_action(
    subs: Seq<GitHubWebhookSubscription>,
    i: int,
    j: int,
    event: Seq<char>,
    action: Option<Seq<char>>,
)
    requires
        0 <= i < subs.len(),
        0 <= j < subs[i].events@.len(),
        subs[i].events@[j]@ == event,
        !event.contains('.'),
    ensures
        targets_of(subs, subs[i].repo@, event, action).contains(subs[i].deliver_to@),
{
    delivery_goes_to_its_subscribers(subs, subs[i].repo@, event, action, subs[i].deliver_to@);
}

/// The targets come in the order of their subscriptions, one for each that covers the
/// delivery.
pub proof fn targets_keep_the_order_of_subscriptions(
    a: Seq<GitHubWebhookSubscription>,
    b: Seq<GitHubWebhookSubscription>,
    repo: Seq<char>,
    event: Seq<char>,
    action: Option<Seq<char>>,
)
    ensures
        targets_of(a + b, repo, event, action) == targets_of(a, repo, event, action) + targets_of(
            b,
            repo,
            event,
            action,
        ),
    decreases b.len(),
{
    if b.len() == 0 {
        assert(a + b =~= a);
        assert(targets_of(a, repo, event, action) + targets_of(b, repo, event, action)
            =~= targets_of(a, repo, event, action));
    } else {
        assert((a + b).drop_last() =~= a + b.drop_last());
        targets_keep_the_order_of_subscriptions(a, b.drop_last(), repo, event, action);
        assert(targets_of(a + b, repo, event, action) =~= targets_of(a, repo, event, action)
            + targets_of(b, repo, event, action));
    }
}

/// A delivery is new the first time; the same id is a repeat for the ten minutes after,
/// and new again then. An id does not stand in the way of another one.
pub proof fn a_delivery_counts_once_in_ten_minutes(
    m: Map<Seq<char>, i64>,
    id: Seq<char>,
    other: Seq<char>,
    first: i64,
    now: i64,
)
    requires
        first <= now,
        other != id,
    ensures
        !m.contains_key(id) ==> recorded(m, id, first).0,
        recorded(m, id, first).0 ==> recorded(recorded(m, id, first).1, id, now).0 == (now - first
            >= 600),
        !m.contains_key(other) ==> recorded(recorded(m, id, first).1, other, now).0,
        !recorded(m, id, first).0 ==> m.contains_key(id) && first - m[id] < 600,
{
}

/// A request is accepted exactly where the intake is set up with a secret, the body
/// carries its signature, and the event and the delivery are named; without a signature
/// it is refused as that before all else.
pub proof fn requests_need_a_signature_and_headers(
    cfg: Option<&GitHubWebhookConfig>,
    signed: bool,
    event: Seq<char>,
    id: Seq<char>,
)
    ensures
        admission(cfg, signed, event, id) == WebhookStatus::Accepted <==> (cfg matches Some(c)
            && c.secret@.len() > 0 && signed && event.len() > 0 && id.len() > 0),
        admission(cfg, signed, event, id) == WebhookStatus::NotFound <==> cfg is None,
        cfg is Some && !signed ==> admission(cfg, signed, event, id) == WebhookStatus::Unauthorized,
        (cfg matches Some(c) && c.secret@.len() > 0 && signed && (event.len() == 0 || id.len() == 0))
            ==> admission(cfg, signed, event, id) == WebhookStatus::BadRequest,
{
}

/// A request whose signature is not that of its body under the secret asks for no message
/// and leaves no trace.
pub proof fn forged_request_leaves_no_trace(
    cfg: Option<&GitHubWebhookConfig>,
    req: WebhookRequest,
    before: Map<Seq<char>, i64>,
    now: i64,
    r: (WebhookStatus, Vec<WebhookPublish>),
    after: Map<Seq<char>, i64>,
)
    requires
        answered(cfg, req, before, now, r, after),
        cfg is None || cfg->0.secret@.len() == 0 || req.signature is None || signature_tag(
            req.signature->0@,
        ) != Some(hmac_sha256(vstd::utf8::encode_utf8(cfg->0.secret@), req.body@)),
    ensures
        r.0 == WebhookStatus::NotFound || r.0 == WebhookStatus::Unauthorized,
        r.1@.len() == 0,
        after == before,
{
    reveal_strlit("sha256=");
}

/// A signature is `sha256=` and hexadecimal digits.
pub proof fn signature_is_prefixed_hex(digits: Seq<char>, mac: Seq<u8>)
    ensures
        signature_carries("sha256="@ + digits, mac) <==> hex_bytes(digits) == Some(mac),
        signature_tag("sha256="@ + digits) == hex_bytes(digits),
{
    reveal_strlit("sha256=");
    let s = "sha256="@ + digits;
    assert(s.take(7) =~= "sha256="@);
    assert(s.skip(7) =~= digits);
}

/// The first good request of a delivery asks for one message per covering subscription;
/// the same request again within ten minutes asks for none, and is accepted all the same.
pub proof fn repeated_request_asks_for_nothing(
    cfg: Option<&GitHubWebhookConfig>,
    req: WebhookRequest,
    m0: Map<Seq<char>, i64>,
    t1: i64,
    r1: (WebhookStatus, Vec<WebhookPublish>),
    m1: Map<Seq<char>, i64>,
    t2: i64,
    r2: (WebhookStatus, Vec<WebhookPublish>),
    m2: Map<Seq<char>, i64>,
)
    requires
        answered(cfg, req, m0, t1, r1, m1),
        answered(cfg, req, m1, t2, r2, m2),
        !m0.contains_key(or_empty(opt_str(req.delivery_id))),
        r1.0 == WebhookStatus::Accepted,
        t1 <= t2 < t1 + 600,
    ensures
        r2.0 == WebhookStatus::Accepted,
        r2.1@.len() == 0,
{
    let id = or_empty(opt_str(req.delivery_id));
    assert(recorded(m0, id, t1).1.contains_key(id));
}

/// The messages of an accepted delivery go to the targets of the covering subscriptions
/// of the repository that the payload names, in order.
pub proof fn messages_go_to_the_subscribers(
    cfg: GitHubWebhookConfig,
    event: Seq<char>,
    id: Seq<char>,
    payload: JsonModel,
    r: (WebhookStatus, Vec<WebhookPublish>),
    k: int,
)
    requires
        delivered(cfg, event, id, Some(payload), r),
        payload_repo(payload).len() > 0,
        0 <= k < r.1@.len(),
    ensures
        r.0 == WebhookStatus::Accepted,
        r.1@.len() == targets_of(
            cfg.subscriptions@,
            payload.at("repository"@).text_field("full_name"@)->0,
            event,
            payload.text_field("action"@),
        ).len(),
        r.1@[k].target@ == targets_of(
            cfg.subscriptions@,
            payload.at("repository"@).text_field("full_name"@)->0,
            event,
            payload.text_field("action"@),
        )[k],
        r.1@[k].metadata@.text_field("delivery_id"@) == Some(id),
        r.1@[k].metadata@.text_field("event"@) == Some(event),
        r.1@[k].metadata@.text_field("action"@) == payload.text_field("action"@),
        r.1@[k].metadata@.text_field("repo"@) == payload.at("repository"@).text_field("full_name"@),
        r.1@[k].metadata@.text_field("sender"@) == payload.at("sender"@).text_field("login"@),
        contains_spec(r.1@[k].summary@, payload_repo(payload)),
        contains_spec(r.1@[k].summary@, event),
{
    let repo = payload_repo(payload);
    let action = payload.text_field("action"@);
    metadata_names_the_delivery(repo, event, action, id, payload);
    summary_names_the_delivery(repo, event, action, payload);
}

/// The metadata of a delivery holds its id, its event, its action, its repository and its
/// sender, and of the pull request, the issue and the review the number, the title, the
/// state and the address, where the payload states them.
pub proof fn metadata_names_the_delivery(
    repo: Seq<char>,
    event: Seq<char>,
    action: Option<Seq<char>>,
    id: Seq<char>,
    payload: JsonModel,
)
    ensures
        ({
            let m = metadata_model(repo, event, action, id, payload);
            let pr = payload.at("pull_request"@);
            let issue = payload.at("issue"@);
            let review = payload.at("review"@);
            &&& m.text_field("delivery_id"@) == Some(id)
            &&& m.text_field("event"@) == Some(event)
            &&& m.text_field("action"@) == action
            &&& m.text_field("repo"@) == Some(repo)
            &&& m.text_field("sender"@) == payload.at("sender"@).text_field("login"@)
            &&& m.get("pull_request"@) is Some <==> payload.get("pull_request"@) is Some
            &&& m.get("issue"@) is Some <==> payload.get("issue"@) is Some
            &&& m.get("review"@) is Some <==> payload.get("review"@) is Some
            &&& m.get("label"@) is Some <==> payload.get("label"@) is Some
            &&& m.at("pull_request"@).i64_field("number"@) == pr.i64_field("number"@)
            &&& m.at("pull_request"@).text_field("title"@) == pr.text_field("title"@)
            &&& m.at("pull_request"@).text_field("state"@) == pr.text_field("state"@)
            &&& m.at("pull_request"@).bool_field("merged"@) == pr.bool_field("merged"@)
            &&& m.at("pull_request"@).text_field("html_url"@) == pr.text_field("html_url"@)
            &&& m.at("pull_request"@).text_field("user"@) == pr.at("user"@).text_field("login"@)
            &&& m.at("issue"@).i64_field("number"@) == issue.i64_field("number"@)
            &&& m.at("issue"@).text_field("title"@) == issue.text_field("title"@)
            &&& m.at("issue"@).text_field("state"@) == issue.text_field("state"@)
            &&& m.at("issue"@).text_field("html_url"@) == issue.text_field("html_url"@)
            &&& m.at("review"@).text_field("state"@) == review.text_field("state"@)
            &&& m.at("review"@).text_field("html_url"@) == review.text_field("html_url"@)
            &&& m.at("review"@).text_field("user"@) == review.at("user"@).text_field("login"@)
            &&& m.at("label"@).text_field("name"@) == payload.at("label"@).text_field("name"@)
        }),
{
    reveal_strlit("delivery_id");
    reveal_strlit("event");
    reveal_strlit("action");
    reveal_strlit("repo");
    reveal_strlit("sender");
    reveal_strlit("pull_request");
    reveal_strlit("issue");
    reveal_strlit("review");
    reveal_strlit("label");
    assert("delivery_id"@.len() == 11 && "event"@.len() == 5 && "action"@.len() == 6 && "repo"@.len() == 4 && "sender"@.len() == 6 && "pull_request"@.len() == 12 && "issue"@.len() == 5 && "review"@.len() == 6 && "label"@.len() == 5);
    assert("event"@[0] != "issue"@[0]);
    assert("event"@[0] != "label"@[0]);
    assert("action"@[0] != "sender"@[0]);
    assert("action"@[0] != "review"@[0]);
    assert("sender"@[0] != "review"@[0]);
    assert("issue"@[0] != "label"@[0]);
    let m = metadata_model(repo, event, action, id, payload);
    let fields = m->Object_0;
    let a: int = if payload.get("pull_request"@) is Some {
        1
    } else {
        0
    };
    let b: int = a + if payload.get("issue"@) is Some {
        1int
    } else {
        0
    };
    let c: int = b + if payload.get("review"@) is Some {
        1int
    } else {
        0
    };
    lookup_steps(fields, "delivery_id"@, 0);
    lookup_steps(fields, "event"@, 1);
    lookup_steps(fields, "action"@, 2);
    lookup_steps(fields, "repo"@, 3);
    lookup_steps(fields, "sender"@, 4);
    if payload.get("pull_request"@) is Some {
        lookup_steps(fields, "pull_request"@, 5);
        pull_request_is_kept(payload.at("pull_request"@));
    } else {
        lookup_absent(fields, "pull_request"@);
    }
    if payload.get("issue"@) is Some {
        lookup_steps(fields, "issue"@, 5 + a);
        issue_is_kept(payload.at("issue"@));
    } else {
        lookup_absent(fields, "issue"@);
    }
    if payload.get("review"@) is Some {
        lookup_steps(fields, "review"@, 5 + b);
        review_is_kept(payload.at("review"@));
    } else {
        lookup_absent(fields, "review"@);
    }
    if payload.get("label"@) is Some {
        lookup_steps(fields, "label"@, 5 + c);
        label_is_kept(payload.at("label"@));
    } else {
        lookup_absent(fields, "label"@);
    }
}

proof fn pull_request_is_kept(pr: JsonModel)
    ensures
        pull_request_model(pr).i64_field("number"@) == pr.i64_field("number"@),
        pull_request_model(pr).text_field("title"@) == pr.text_field("title"@),
        pull_request_model(pr).text_field("state"@) == pr.text_field("state"@),
        pull_request_model(pr).bool_field("merged"@) == pr.bool_field("merged"@),
        pull_request_model(pr).text_field("html_url"@) == pr.text_field("html_url"@),
        pull_request_model(pr).text_field("user"@) == pr.at("user"@).text_field("login"@),
{
    reveal_strlit("number");
    reveal_strlit("title");
    reveal_strlit("state");
    reveal_strlit("merged");
    reveal_strlit("html_url");
    reveal_strlit("user");
    assert("number"@.len() == 6 && "title"@.len() == 5 && "state"@.len() == 5 && "merged"@.len() == 6 && "html_url"@.len() == 8 && "user"@.len() == 4);
    assert("number"@[0] != "merged"@[0]);
    assert("title"@[0] != "state"@[0]);
    let fields = pull_request_model(pr)->Object_0;
    lookup_steps(fields, "number"@, 0);
    lookup_steps(fields, "title"@, 1);
    lookup_steps(fields, "state"@, 2);
    lookup_steps(fields, "merged"@, 3);
    lookup_steps(fields, "html_url"@, 4);
    lookup_steps(fields, "user"@, 5);
}

proof fn issue_is_kept(issue: JsonModel)
    ensures
        issue_model(issue).i64_field("number"@) == issue.i64_field("number"@),
        issue_model(issue).text_field("title"@) == issue.text_field("title"@),
        issue_model(issue).text_field("state"@) == issue.text_field("state"@),
        issue_model(issue).text_field("html_url"@) == issue.text_field("html_url"@),
{
    reveal_strlit("number");
    reveal_strlit("title");
    reveal_strlit("state");
    reveal_strlit("html_url");
    reveal_strlit("labels");
    assert("number"@.len() == 6 && "title"@.len() == 5 && "state"@.len() == 5 && "html_url"@.len() == 8 && "labels"@.len() == 6);
    assert("number"@[0] != "labels"@[0]);
    assert("title"@[0] != "state"@[0]);
    let fields = issue_model(issue)->Object_0;
    lookup_steps(fields, "number"@, 0);
    lookup_steps(fields, "title"@, 1);
    lookup_steps(fields, "state"@, 2);
    lookup_steps(fields, "html_url"@, 3);
    lookup_steps(fields, "labels"@, 4);
}

proof fn review_is_kept(review: JsonModel)
    ensures
        review_model(review).text_field("state"@) == review.text_field("state"@),
        review_model(review).text_field("html_url"@) == review.text_field("html_url"@),
        review_model(review).text_field("user"@) == review.at("user"@).text_field("login"@),
{
    reveal_strlit("state");
    reveal_strlit("html_url");
    reveal_strlit("user");
    assert("state"@.len() == 5 && "html_url"@.len() == 8 && "user"@.len() == 4);
    let fields = review_model(review)->Object_0;
    lookup_steps(fields, "state"@, 0);
    lookup_steps(fields, "html_url"@, 1);
    lookup_steps(fields, "user"@, 2);
}

proof fn label_is_kept(label: JsonModel)
    ensures
        label_model(label).text_field("name"@) == label.text_field("name"@),
{
    lookup_steps(label_model(label)->Object_0, "name"@, 0);
}

/// The summary of a delivery names its repository and its event, and the action where
/// there is one.
pub proof fn summary_names_the_delivery(
    repo: Seq<char>,
    event: Seq<char>,
    action: Option<Seq<char>>,
    payload: JsonModel,
)
    ensures
        contains_spec(summary_of(repo, event, action, payload), repo),
        contains_spec(summary_of(repo, event, action, payload), event),
        action is Some ==> contains_spec(
            summary_of(repo, event, action, payload),
            event_with_action(event, action->0),
        ),
        contains_spec(
            summary_of(repo, event, action, payload),
            summary_detail(event, payload),
        ),
{
    let header = summary_header(repo, event, action);
    let detail = summary_detail(event, payload);
    let all = summary_of(repo, event, action, payload);
    let rest = all.skip(header.len() as int);
    assert(all =~= header + rest);
    let behind = (match action {
        Some(a) => "."@ + a,
        None => Seq::empty(),
    }) + rest;
    assert(all =~= "[github] "@ + repo + (" "@ + event + behind));
    part_occurs("[github] "@, repo, " "@ + event + behind);
    let before = "[github] "@ + repo + " "@;
    assert(all =~= before + event + behind);
    part_occurs(before, event, behind);
    if let Some(a) = action {
        assert(all =~= before + event_with_action(event, a) + rest);
        part_occurs(before, event_with_action(event, a), rest);
    }
    if detail.len() == 0 {
        assert(detail =~= Seq::<char>::empty());
        assert(all =~= all + detail + Seq::<char>::empty());
        part_occurs(all, detail, Seq::empty());
    } else {
        assert(all =~= (header + "\n"@) + detail + Seq::<char>::empty());
        part_occurs(header + "\n"@, detail, Seq::empty());
    }
}

/// The summary of a pull request or an issue holds its number, its title and its address.
pub proof fn summary_tells_what_it_is_about(
    repo: Seq<char>,
    event: Seq<char>,
    action: Option<Seq<char>>,
    payload: JsonModel,
)
    requires
        event == "pull_request"@ || event == "issues"@,
    ensures
        ({
            let all = summary_of(repo, event, action, payload);
            let about = if event == "issues"@ {
                payload.at("issue"@)
            } else {
                payload.at("pull_request"@)
            };
            &&& about.text_field("title"@) matches Some(t) ==> contains_spec(all, t)
            &&& about.text_field("html_url"@) matches Some(t) ==> contains_spec(all, t)
            &&& about.i64_field("number"@) matches Some(n) ==> contains_spec(
                all,
                "#"@ + decimal_int(n) + ": "@,
            )
        }),
{
    reveal_strlit("pull_request");
    reveal_strlit("issues");
    assert("issues"@.len() == 6 && "pull_request"@.len() == 12);
    summary_names_the_delivery(repo, event, action, payload);
    let all = summary_of(repo, event, action, payload);
    let detail = summary_detail(event, payload);
    let about = if event == "issues"@ {
        payload.at("issue"@)
    } else {
        payload.at("pull_request"@)
    };
    let title = or_empty(about.text_field("title"@));
    let url = or_empty(about.text_field("html_url"@));
    if event == "issues"@ {
        issues_have_a_detail(payload);
        detail_holds_its_parts("Issue "@, "Issue #"@, about.i64_field("number"@), title, url);
    } else {
        detail_holds_its_parts("PR "@, "PR #"@, about.i64_field("number"@), title, url);
    }
    if let Some(n) = about.i64_field("number"@) {
        occurs_in_what_holds_it(all, detail, "#"@ + decimal_int(n) + ": "@);
    }
    occurs_in_what_holds_it(all, detail, title);
    occurs_in_what_holds_it(all, detail, url);
}

spec fn numbered_text(
    mark: Seq<char>,
    number: Option<int>,
    title: Seq<char>,
    url: Seq<char>,
) -> Seq<char> {
    let rest = title + " ("@ + url + ")"@;
    match number {
        Some(n) => mark + decimal_int(n) + ": "@ + rest,
        None => rest,
    }
}

proof fn issues_have_a_detail(payload: JsonModel)
    ensures
        summary_detail("issues"@, payload) == numbered_text(
            "Issue #"@,
            payload.at("issue"@).i64_field("number"@),
            or_empty(payload.at("issue"@).text_field("title"@)),
            or_empty(payload.at("issue"@).text_field("html_url"@)),
        ),
{
    reveal_strlit("pull_request");
    reveal_strlit("pull_request_review");
    reveal_strlit("issues");
    assert("issues"@.len() == 6 && "pull_request"@.len() == 12 && "pull_request_review"@.len() == 19);
}

proof fn detail_holds_its_parts(
    word: Seq<char>,
    mark: Seq<char>,
    number: Option<int>,
    title: Seq<char>,
    url: Seq<char>,
)
    requires
        (word == "Issue "@ && mark == "Issue #"@) || (word == "PR "@ && mark == "PR #"@),
    ensures
        ({
            let detail = numbered_text(mark, number, title, url);
            &&& contains_spec(detail, title)
            &&& contains_spec(detail, url)
            &&& number matches Some(n) ==> contains_spec(detail, "#"@ + decimal_int(n) + ": "@)
        }),
{
    let detail = numbered_text(mark, number, title, url);
    let head = match number {
        Some(n) => mark + decimal_int(n) + ": "@,
        None => Seq::empty(),
    };
    let tail = " ("@ + url + ")"@;
    assert(detail =~= head + title + tail);
    part_occurs(head, title, tail);
    assert(detail =~= (head + title + " ("@) + url + ")"@);
    part_occurs(head + title + " ("@, url, ")"@);
    if let Some(n) = number {
        reveal_strlit("#");
        reveal_strlit("PR #");
        reveal_strlit("Issue #");
        reveal_strlit("PR ");
        reveal_strlit("Issue ");
        assert(mark =~= word + "#"@);
        let tag = "#"@ + decimal_int(n) + ": "@;
        assert(detail =~= word + tag + (title + tail));
        part_occurs(word, tag, title + tail);
    }
}

proof fn occurs_in_what_holds_it(all: Seq<char>, part: Seq<char>, inner: Seq<char>)
    requires
        contains_spec(all, part),
        contains_spec(part, inner),
    ensures
        contains_spec(all, inner),
{
    let i = choose|i: int|
        0 <= i <= all.len() - part.len() && #[trigger] all.subrange(i, i + part.len()) == part;
    assert(all =~= all.take(i) + part + all.skip(i + part.len()));
    part_of_a_part_occurs(all.take(i), part, all.skip(i + part.len()), inner);
}

} // verus!
