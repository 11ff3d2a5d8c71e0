//! The completed tasks of agents, and the messages in their inboxes.
use crate::clock::{
    read_rfc3339, rfc3339_time, second_text, show_second, NANOS_PER_SECOND,
};
use crate::decimal::{decimal, show_usize};
use crate::mcp_service::InboxMessage;
use crate::mcp_tools::reply::{read_text_or, text_or};
use crate::order::{ranked, ranked_is_descending, ranked_is_permutation, sort_by_rank, Ranked};
use crate::text::{
    both_parts_occur, byte_prefix, byte_prefix_spec, cat, cat3, char_prefix, char_prefix_spec,
    contains_spec, pad_right, pad_right_spec, padding_keeps_the_text, part_occurs,
    part_of_a_part_occurs, same, starts_with, starts_with_spec,
};
use vstd::prelude::*;
use vstd::string::*;

verus! {

/// The inbox with the replies of an agent.
pub fn reply_inbox(name: &str) -> (r: String)
    ensures
        r@ == "replies/"@ + name@,
{
    cat("replies/", name)
}

/// Whether an inbox holds replies.
pub fn holds_replies(inbox: &str) -> (r: bool)
    ensures
        r == starts_with_spec(inbox@, "replies/"@),
{
    starts_with(inbox, "replies/")
}

/// A message of an inbox. `instant` orders messages by time, and `age` says how
/// long ago it came.
#[derive(Debug, PartialEq)]
pub struct InboxEntry {
    pub message: InboxMessage,
    pub instant: i128,
    pub age: String,
}

impl Ranked for InboxEntry {
    open spec fn rank(self) -> int {
        self.instant as int
    }

    fn rank_value(&self) -> (r: i128) {
        self.instant
    }
}

/// Whether a message reports the result of a task.
pub open spec fn is_task_result(e: InboxEntry) -> bool {
    e.message.metadata@.text_field("type"@) == Some("task_result"@)
}

/// The messages that report results, in order.
pub open spec fn task_results(entries: Seq<InboxEntry>) -> Seq<InboxEntry>
    decreases entries.len(),
{
    if entries.len() == 0 {
        Seq::empty()
    } else {
        let tail = task_results(entries.skip(1));
        if is_task_result(entries[0]) {
            seq![entries[0]] + tail
        } else {
            tail
        }
    }
}

/// The first `n` values.
pub open spec fn first_n<T>(s: Seq<T>, n: nat) -> Seq<T> {
    if s.len() > n {
        s.take(n as int)
    } else {
        s
    }
}

fn keep_results(entries: Vec<InboxEntry>) -> (r: Vec<InboxEntry>)
    ensures
        r@ == task_results(entries@),
{
    let ghost all = entries@;
    let mut rest = entries;
    let mut reversed: Vec<InboxEntry> = Vec::new();
    assert(all.skip(all.len() as int) =~= Seq::<InboxEntry>::empty());
    assert(all.take(all.len() as int) =~= all);
    assert(reversed@.reverse() =~= Seq::<InboxEntry>::empty());
    loop
        invariant
            rest@ == all.take(rest@.len() as int),
            rest@.len() <= all.len(),
            reversed@.reverse() == task_results(all.skip(rest@.len() as int)),
        ensures
            reversed@.reverse() == task_results(all),
        decreases rest@.len(),
    {
        let ghost n = rest@.len() as int;
        match rest.pop() {
            Some(e) => {
                proof {
                    assert(e == all[n - 1]);
                    assert(rest@ =~= all.take(n - 1));
                    assert(all.skip(n - 1).skip(1) =~= all.skip(n));
                    assert(all.skip(n - 1)[0] == e);
                }
                let result: bool = match e.message.metadata.text_field("type") {
                    Some(t) => same(t, "task_result"),
                    None => false,
                };
                if result {
                    let ghost before = reversed@;
                    reversed.push(e);
                    assert(reversed@.reverse() =~= seq![e] + before.reverse());
                }
            },
            None => {
                assert(all.skip(0) =~= all);
                break;
            },
        }
    }
    let ghost kept = task_results(all);
    let mut out: Vec<InboxEntry> = Vec::new();
    assert(reversed@ =~= kept.reverse());
    assert(kept.skip(0) =~= kept);
    loop
        invariant
            out@.len() <= kept.len(),
            reversed@ == kept.skip(out@.len() as int).reverse(),
            out@ == kept.take(out@.len() as int),
        ensures
            out@ == kept,
        decreases reversed@.len(),
    {
        let ghost i = out@.len() as int;
        match reversed.pop() {
            Some(e) => {
                assert(e == kept.skip(i)[0]);
                assert(reversed@ =~= kept.skip(i + 1).reverse());
                out.push(e);
                assert(out@ =~= kept.take(i + 1));
            },
            None => {
                assert(kept.take(i) =~= kept);
                break;
            },
        }
    }
    out
}

/// Whether `r` are the completed tasks to show.
pub open spec fn completes(
    entries: Seq<InboxEntry>,
    limit: nat,
    r: Seq<InboxEntry>,
) -> bool {
    r == first_n(ranked(task_results(entries)), limit)
}

/// The completed tasks among the messages of inboxes: the latest first, at most
/// `limit`.
pub fn completed_tasks(entries: Vec<InboxEntry>, limit: usize) -> (r: Vec<InboxEntry>)
    ensures
        completes(entries@, limit as nat, r@),
{
    let mut out = sort_by_rank(keep_results(entries));
    let ghost all = out@;
    if out.len() > limit {
        out.truncate(limit);
        assert(out@ =~= all.take(limit as int));
    }
    out
}

/// The line of a completed task. Where the tasks of all agents are shown, it
/// names the agent.
pub open spec fn task_line(e: InboxEntry, show_all: bool) -> Seq<char> {
    let m = e.message.metadata@;
    let id = byte_prefix_spec(text_or(m, "message_id"@, ""@), 6);
    let task = "\""@ + char_prefix_spec(text_or(m, "task"@, ""@), 36) + "\""@;
    let status = if m.bool_field("has_error"@) == Some(true) {
        "err"@
    } else {
        "done"@
    };
    let head = if show_all {
        "  "@ + pad_right_spec(id, 8) + " "@ + pad_right_spec(text_or(m, "agent"@, "?"@), 12)
            + " from:"@
    } else {
        "  "@ + pad_right_spec(id, 8) + " from:"@
    };
    head + pad_right_spec(e.message.source@, 6) + " "@ + pad_right_spec(task, 38) + " "@ + status
        + " "@ + e.age@ + " ago\n"@
}

/// The lines of the first `n` completed tasks.
pub open spec fn task_lines(entries: Seq<InboxEntry>, show_all: bool, n: int) -> Seq<char>
    decreases n,
{
    if n <= 0 {
        Seq::empty()
    } else {
        task_lines(entries, show_all, n - 1) + task_line(entries[n - 1], show_all)
    }
}

/// The completed tasks of an agent, or of all agents where the name is `all`.
pub open spec fn tasks_text(name: Seq<char>, entries: Seq<InboxEntry>) -> Seq<char> {
    if entries.len() == 0 {
        if name == "all"@ {
            "No completed tasks found\n"@
        } else {
            "No completed tasks for "@ + name + "\n"@
        }
    } else {
        "COMPLETED ("@ + decimal(entries.len()) + "):\n"@ + task_lines(
            entries,
            name == "all"@,
            entries.len() as int,
        )
    }
}

fn show_task_line(e: &InboxEntry, show_all: bool) -> (t: String)
    ensures
        t@ == task_line(*e, show_all),
{
    let m = &e.message.metadata;
    let id = byte_prefix(read_text_or(m, "message_id", ""), 6);
    let task = cat3("\"", char_prefix(read_text_or(m, "task", ""), 36), "\"");
    let failed: bool = match m.bool_field("has_error") {
        Some(b) => b,
        None => false,
    };
    let mut out = cat3("  ", &pad_right(id, 8), if show_all {
        " "
    } else {
        " from:"
    });
    if show_all {
        let agent = pad_right(read_text_or(m, "agent", "?"), 12);
        out.append(&agent);
        out.append(" from:");
    }
    let source = pad_right(&e.message.source, 6);
    out.append(&source);
    out.append(" ");
    let shown = pad_right(&task, 38);
    out.append(&shown);
    out.append(" ");
    out.append(if failed {
        "err"
    } else {
        "done"
    });
    out.append(" ");
    out.append(&e.age);
    out.append(" ago\n");
    out
}

/// The completed tasks of an agent, or of all agents where the name is `all`.
pub fn show_tasks(name: &str, entries: &Vec<InboxEntry>) -> (t: String)
    ensures
        t@ == tasks_text(name@, entries@),
{
    let show_all: bool = same(name, "all");
    if entries.len() == 0 {
        return if show_all {
            String::from_str("No completed tasks found\n")
        } else {
            cat3("No completed tasks for ", name, "\n")
        };
    }
    let mut body = String::new();
    let mut i: usize = 0;
    while i < entries.len()
        invariant
            i <= entries@.len(),
            body@ == task_lines(entries@, show_all, i as int),
        decreases entries@.len() - i,
    {
        let line = show_task_line(&entries[i], show_all);
        body.append(&line);
        i += 1;
    }
    let mut out = cat3("COMPLETED (", &show_usize(entries.len()), "):\n");
    out.append(&body);
    out
}

/// A message of an inbox as it is printed. `ts` is its time to the second.
pub open spec fn message_text(m: InboxMessage, ts: Seq<char>) -> Seq<char> {
    "─── "@ + (match m.from {
        Some(f) => f@,
        None => m.source@,
    }) + " ["@ + ts + "] ───\n"@ + m.text@ + "\n\n"@
}

/// A message of an inbox as it is printed. `ts` is its time to the second.
pub fn show_message(m: &InboxMessage, ts: &str) -> (t: String)
    ensures
        t@ == message_text(*m, ts@),
{
    let mut out = String::from_str("─── ");
    match &m.from {
        Some(f) => {
            out.append(f);
        },
        None => {
            out.append(&m.source);
        },
    }
    out.append(" [");
    out.append(ts);
    out.append("] ───\n");
    out.append(&m.text);
    out.append("\n\n");
    out
}

/// The time of a message to the second, in UTC. A text that is no time stays as it
/// is.
pub open spec fn shown_time(ts: Seq<char>) -> Seq<char> {
    match rfc3339_time(ts) {
        Some((secs, nanos)) => match second_text(secs, nanos) {
            Some(t) => t,
            None => ts,
        },
        None => ts,
    }
}

/// A message of an inbox as it is printed, with its time to the second.
pub fn print_inbox_message(m: &InboxMessage) -> (t: String)
    ensures
        t@ == message_text(*m, shown_time(m.ts@)),
{
    match read_rfc3339(&m.ts) {
        Some((secs, nanos)) => match show_second(secs, nanos) {
            Some(ts) => show_message(m, &ts),
            None => show_message(m, &m.ts),
        },
        None => show_message(m, &m.ts),
    }
}

/// The instant at which a message came, where its time is one.
pub fn message_instant(m: &InboxMessage) -> (r: Option<(i64, u32)>)
    ensures
        r == rfc3339_time(m.ts@),
{
    read_rfc3339(&m.ts)
}

/// The number that orders an instant: its nanoseconds since the Unix epoch. What has
/// no time comes with the epoch.
pub open spec fn instant_rank(instant: Option<(i64, u32)>) -> int {
    match instant {
        Some((secs, nanos)) => secs * NANOS_PER_SECOND + nanos,
        None => 0,
    }
}

/// A message of an inbox that came at an instant, so long ago.
pub fn inbox_entry(message: InboxMessage, instant: Option<(i64, u32)>, age: String) -> (r:
    InboxEntry)
    ensures
        r.message == message,
        r.age == age,
        r.instant == instant_rank(instant),
{
    let rank: i128 = match instant {
        Some((secs, nanos)) => secs as i128 * NANOS_PER_SECOND + nanos as i128,
        None => 0,
    };
    InboxEntry { message, instant: rank, age }
}

// ─── What is shown of tasks ─────────────────────────────────────────────────

/// The entries that are kept are exactly the results of tasks.
pub proof fn results_are_kept(entries: Seq<InboxEntry>, e: InboxEntry)
    ensures
        task_results(entries).contains(e) <==> entries.contains(e)
            && e.message.metadata@.text_field("type"@) == Some("task_result"@),
    decreases entries.len(),
{
    if entries.len() > 0 {
        let rest = entries.skip(1);
        let tail = task_results(rest);
        let out = task_results(entries);
        results_are_kept(rest, e);
        assert(entries =~= seq![entries[0]] + rest);
        assert(entries.contains(e) <==> e == entries[0] || rest.contains(e)) by {
            if e == entries[0] {
                assert(entries[0] == e);
            }
            if rest.contains(e) {
                let i = choose|i: int| 0 <= i < rest.len() && rest[i] == e;
                assert(entries[i + 1] == e);
            }
            if entries.contains(e) {
                let i = choose|i: int| 0 <= i < entries.len() && entries[i] == e;
                if i > 0 {
                    assert(rest[i - 1] == e);
                }
            }
        }
        if is_task_result(entries[0]) {
            assert(out.contains(e) <==> e == entries[0] || tail.contains(e)) by {
                if e == entries[0] {
                    assert(out[0] == e);
                }
                if tail.contains(e) {
                    let i = choose|i: int| 0 <= i < tail.len() && tail[i] == e;
                    assert(out[i + 1] == e);
                }
                if out.contains(e) {
                    let i = choose|i: int| 0 <= i < out.len() && out[i] == e;
                    if i > 0 {
                        assert(tail[i - 1] == e);
                    }
                }
            }
        }
    }
}

/// What is shown are results of tasks, no more than the limit, the latest first; a result
/// that is left out is no later than any that is shown, and the limit is reached.
pub proof fn latest_results_are_shown(
    entries: Seq<InboxEntry>,
    limit: nat,
    r: Seq<InboxEntry>,
    e: InboxEntry,
)
    requires
        completes(entries, limit, r),
    ensures
        r.len() <= limit,
        forall|i: int, j: int| 0 <= i < j < r.len() ==> r[i].instant >= r[j].instant,
        r.contains(e) ==> entries.contains(e) && e.message.metadata@.text_field("type"@) == Some(
            "task_result"@,
        ),
        entries.contains(e) && e.message.metadata@.text_field("type"@) == Some("task_result"@)
            && !r.contains(e) ==> r.len() == limit && forall|i: int|
            0 <= i < r.len() ==> (#[trigger] r[i]).instant >= e.instant,
{
    let kept = task_results(entries);
    let all = ranked(kept);
    ranked_is_descending(kept);
    ranked_is_permutation(kept);
    results_are_kept(entries, e);
    assert forall|i: int, j: int| 0 <= i < j < r.len() implies r[i].instant >= r[j].instant by {
        assert(r[i] == all[i] && r[j] == all[j]);
        assert(all[i].rank() >= all[j].rank());
    }
    all.to_multiset_ensures();
    kept.to_multiset_ensures();
    assert(all.contains(e) <==> all.to_multiset().count(e) > 0);
    assert(kept.contains(e) <==> kept.to_multiset().count(e) > 0);
    if r.contains(e) {
        let i = choose|i: int| 0 <= i < r.len() && r[i] == e;
        assert(all[i] == e);
    } else if all.contains(e) {
        let j = choose|j: int| 0 <= j < all.len() && all[j] == e;
        if j < r.len() {
            assert(r[j] == e);
        }
        assert forall|i: int| 0 <= i < r.len() implies (#[trigger] r[i]).instant >= e.instant by {
            assert(r[i] == all[i]);
            assert(all[i].rank() >= all[j].rank());
        }
    }
}

/// A task is shown with its sender, its age and its end; the agent is named where the tasks
/// of all are shown.
pub proof fn task_rows_tell_the_task(e: InboxEntry, show_all: bool, t: Seq<char>)
    requires
        e.message.metadata@.text_field("task"@) == Some(t),
        t.len() <= 36,
    ensures
        contains_spec(task_line(e, show_all), e.message.source@),
        contains_spec(task_line(e, show_all), e.age@),
        contains_spec(task_line(e, show_all), t),
        e.message.metadata@.bool_field("has_error"@) == Some(true) ==> contains_spec(
            task_line(e, show_all),
            "err"@,
        ),
        e.message.metadata@.bool_field("has_error"@) != Some(true) ==> contains_spec(
            task_line(e, show_all),
            "done"@,
        ),
{
    let m = e.message.metadata@;
    let id = byte_prefix_spec(text_or(m, "message_id"@, ""@), 6);
    let task = "\""@ + t + "\""@;
    let status = if m.bool_field("has_error"@) == Some(true) {
        "err"@
    } else {
        "done"@
    };
    let head = if show_all {
        "  "@ + pad_right_spec(id, 8) + " "@ + pad_right_spec(text_or(m, "agent"@, "?"@), 12)
            + " from:"@
    } else {
        "  "@ + pad_right_spec(id, 8) + " from:"@
    };
    part_occurs("\""@, t, "\""@);
    let source = pad_right_spec(e.message.source@, 6);
    padding_keeps_the_text(e.message.source@, 6);
    let shown = pad_right_spec(task, 38);
    padding_keeps_the_text(task, 38);
    contained_in_contained(shown, task, t);
    let a = head + source;
    both_parts_occur(head, source);
    both_parts_occur(a, " "@);
    let b = a + " "@ + shown;
    both_parts_occur(a + " "@, shown);
    both_parts_occur(b, " "@);
    let c = b + " "@ + status;
    both_parts_occur(b + " "@, status);
    both_parts_occur(c, " "@);
    part_occurs(Seq::empty(), status, Seq::empty());
    part_occurs(Seq::empty(), e.age@, Seq::empty());
    both_parts_occur(c + " "@, e.age@);
    both_parts_occur(c + " "@ + e.age@, " ago\n"@);
}

proof fn contained_in_contained(s: Seq<char>, part: Seq<char>, inner: Seq<char>)
    requires
        contains_spec(s, part),
        contains_spec(part, inner),
    ensures
        contains_spec(s, inner),
{
    let i = choose|i: int|
        0 <= i <= s.len() - part.len() && #[trigger] s.subrange(i, i + part.len()) == part;
    part_of_a_part_occurs(s.take(i), part, s.skip(i + part.len()), inner);
    assert(s.take(i) + part + s.skip(i + part.len()) =~= s);
}

/// A message is shown with who sent it, when, and its whole text.
pub proof fn messages_are_shown_whole(m: InboxMessage, ts: Seq<char>)
    ensures
        contains_spec(message_text(m, ts), m.text@),
        contains_spec(message_text(m, ts), ts),
        m.from matches Some(f) ==> contains_spec(message_text(m, ts), f@),
        m.from is None ==> contains_spec(message_text(m, ts), m.source@),
{
    let sender = match m.from {
        Some(f) => f@,
        None => m.source@,
    };
    let a = "─── "@ + sender;
    both_parts_occur("─── "@, sender);
    both_parts_occur(a, " ["@);
    both_parts_occur(a + " ["@, ts);
    let b = a + " ["@ + ts;
    both_parts_occur(b, "] ───\n"@);
    both_parts_occur(b + "] ───\n"@, m.text@);
    both_parts_occur(b + "] ───\n"@ + m.text@, "\n\n"@);
}

/// Instants that lie so many seconds apart rank so many times a thousand million apart, so
/// the later one ranks higher.
pub proof fn later_instants_rank_higher(secs: i64, nanos: u32, more: i64)
    requires
        more > 0,
        secs + more <= i64::MAX,
    ensures
        instant_rank(Some(((secs + more) as i64, nanos))) == instant_rank(Some((secs, nanos)))
            + more * 1_000_000_000,
        instant_rank(Some((secs, nanos))) == secs * 1_000_000_000 + nanos,
        instant_rank(None) == 0,
{
    assert((secs + more) * 1_000_000_000 == secs * 1_000_000_000 + more * 1_000_000_000)
        by (nonlinear_arith);
}

/// There is a line for each task, in their order.
pub proof fn tasks_are_shown_in_order(v: Seq<InboxEntry>, show_all: bool, k: int, n: int)
    requires
        0 <= k < n <= v.len(),
    ensures
        starts_with_spec(task_lines(v, show_all, n), task_lines(v, show_all, k) + task_line(v[k], show_all)),
    decreases n,
{
    let head = task_lines(v, show_all, n - 1);
    let all = task_lines(v, show_all, n);
    let start = task_lines(v, show_all, k) + task_line(v[k], show_all);
    if k < n - 1 {
        tasks_are_shown_in_order(v, show_all, k, n - 1);
        assert(all.take(start.len() as int) =~= head.take(start.len() as int));
    } else {
        assert(all.take(start.len() as int) =~= start);
    }
}

} // verus!
