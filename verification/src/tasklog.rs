//! The task log: selection of entries, and reports over them.
//!
//! Amounts of money are held as text, beside a number that ranks them.
use crate::clock::{read_rfc3339, rfc3339_time};
use crate::decimal::{decimal, show_tokens, show_u64, show_usize, tokens_text};
use crate::order::{ranked, sort_by_rank, Ranked};
use crate::text::{
    both_parts_occur, byte_prefix, byte_prefix_spec, cat, cat3, chars_of, contains_spec,
    opt_str, opt_text, pad_left, pad_left_spec, pad_right, pad_right_spec,
    padding_keeps_the_text, same, starts_with_spec, texts,
};
use crate::web::audit::{join, join_path};
use vstd::prelude::*;
use vstd::string::*;

verus! {

/// The most entries that a log keeps.
pub const MAX_ENTRIES: usize = 10_000;

/// An entry of the task log.
#[derive(Debug, Clone, PartialEq)]
pub struct TaskLog {
    /// When the task started, as RFC 3339.
    pub ts: String,
    /// Where the task came from.
    pub source: String,
    pub turns: u32,
    /// The cost in US dollars, as a decimal number.
    pub cost: String,
    pub duration_ms: u64,
    pub status: String,
    /// The start of the task's text.
    pub task: String,
    pub error: Option<String>,
    pub msg_id: String,
    pub github_repo: Option<String>,
    pub github_pr: Option<u64>,
    pub input_tokens: Option<u64>,
    pub output_tokens: Option<u64>,
    pub cache_creation_input_tokens: Option<u64>,
    pub cache_read_input_tokens: Option<u64>,
}

/// Where the task log of an agent is kept under a home directory.
pub fn log_path(home: &str, agent_name: &str) -> (r: String)
    ensures
        r@ == join_path(
            join_path(join_path(join_path(home@, ".deskd"@), "logs"@), agent_name@),
            "tasks.jsonl"@,
        ),
{
    let a = join(home, ".deskd");
    let b = join(&a, "logs");
    let c = join(&b, agent_name);
    join(&c, "tasks.jsonl")
}

/// The last `n` values.
pub open spec fn last_n<T>(s: Seq<T>, n: nat) -> Seq<T> {
    if s.len() > n {
        s.skip(s.len() - n)
    } else {
        s
    }
}

/// Whether `r` is what is left of the lines of a log that has grown too long.
pub open spec fn rotates(
    lines: Seq<Seq<char>>,
    r: Option<Vec<String>>,
) -> bool {
    match r {
        Some(v) => lines.len() > MAX_ENTRIES && texts(v@) == last_n(
            lines,
            MAX_ENTRIES as nat,
        ),
        None => lines.len() <= MAX_ENTRIES,
    }
}

/// What is left of the lines of a log that has grown too long: the last ones.
/// None where it has not.
pub fn rotate_if_needed(lines: &Vec<String>) -> (r: Option<Vec<String>>)
    ensures
        rotates(texts(lines@), r),
{
    let n: usize = lines.len();
    if n <= MAX_ENTRIES {
        return None;
    }
    let start: usize = n - MAX_ENTRIES;
    let ghost t = texts(lines@);
    let mut out: Vec<String> = Vec::new();
    let mut i: usize = start;
    assert(texts(out@) =~= t.subrange(start as int, start as int));
    while i < n
        invariant
            start <= i <= n,
            n == lines@.len(),
            t == texts(lines@),
            texts(out@) == t.subrange(start as int, i as int),
        decreases n - i,
    {
        let ghost before = texts(out@);
        out.push(lines[i].clone());
        assert(texts(out@) =~= before.push(t[i as int]));
        assert(texts(out@) =~= t.subrange(start as int, i + 1));
        i += 1;
    }
    assert(texts(out@) =~= last_n(t, MAX_ENTRIES as nat));
    Some(out)
}

// ─── Selection ──────────────────────────────────────────────────────────────

/// Whether an instant lies before another.
pub open spec fn earlier(a: (i64, u32), b: (i64, u32)) -> bool {
    a.0 < b.0 || (a.0 == b.0 && a.1 < b.1)
}

/// Whether an entry from a source, at an instant where one is known, passes the
/// filters. An entry without a known instant passes the time filter.
pub open spec fn passes(
    source: Seq<char>,
    at: Option<(i64, u32)>,
    source_filter: Option<Seq<char>>,
    since: Option<(i64, u32)>,
) -> bool {
    &&& match source_filter {
        Some(f) => source == f,
        None => true,
    }
    &&& match (since, at) {
        (Some(cutoff), Some(t)) => !earlier(t, cutoff),
        _ => true,
    }
}

/// Whether an entry from a source, at an instant where one is known, passes the
/// filters.
pub fn passes_filters(
    source: &str,
    at: Option<(i64, u32)>,
    source_filter: Option<&str>,
    since: Option<(i64, u32)>,
) -> (r: bool)
    ensures
        r == passes(source@, at, opt_str(source_filter), since),
{
    match source_filter {
        Some(f) => {
            if !same(source, f) {
                return false;
            }
        },
        None => {},
    }
    match (since, at) {
        (Some(cutoff), Some(t)) => !(t.0 < cutoff.0 || (t.0 == cutoff.0 && t.1 < cutoff.1)),
        _ => true,
    }
}

/// The entries that pass the filters, in order.
pub open spec fn selected(
    entries: Seq<TaskLog>,
    source_filter: Option<Seq<char>>,
    since: Option<(i64, u32)>,
) -> Seq<TaskLog>
    decreases entries.len(),
{
    if entries.len() == 0 {
        Seq::empty()
    } else {
        let head = selected(entries.drop_last(), source_filter, since);
        let e = entries.last();
        if passes(e.source@, rfc3339_time(e.ts@), source_filter, since) {
            head.push(e)
        } else {
            head
        }
    }
}

/// The last `limit` entries that pass the filters.
pub fn read_logs(
    entries: Vec<TaskLog>,
    limit: usize,
    source_filter: Option<&str>,
    since: Option<(i64, u32)>,
) -> (r: Vec<TaskLog>)
    ensures
        r@ == last_n(selected(entries@, opt_str(source_filter), since), limit as nat),
{
    let ghost all = entries@;
    let ghost filter = opt_str(source_filter);
    let count: usize = entries.len();
    let mut rest = entries;
    let mut kept: Vec<TaskLog> = Vec::new();
    let mut i: usize = 0;
    let mut reversed: Vec<TaskLog> = Vec::new();
    loop
        invariant
            rest@ == all.take(rest@.len() as int),
            rest@.len() <= all.len(),
            reversed@ == all.skip(rest@.len() as int).reverse(),
        ensures
            reversed@ == all.reverse(),
        decreases rest@.len(),
    {
        let ghost n = rest@.len() as int;
        match rest.pop() {
            Some(e) => {
                reversed.push(e);
                proof {
                    assert(rest@ =~= all.take(n - 1));
                    assert(reversed@ =~= all.skip(n - 1).reverse());
                }
            },
            None => {
                assert(all.skip(0) =~= all);
                break;
            },
        }
    }
    loop
        invariant
            reversed@ == all.skip(i as int).reverse(),
            i <= count,
            count == all.len(),
            reversed@.len() == all.len() - i,
            kept@ == selected(all.take(i as int), filter, since),
            filter == opt_str(source_filter),
        ensures
            kept@ == selected(all, filter, since),
        decreases reversed@.len(),
    {
        match reversed.pop() {
            Some(e) => {
                proof {
                    let s = all.skip(i as int);
                    assert(e == s[0]);
                    assert(e == all[i as int]);
                    assert(reversed@ =~= all.skip(i + 1).reverse());
                    assert(all.take(i + 1).drop_last() =~= all.take(i as int));
                }
                let at = read_rfc3339(&e.ts);
                if passes_filters(&e.source, at, source_filter, since) {
                    kept.push(e);
                }
                i += 1;
            },
            None => {
                assert(all.take(i as int) =~= all);
                break;
            },
        }
    }
    let ghost whole = kept@;
    let n: usize = kept.len();
    if n > limit {
        let tail = kept.split_off(n - limit);
        assert(tail@ =~= last_n(whole, limit as nat));
        return tail;
    }
    kept
}

// ─── Formatting ─────────────────────────────────────────────────────────────

/// A duration in minutes and seconds.
pub open spec fn duration_text(ms: nat) -> Seq<char> {
    let total = ms / 1000;
    if total == 0 {
        "0s"@
    } else if total / 60 > 0 {
        decimal(total / 60) + "m"@ + decimal(total % 60) + "s"@
    } else {
        decimal(total % 60) + "s"@
    }
}

/// A duration in minutes and seconds.
pub fn format_duration(ms: u64) -> (r: String)
    ensures
        r@ == duration_text(ms as nat),
{
    let total: u64 = ms / 1000;
    if total == 0 {
        return String::from_str("0s");
    }
    let mins: u64 = total / 60;
    let secs: u64 = total % 60;
    if mins > 0 {
        let mut out = cat3(&show_u64(mins), "m", &show_u64(secs));
        out.append("s");
        out
    } else {
        cat(&show_u64(secs), "s")
    }
}

/// A count of tokens in short form.
pub fn format_tokens(n: u64) -> (r: String)
    ensures
        r@ == tokens_text(n as nat),
{
    show_tokens(n)
}

/// A text of at most `max` characters: a longer one is cut, and dots follow.
pub open spec fn cut_text(s: Seq<char>, max: nat) -> Seq<char> {
    if s.len() <= max {
        s
    } else {
        s.take(max as int) + "..."@
    }
}

/// A text of at most `max` characters: a longer one is cut, and dots follow.
pub fn truncate_task(s: &str, max: usize) -> (r: String)
    ensures
        r@ == cut_text(s@, max as nat),
{
    if s.unicode_len() <= max {
        String::from_str(s)
    } else {
        cat(s.substring_char(0, max), "...")
    }
}

/// `s` with each `a` replaced by `b`.
pub open spec fn replaced(s: Seq<char>, a: char, b: char) -> Seq<char> {
    Seq::new(s.len(), |i: int| if s[i] == a { b } else { s[i] })
}

fn replace_char(s: &str, a: char, b: char) -> (r: String)
    ensures
        r@ == replaced(s@, a, b),
{
    let chars = chars_of(s);
    let mut out = String::new();
    let mut i: usize = 0;
    while i < chars.len()
        invariant
            i <= chars@.len(),
            chars@ == s@,
            out@ == replaced(s@, a, b).take(i as int),
        decreases chars@.len() - i,
    {
        if chars[i] == a {
            out.push(b);
        } else {
            out.push(chars[i]);
        }
        i += 1;
        assert(out@ =~= replaced(s@, a, b).take(i as int));
    }
    assert(out@ =~= replaced(s@, a, b));
    out
}

/// The row of an entry in the table of the log. `cost` is its cost with two
/// decimal places.
pub open spec fn entry_row(e: TaskLog, cost: Seq<char>) -> Seq<char> {
    pad_right_spec(replaced(byte_prefix_spec(e.ts@, 19), 'T', ' '), 20) + " "@ + pad_right_spec(
        e.source@,
        14,
    ) + " "@ + pad_left_spec(decimal(e.turns as nat), 5) + "  $"@ + pad_left_spec(cost, 6) + "  "@
        + pad_left_spec(duration_text(e.duration_ms as nat), 9) + "  "@ + pad_right_spec(
        e.status@,
        6,
    ) + " "@ + e.task@ + "\n"@
}

/// The header of the table of the log.
pub open spec fn table_header() -> Seq<char> {
    pad_right_spec("TIMESTAMP"@, 20) + " "@ + pad_right_spec("SOURCE"@, 14) + " "@ + pad_left_spec(
        "TURNS"@,
        5,
    ) + "  "@ + pad_left_spec("COST"@, 7) + "  "@ + pad_left_spec("DURATION"@, 9) + "  "@
        + pad_right_spec("STATUS"@, 6) + " TASK\n"@
}

/// The rows of the first `n` entries.
pub open spec fn entry_rows(entries: Seq<TaskLog>, costs: Seq<Seq<char>>, n: int) -> Seq<char>
    decreases n,
{
    if n <= 0 {
        Seq::empty()
    } else {
        entry_rows(entries, costs, n - 1) + entry_row(entries[n - 1], costs[n - 1])
    }
}

fn show_entry_row(e: &TaskLog, cost: &str) -> (r: String)
    ensures
        r@ == entry_row(*e, cost@),
{
    let ts = replace_char(byte_prefix(&e.ts, 19), 'T', ' ');
    let mut out = cat3(&pad_right(&ts, 20), " ", &pad_right(&e.source, 14));
    out.append(" ");
    let turns = pad_left(&show_u64(e.turns as u64), 5);
    out.append(&turns);
    out.append("  $");
    let amount = pad_left(cost, 6);
    out.append(&amount);
    out.append("  ");
    let duration = pad_left(&format_duration(e.duration_ms), 9);
    out.append(&duration);
    out.append("  ");
    let status = pad_right(&e.status, 6);
    out.append(&status);
    out.append(" ");
    out.append(&e.task);
    out.append("\n");
    out
}

/// The table of the log. `costs` holds the costs of the entries with two decimal
/// places.
pub fn print_table(entries: &Vec<TaskLog>, costs: &Vec<String>) -> (r: String)
    requires
        costs@.len() == entries@.len(),
    ensures
        r@ == table_header() + entry_rows(entries@, texts(costs@), entries@.len() as int),
{
    let mut out = cat3(&pad_right("TIMESTAMP", 20), " ", &pad_right("SOURCE", 14));
    out.append(" ");
    let turns = pad_left("TURNS", 5);
    out.append(&turns);
    out.append("  ");
    let cost = pad_left("COST", 7);
    out.append(&cost);
    out.append("  ");
    let duration = pad_left("DURATION", 9);
    out.append(&duration);
    out.append("  ");
    let status = pad_right("STATUS", 6);
    out.append(&status);
    out.append(" TASK\n");
    let ghost t = texts(costs@);
    let mut i: usize = 0;
    assert(out@ =~= table_header() + entry_rows(entries@, t, 0));
    while i < entries.len()
        invariant
            i <= entries@.len(),
            costs@.len() == entries@.len(),
            t == texts(costs@),
            out@ == table_header() + entry_rows(entries@, t, i as int),
        decreases entries@.len() - i,
    {
        let ghost before = out@;
        let row = show_entry_row(&entries[i], &costs[i]);
        out.append(&row);
        i += 1;
        assert(out@ =~= table_header() + entry_rows(entries@, t, i as int));
    }
    out
}

// ─── Groups ─────────────────────────────────────────────────────────────────

/// By what entries are grouped.
#[derive(Debug, Clone, Copy, PartialEq, Eq)]
pub enum GroupBy {
    Source,
    PullRequest,
}

/// The label of the group of an entry. An entry without a pull request has none
/// where the groups are pull requests.
pub open spec fn label_of(e: TaskLog, by: GroupBy) -> Option<Seq<char>> {
    match by {
        GroupBy::Source => Some(e.source@),
        GroupBy::PullRequest => match (e.github_repo, e.github_pr) {
            (Some(repo), Some(pr)) => Some(repo@ + "#"@ + decimal(pr as nat)),
            _ => None,
        },
    }
}

/// An optional count, or zero.
pub open spec fn count_of(o: Option<u64>) -> nat {
    match o {
        Some(n) => n as nat,
        None => 0,
    }
}

/// Sums over entries.
pub struct Totals {
    pub tasks: nat,
    pub turns: nat,
    pub input_tokens: nat,
    pub output_tokens: nat,
    pub duration_ms: nat,
}

impl Totals {
    /// The sums with one more entry.
    pub open spec fn with(self, e: TaskLog) -> Totals {
        Totals {
            tasks: self.tasks + 1,
            turns: self.turns + e.turns as nat,
            input_tokens: self.input_tokens + count_of(e.input_tokens),
            output_tokens: self.output_tokens + count_of(e.output_tokens),
            duration_ms: self.duration_ms + e.duration_ms as nat,
        }
    }

    /// Whether no sum exceeds that of `other`.
    pub open spec fn within(self, other: Totals) -> bool {
        &&& self.tasks <= other.tasks
        &&& self.turns <= other.turns
        &&& self.input_tokens <= other.input_tokens
        &&& self.output_tokens <= other.output_tokens
        &&& self.duration_ms <= other.duration_ms
    }

    /// Whether the sums fit in the numbers that hold them.
    pub open spec fn fit(self) -> bool {
        &&& self.turns <= u32::MAX
        &&& self.input_tokens <= u64::MAX
        &&& self.output_tokens <= u64::MAX
        &&& self.duration_ms <= u64::MAX
    }
}

/// The sums over no entries.
pub open spec fn no_totals() -> Totals {
    Totals { tasks: 0, turns: 0, input_tokens: 0, output_tokens: 0, duration_ms: 0 }
}

/// The sums over all entries.
pub open spec fn grand_totals(entries: Seq<TaskLog>) -> Totals
    decreases entries.len(),
{
    if entries.len() == 0 {
        no_totals()
    } else {
        grand_totals(entries.drop_last()).with(entries.last())
    }
}

/// The sums over the entries with a label.
pub open spec fn totals_for(
    entries: Seq<TaskLog>,
    by: GroupBy,
    label: Option<Seq<char>>,
) -> Totals
    decreases entries.len(),
{
    if entries.len() == 0 {
        no_totals()
    } else {
        let head = totals_for(entries.drop_last(), by, label);
        if label_of(entries.last(), by) == label {
            head.with(entries.last())
        } else {
            head
        }
    }
}

/// The positions of the entries with a label.
pub open spec fn members_of(
    entries: Seq<TaskLog>,
    by: GroupBy,
    label: Option<Seq<char>>,
) -> Seq<int>
    decreases entries.len(),
{
    if entries.len() == 0 {
        Seq::empty()
    } else {
        let head = members_of(entries.drop_last(), by, label);
        if label_of(entries.last(), by) == label {
            head.push(entries.len() - 1)
        } else {
            head
        }
    }
}

/// The labels of the entries, each once, in the order of their first entry.
pub open spec fn group_labels(entries: Seq<TaskLog>, by: GroupBy) -> Seq<Seq<char>>
    decreases entries.len(),
{
    if entries.len() == 0 {
        Seq::empty()
    } else {
        let head = group_labels(entries.drop_last(), by);
        match label_of(entries.last(), by) {
            Some(l) => if head.contains(l) {
                head
            } else {
                head.push(l)
            },
            None => head,
        }
    }
}

proof fn group_grows(entries: Seq<TaskLog>, by: GroupBy, label: Option<Seq<char>>, n: int)
    requires
        0 <= n <= entries.len(),
    ensures
        totals_for(entries.take(n), by, label).within(totals_for(entries, by, label)),
    decreases entries.len(),
{
    if n < entries.len() {
        assert(entries.drop_last().take(n) =~= entries.take(n));
        group_grows(entries.drop_last(), by, label, n);
    } else {
        assert(entries.take(n) =~= entries);
    }
}

proof fn group_tasks_bound(entries: Seq<TaskLog>, by: GroupBy, label: Option<Seq<char>>)
    ensures
        totals_for(entries, by, label).tasks <= entries.len(),
    decreases entries.len(),
{
    if entries.len() > 0 {
        group_tasks_bound(entries.drop_last(), by, label);
    }
}

proof fn grand_grows(entries: Seq<TaskLog>, n: int)
    requires
        0 <= n <= entries.len(),
    ensures
        grand_totals(entries.take(n)).within(grand_totals(entries)),
    decreases entries.len(),
{
    if n < entries.len() {
        assert(entries.drop_last().take(n) =~= entries.take(n));
        grand_grows(entries.drop_last(), n);
    } else {
        assert(entries.take(n) =~= entries);
    }
}

/// The number of tasks of all entries is their number.
pub proof fn grand_total_counts_entries(entries: Seq<TaskLog>)
    ensures
        grand_totals(entries).tasks == entries.len(),
    decreases entries.len(),
{
    if entries.len() > 0 {
        grand_total_counts_entries(entries.drop_last());
    }
}

/// Sums over a group of entries, with the positions of the entries.
#[derive(Debug, Clone, PartialEq)]
pub struct GroupStats {
    pub label: String,
    pub tasks: usize,
    pub turns: u32,
    pub input_tokens: u64,
    pub output_tokens: u64,
    pub duration_ms: u64,
    pub members: Vec<usize>,
}

impl GroupStats {
    /// The sums.
    pub open spec fn totals(self) -> Totals {
        Totals {
            tasks: self.tasks as nat,
            turns: self.turns as nat,
            input_tokens: self.input_tokens as nat,
            output_tokens: self.output_tokens as nat,
            duration_ms: self.duration_ms as nat,
        }
    }

    /// The positions of the entries.
    pub open spec fn positions(self) -> Seq<int> {
        Seq::new(self.members@.len(), |i: int| self.members@[i] as int)
    }

    fn empty(label: &str) -> (r: GroupStats)
        ensures
            r.label@ == label@,
            r.totals() == no_totals(),
            r.positions() == Seq::<int>::empty(),
    {
        let r = GroupStats {
            label: String::from_str(label),
            tasks: 0,
            turns: 0,
            input_tokens: 0,
            output_tokens: 0,
            duration_ms: 0,
            members: Vec::new(),
        };
        assert(r.positions() =~= Seq::<int>::empty());
        r
    }

    fn takes(&self, e: &TaskLog) -> (r: bool)
        ensures
            r == self.totals().with(*e).fit(),
    {
        let input: u64 = match e.input_tokens {
            Some(k) => k,
            None => 0,
        };
        let output: u64 = match e.output_tokens {
            Some(k) => k,
            None => 0,
        };
        e.turns <= u32::MAX - self.turns && input <= u64::MAX - self.input_tokens && output
            <= u64::MAX - self.output_tokens && e.duration_ms <= u64::MAX - self.duration_ms
    }

    fn count(&mut self, e: &TaskLog, position: usize)
        requires
            old(self).totals().with(*e).fit(),
            old(self).totals().with(*e).tasks <= usize::MAX,
        ensures
            final(self).label@ == old(self).label@,
            final(self).totals() == old(self).totals().with(*e),
            final(self).positions() == old(self).positions().push(position as int),
    {
        let ghost before = self.positions();
        self.tasks = self.tasks + 1;
        self.turns = self.turns + e.turns;
        self.input_tokens = self.input_tokens + match e.input_tokens {
            Some(n) => n,
            None => 0,
        };
        self.output_tokens = self.output_tokens + match e.output_tokens {
            Some(n) => n,
            None => 0,
        };
        self.duration_ms = self.duration_ms + e.duration_ms;
        self.members.push(position);
        assert(self.positions() =~= before.push(position as int));
    }
}

/// The labels of groups.
pub open spec fn labels(groups: Seq<GroupStats>) -> Seq<Seq<char>> {
    Seq::new(groups.len(), |i: int| groups[i].label@)
}

/// Whether a group holds the sums and positions of the entries with its label.
pub open spec fn sums_up(
    g: GroupStats,
    entries: Seq<TaskLog>,
    by: GroupBy,
    label: Option<Seq<char>>,
) -> bool {
    g.totals() == totals_for(entries, by, label) && g.positions() == members_of(
        entries,
        by,
        label,
    )
}

fn show_label(e: &TaskLog, by: GroupBy) -> (r: Option<String>)
    ensures
        opt_text(r) == label_of(*e, by),
{
    match by {
        GroupBy::Source => Some(e.source.clone()),
        GroupBy::PullRequest => match (&e.github_repo, e.github_pr) {
            (Some(repo), Some(pr)) => Some(cat3(repo, "#", &show_u64(pr))),
            _ => None,
        },
    }
}

fn find_group(groups: &Vec<GroupStats>, label: &str) -> (r: Option<usize>)
    ensures
        match r {
            Some(i) => i < groups@.len() && groups@[i as int].label@ == label@ && labels(
                groups@,
            ).contains(label@),
            None => !labels(groups@).contains(label@),
        },
{
    let mut i: usize = 0;
    while i < groups.len()
        invariant
            i <= groups@.len(),
            forall|j: int| 0 <= j < i ==> (#[trigger] groups@[j]).label@ != label@,
        decreases groups@.len() - i,
    {
        if same(&groups[i].label, label) {
            assert(labels(groups@)[i as int] == label@);
            return Some(i);
        }
        i += 1;
    }
    assert forall|j: int| 0 <= j < labels(groups@).len() implies labels(groups@)[j] != label@ by {}
    None
}

/// Whether the sums within each group fit in the numbers that hold them.
pub open spec fn groups_fit(entries: Seq<TaskLog>, by: GroupBy) -> bool {
    forall|label: Option<Seq<char>>| (#[trigger] totals_for(entries, by, label)).fit()
}

/// Whether `groups` are the groups of the entries, in the order of their first
/// entry, and `others` the entries in none.
pub open spec fn grouped(
    entries: Seq<TaskLog>,
    by: GroupBy,
    groups: Seq<GroupStats>,
    others: GroupStats,
) -> bool {
    &&& labels(groups) == group_labels(entries, by)
    &&& forall|k: int|
        0 <= k < groups.len() ==> sums_up(
            #[trigger] groups[k],
            entries,
            by,
            Some(groups[k].label@),
        )
    &&& sums_up(others, entries, by, None)
}

/// The groups of the entries, in the order of their first entry, and the sums
/// over the entries without a group. None where a sum within a group does not fit
/// in the number that would hold it.
pub fn group_entries(entries: &Vec<TaskLog>, by: GroupBy) -> (r: Option<
    (Vec<GroupStats>, GroupStats),
>)
    ensures
        match r {
            Some((groups, others)) => groups_fit(entries@, by) && grouped(
                entries@,
                by,
                groups@,
                others,
            ) && labels(groups@).no_duplicates(),
            None => !groups_fit(entries@, by),
        },
{
    let ghost all = entries@;
    let mut groups: Vec<GroupStats> = Vec::new();
    let mut others = GroupStats::empty("");
    let mut i: usize = 0;
    let n: usize = entries.len();
    assert(labels(groups@) =~= group_labels(all.take(0), by));
    while i < n
        invariant
            i <= n,
            n == entries@.len(),
            all == entries@,
            labels(groups@) == group_labels(all.take(i as int), by),
            labels(groups@).no_duplicates(),
            forall|k: int|
                0 <= k < groups@.len() ==> sums_up(
                    #[trigger] groups@[k],
                    all.take(i as int),
                    by,
                    Some(groups@[k].label@),
                ),
            sums_up(others, all.take(i as int), by, None),
            forall|l: Seq<char>| !(#[trigger] labels(groups@).contains(l)) ==> totals_for(
                all.take(i as int),
                by,
                Some(l),
            ) == no_totals() && members_of(all.take(i as int), by, Some(l)) == Seq::<int>::empty(),
        decreases n - i,
    {
        let e = &entries[i];
        let ghost head = all.take(i as int);
        let ghost next = all.take(i + 1);
        let ghost label = label_of(*e, by);
        proof {
            assert(next.drop_last() =~= head);
            assert(next.last() == *e);
            group_grows(all, by, label, i + 1);
            group_tasks_bound(next, by, label);
        }
        match show_label(e, by) {
            Some(l) => {
                let ghost before = groups@;
                let k: usize = match find_group(&groups, &l) {
                    Some(k) => k,
                    None => {
                        groups.push(GroupStats::empty(&l));
                        assert(labels(groups@) =~= labels(before).push(l@));
                        groups.len() - 1
                    },
                };
                let ghost held = groups@;
                proof {
                    assert(held[k as int].label@ == l@);
                    assert(sums_up(held[k as int], head, by, Some(l@)));
                    assert(totals_for(next, by, Some(l@)) == held[k as int].totals().with(*e));
                }
                if !groups[k].takes(e) {
                    assert(!totals_for(all, by, label).fit());
                    return None;
                }
                groups[k].count(e, i);
                proof {
                    assert(labels(groups@) =~= labels(held));
                    assert forall|j: int| 0 <= j < groups@.len() implies sums_up(
                        #[trigger] groups@[j],
                        next,
                        by,
                        Some(groups@[j].label@),
                    ) by {
                        if j != k {
                            assert(groups@[j] == held[j]);
                            assert(labels(held)[j] != labels(held)[k as int]);
                            assert(sums_up(held[j], head, by, Some(held[j].label@)));
                        }
                    }
                    assert forall|x: Seq<char>| !(#[trigger] labels(groups@).contains(
                        x,
                    )) implies totals_for(next, by, Some(x)) == no_totals() && members_of(
                        next,
                        by,
                        Some(x),
                    ) == Seq::<int>::empty() by {
                        assert(labels(held)[k as int] == l@);
                        assert(x != l@);
                        if labels(before).contains(x) {
                            let j = choose|j: int|
                                0 <= j < labels(before).len() && labels(before)[j] == x;
                            assert(labels(held)[j] == x);
                        }
                    }
                }
            },
            None => {
                assert(totals_for(next, by, None) == others.totals().with(*e));
                if !others.takes(e) {
                    assert(!totals_for(all, by, label).fit());
                    return None;
                }
                others.count(e, i);
            },
        }
        i += 1;
    }
    proof {
        assert(all.take(i as int) =~= all);
        assert forall|label: Option<Seq<char>>| (#[trigger] totals_for(all, by, label)).fit() by {
            match label {
                Some(l) => {
                    if labels(groups@).contains(l) {
                        let k = choose|k: int| 0 <= k < labels(groups@).len() && labels(groups@)[k] == l;
                        assert(sums_up(groups@[k], all, by, Some(groups@[k].label@)));
                    }
                },
                None => {},
            }
        }
    }
    Some((groups, others))
}

/// The sums over all entries. None where a sum does not fit in the number that
/// would hold it.
pub fn sum_entries(entries: &Vec<TaskLog>) -> (r: Option<GroupStats>)
    ensures
        match r {
            Some(g) => grand_totals(entries@).fit() && g.totals() == grand_totals(entries@)
                && g.label@.len() == 0,
            None => !grand_totals(entries@).fit(),
        },
{
    let mut all = GroupStats::empty("");
    let mut i: usize = 0;
    let n: usize = entries.len();
    proof {
        reveal_strlit("");
        assert(entries@.take(0) =~= Seq::empty());
    }
    while i < n
        invariant
            i <= n,
            n == entries@.len(),
            all.label@.len() == 0,
            grand_totals(entries@.take(i as int)).fit(),
            all.totals() == grand_totals(entries@.take(i as int)),
            all.tasks == i,
        decreases n - i,
    {
        let e = &entries[i];
        assert(entries@.take(i + 1).drop_last() =~= entries@.take(i as int));
        assert(entries@.take(i + 1).last() == *e);
        if !all.takes(e) {
            proof {
                grand_grows(entries@, i + 1);
            }
            return None;
        }
        all.count(e, i);
        i += 1;
    }
    assert(entries@.take(i as int) =~= entries@);
    Some(all)
}

// ─── Reports ────────────────────────────────────────────────────────────────

/// An amount of money: a number that ranks it among the others, its text with
/// two decimal places, and its share of the total in percent.
#[derive(Debug, Clone, PartialEq)]
pub struct CostCell {
    pub rank: i64,
    pub text: String,
    pub share: String,
}

/// A group with what it cost.
#[derive(Debug, Clone, PartialEq)]
pub struct GroupRow {
    pub stats: GroupStats,
    pub cost: CostCell,
}

impl Ranked for GroupRow {
    open spec fn rank(self) -> int {
        self.cost.rank as int
    }

    fn rank_value(&self) -> (r: i128) {
        self.cost.rank as i128
    }
}

/// The head of a report.
pub open spec fn report_head(agent: Seq<char>, since: Option<Seq<char>>) -> Seq<char> {
    "Agent: "@ + agent + "\n"@ + (match since {
        Some(label) => "Period: last "@ + label + "\n"@,
        None => Seq::empty(),
    }) + "\n"@
}

/// The head of a report.
pub(crate) fn show_head(agent: &str, since: Option<&str>) -> (r: String)
    ensures
        r@ == report_head(agent@, opt_str(since)),
{
    let mut out = cat3("Agent: ", agent, "\n");
    match since {
        Some(label) => {
            let period = cat3("Period: last ", label, "\n");
            out.append(&period);
        },
        None => {
            assert(out@ + Seq::<char>::empty() =~= out@);
        },
    }
    out.append("\n");
    out
}

/// A line of `n` dashes.
pub open spec fn dashes(n: nat) -> Seq<char> {
    Seq::new(n, |i: int| '─') + "\n"@
}

/// A line of `n` dashes.
pub(crate) fn show_dashes(n: usize) -> (r: String)
    ensures
        r@ == dashes(n as nat),
{
    let mut out = String::new();
    let mut i: usize = 0;
    while i < n
        invariant
            i <= n,
            out@ == Seq::new(i as nat, |j: int| '─'),
        decreases n - i,
    {
        out.push('─');
        i += 1;
        assert(out@ =~= Seq::new(i as nat, |j: int| '─'));
    }
    assert(out@ =~= Seq::new(n as nat, |j: int| '─'));
    out.append("\n");
    out
}

/// The row of a group in the table of pull requests.
pub open spec fn pr_row(label: Seq<char>, t: Totals, cost: Seq<char>) -> Seq<char> {
    pad_right_spec(label, 30) + " "@ + pad_left_spec(decimal(t.tasks), 5) + "  $"@ + pad_left_spec(
        cost,
        6,
    ) + "  "@ + pad_left_spec(tokens_text(t.input_tokens), 8) + "  "@ + pad_left_spec(
        tokens_text(t.output_tokens),
        8,
    ) + "  "@ + pad_left_spec(duration_text(t.duration_ms), 9) + "\n"@
}

fn show_pr_row(label: &str, g: &GroupStats, cost: &str) -> (r: String)
    ensures
        r@ == pr_row(label@, g.totals(), cost@),
{
    let mut out = cat3(&pad_right(label, 30), " ", &pad_left(&show_usize(g.tasks), 5));
    out.append("  $");
    let amount = pad_left(cost, 6);
    out.append(&amount);
    out.append("  ");
    let input = pad_left(&format_tokens(g.input_tokens), 8);
    out.append(&input);
    out.append("  ");
    let output = pad_left(&format_tokens(g.output_tokens), 8);
    out.append(&output);
    out.append("  ");
    let duration = pad_left(&format_duration(g.duration_ms), 9);
    out.append(&duration);
    out.append("\n");
    out
}

/// The header of the table of pull requests.
pub open spec fn pr_header() -> Seq<char> {
    pad_right_spec("PR"@, 30) + " "@ + pad_left_spec("TASKS"@, 5) + "  "@ + pad_left_spec(
        "COST"@,
        7,
    ) + "  "@ + pad_left_spec("IN_TOK"@, 8) + "  "@ + pad_left_spec("OUT_TOK"@, 8) + "  "@
        + pad_left_spec("DURATION"@, 9) + "\n"@
}

fn show_pr_header() -> (r: String)
    ensures
        r@ == pr_header(),
{
    let mut out = cat3(&pad_right("PR", 30), " ", &pad_left("TASKS", 5));
    out.append("  ");
    let cost = pad_left("COST", 7);
    out.append(&cost);
    out.append("  ");
    let input = pad_left("IN_TOK", 8);
    out.append(&input);
    out.append("  ");
    let output = pad_left("OUT_TOK", 8);
    out.append(&output);
    out.append("  ");
    let duration = pad_left("DURATION", 9);
    out.append(&duration);
    out.append("\n");
    out
}

/// The rows of the first `n` groups.
pub open spec fn pr_rows(rows: Seq<GroupRow>, n: int) -> Seq<char>
    decreases n,
{
    if n <= 0 {
        Seq::empty()
    } else {
        pr_rows(rows, n - 1) + pr_row(
            rows[n - 1].stats.label@,
            rows[n - 1].stats.totals(),
            rows[n - 1].cost.text@,
        )
    }
}

/// The number of tasks of the first `n` groups.
pub open spec fn task_sum(rows: Seq<GroupRow>, n: int) -> nat
    decreases n,
{
    if n <= 0 {
        0
    } else {
        task_sum(rows, n - 1) + rows[n - 1].stats.tasks as nat
    }
}

proof fn task_sum_grows(rows: Seq<GroupRow>, i: int, n: int)
    requires
        0 <= i <= n,
    ensures
        task_sum(rows, i) <= task_sum(rows, n),
    decreases n,
{
    if i < n {
        task_sum_grows(rows, i, n - 1);
    }
}

/// The report per pull request: the most expensive first.
pub open spec fn pr_report(
    agent: Seq<char>,
    since: Option<Seq<char>>,
    rows: Seq<GroupRow>,
    others: GroupRow,
    total_cost: Seq<char>,
) -> Seq<char> {
    let sorted = ranked(rows);
    if rows.len() == 0 {
        report_head(agent, since) + "No PR-linked tasks found.\n"@
    } else {
        report_head(agent, since) + pr_header() + dashes(75) + pr_rows(sorted, sorted.len() as int)
            + (if others.stats.tasks > 0 {
            pr_row("(no PR)"@, others.stats.totals(), others.cost.text@)
        } else {
            Seq::empty()
        }) + dashes(75) + pad_right_spec("TOTAL"@, 30) + " "@ + pad_left_spec(
            decimal(task_sum(sorted, sorted.len() as int) + others.stats.tasks as nat),
            5,
        ) + "  $"@ + pad_left_spec(total_cost, 6) + "\n"@
    }
}

/// The report per pull request: the most expensive first. `others` holds the
/// entries without one.
pub fn show_pr_report(
    agent_name: &str,
    since_label: Option<&str>,
    rows: Vec<GroupRow>,
    others: &GroupRow,
    total_cost: &str,
) -> (r: String)
    requires
        task_sum(ranked(rows@), rows@.len() as int) + others.stats.tasks <= usize::MAX,
    ensures
        r@ == pr_report(agent_name@, opt_str(since_label), rows@, *others, total_cost@),
{
    let mut out = show_head(agent_name, since_label);
    if rows.len() == 0 {
        out.append("No PR-linked tasks found.\n");
        return out;
    }
    let ghost given = rows@;
    let sorted = sort_by_rank(rows);
    proof {
        crate::order::ranked_is_descending(given);
    }
    let header = show_pr_header();
    out.append(&header);
    let line = show_dashes(75);
    out.append(&line);
    let ghost base = out@;
    let mut total: usize = 0;
    let mut i: usize = 0;
    assert(out@ =~= base + pr_rows(sorted@, 0));
    while i < sorted.len()
        invariant
            i <= sorted@.len(),
            total == task_sum(sorted@, i as int),
            task_sum(sorted@, sorted@.len() as int) + others.stats.tasks <= usize::MAX,
            out@ == base + pr_rows(sorted@, i as int),
        decreases sorted@.len() - i,
    {
        proof {
            task_sum_grows(sorted@, i + 1, sorted@.len() as int);
        }
        let row = show_pr_row(&sorted[i].stats.label, &sorted[i].stats, &sorted[i].cost.text);
        out.append(&row);
        total = total + sorted[i].stats.tasks;
        i += 1;
        assert(out@ =~= base + pr_rows(sorted@, i as int));
    }
    if others.stats.tasks > 0 {
        let row = show_pr_row("(no PR)", &others.stats, &others.cost.text);
        out.append(&row);
    } else {
        assert(out@ + Seq::<char>::empty() =~= out@);
    }
    out.append(&line);
    let name = pad_right("TOTAL", 30);
    out.append(&name);
    out.append(" ");
    let tasks = pad_left(&show_usize(total + others.stats.tasks), 5);
    out.append(&tasks);
    out.append("  $");
    let amount = pad_left(total_cost, 6);
    out.append(&amount);
    out.append("\n");
    out
}

// ─── What the log tells ─────────────────────────────────────────────────────

/// The last values are the end of the sequence, at most as many as asked for.
pub proof fn last_values_are_the_end<T>(s: Seq<T>, n: nat)
    ensures
        last_n(s, n).len() == (if s.len() > n {
            n
        } else {
            s.len()
        }),
        forall|i: int|
            0 <= i < last_n(s, n).len() ==> #[trigger] last_n(s, n)[i] == s[s.len() - last_n(
                s,
                n,
            ).len() + i],
{
}

/// A log of more than ten thousand lines is cut to its last ten thousand, and a shorter one
/// is left alone.
pub proof fn logs_are_cut_to_ten_thousand_lines(lines: Seq<Seq<char>>, r: Option<Vec<String>>, i: int)
    requires
        rotates(lines, r),
    ensures
        r is Some <==> lines.len() > 10_000,
        r matches Some(v) ==> v@.len() == 10_000 && (0 <= i < 10_000 ==> v@[i]@ == lines[lines.len()
            - 10_000 + i]),
{
    if let Some(v) = r {
        assert(texts(v@).len() == v@.len());
        assert(last_n(lines, 10_000).len() == 10_000);
        if 0 <= i < 10_000 {
            assert(texts(v@)[i] == v@[i]@);
        }
    }
}

/// An instant is earlier where its nanoseconds since the epoch are fewer.
pub proof fn earlier_is_less_time(a: (i64, u32), b: (i64, u32))
    requires
        a.1 < 1_000_000_000,
        b.1 < 1_000_000_000,
    ensures
        earlier(a, b) <==> a.0 * 1_000_000_000 + a.1 < b.0 * 1_000_000_000 + b.1,
{
}

/// An entry is selected exactly where its source is the one asked for, and it is not before the time asked for.
pub proof fn selected_entries_pass_the_filters(entries: Seq<TaskLog>, source_filter: Option<Seq<char>>, since: Option<(i64, u32)>, v: TaskLog)
    ensures
        selected(entries, source_filter, since).contains(v) <==> exists|i: int|
            0 <= i < entries.len() && #[trigger] entries[i] == v && (source_filter is Some ==> entries[i].source@ == source_filter->0) && ((since is Some && rfc3339_time(entries[i].ts@) is Some) ==> !earlier(rfc3339_time(entries[i].ts@)->0, since->0)),
    decreases entries.len(),
{
    if entries.len() > 0 {
        let front = entries.drop_last();
        let head = selected(front, source_filter, since);
        let out = selected(entries, source_filter, since);
        selected_entries_pass_the_filters(front, source_filter, since, v);
        if out.contains(v) {
            let k = choose|k: int| 0 <= k < out.len() && out[k] == v;
            if k < head.len() {
                assert(head[k] == v);
                let i = choose|i: int| 0 <= i < front.len() && #[trigger] front[i] == v && (source_filter is Some ==> front[i].source@ == source_filter->0) && ((since is Some && rfc3339_time(front[i].ts@) is Some) ==> !earlier(rfc3339_time(front[i].ts@)->0, since->0));
                assert(entries[i] == front[i]);
            } else {
                assert(entries[entries.len() - 1] == entries.last());
            }
        }
        if exists|i: int| 0 <= i < entries.len() && #[trigger] entries[i] == v && (source_filter is Some ==> entries[i].source@ == source_filter->0) && ((since is Some && rfc3339_time(entries[i].ts@) is Some) ==> !earlier(rfc3339_time(entries[i].ts@)->0, since->0)) {
            let i = choose|i: int| 0 <= i < entries.len() && #[trigger] entries[i] == v && (source_filter is Some ==> entries[i].source@ == source_filter->0) && ((since is Some && rfc3339_time(entries[i].ts@) is Some) ==> !earlier(rfc3339_time(entries[i].ts@)->0, since->0));
            if i < front.len() {
                assert(front[i] == entries[i]);
                let k = choose|k: int| 0 <= k < head.len() && head[k] == v;
                assert(out[k] == v);
            } else {
                assert(out[out.len() - 1] == v);
            }
        }
    }
}

/// Minutes and seconds are told, and seconds alone below a minute; what is less than a
/// second is not.
pub proof fn durations_are_told_in_minutes_and_seconds(minutes: nat, seconds: nat, rest: nat)
    requires
        seconds < 60,
        rest < 1000,
    ensures
        minutes > 0 ==> duration_text(minutes * 60_000 + seconds * 1_000 + rest) == decimal(minutes)
            + "m"@ + decimal(seconds) + "s"@,
        seconds > 0 ==> duration_text(seconds * 1_000 + rest) == decimal(seconds) + "s"@,
        duration_text(rest) == "0s"@,
{
    let total = minutes * 60 + seconds;
    assert((minutes * 60_000 + seconds * 1_000 + rest) / 1000 == total);
    assert(total / 60 == minutes);
    assert(total % 60 == seconds);
}

/// A task text within the limit stays whole; a longer one keeps its start and is marked.
pub proof fn long_task_texts_are_cut(s: Seq<char>, max: nat)
    ensures
        s.len() <= max ==> cut_text(s, max) == s,
        s.len() > max ==> cut_text(s, max).len() == max + 3 && cut_text(s, max).take(max as int)
            == s.take(max as int),
{
    reveal_strlit("...");
    if s.len() > max {
        assert(cut_text(s, max).take(max as int) =~= s.take(max as int));
    }
}

/// The sums over two logs are the sums of their sums, and those over one entry are what it
/// states.
pub proof fn sums_add_up(a: Seq<TaskLog>, b: Seq<TaskLog>)
    ensures
        ({
            let x = grand_totals(a);
            let y = grand_totals(b);
            let z = grand_totals(a + b);
            &&& z.tasks == x.tasks + y.tasks
            &&& z.turns == x.turns + y.turns
            &&& z.input_tokens == x.input_tokens + y.input_tokens
            &&& z.output_tokens == x.output_tokens + y.output_tokens
            &&& z.duration_ms == x.duration_ms + y.duration_ms
        }),
        b.len() == 1 ==> ({
            let y = grand_totals(b);
            &&& y.tasks == 1
            &&& y.turns == b[0].turns
            &&& y.input_tokens == (if b[0].input_tokens is Some {
                b[0].input_tokens->0 as nat
            } else {
                0
            })
            &&& y.output_tokens == (if b[0].output_tokens is Some {
                b[0].output_tokens->0 as nat
            } else {
                0
            })
            &&& y.duration_ms == b[0].duration_ms
        }),
    decreases b.len(),
{
    if b.len() == 0 {
        assert(a + b =~= a);
    } else {
        sums_add_up(a, b.drop_last());
        assert((a + b).drop_last() =~= a + b.drop_last());
        if b.len() == 1 {
            assert(b.drop_last() =~= Seq::<TaskLog>::empty());
        }
    }
}

/// The sums of a group are those of the entries with its label.
pub proof fn sums_of_a_group_are_those_of_its_entries(
    entries: Seq<TaskLog>,
    by: GroupBy,
    label: Option<Seq<char>>,
    e: TaskLog,
)
    ensures
        ({
            let x = totals_for(entries, by, label);
            let z = totals_for(entries.push(e), by, label);
            &&& label_of(e, by) == label ==> z.tasks == x.tasks + 1 && z.turns == x.turns + e.turns
                && z.duration_ms == x.duration_ms + e.duration_ms
            &&& label_of(e, by) != label ==> z == x
        }),
        (forall|i: int| 0 <= i < entries.len() ==> label_of(#[trigger] entries[i], by) == label)
            ==> totals_for(entries, by, label) == grand_totals(entries),
    decreases entries.len(),
{
    assert(entries.push(e).drop_last() =~= entries);
    if entries.len() > 0 && forall|i: int|
        0 <= i < entries.len() ==> label_of(#[trigger] entries[i], by) == label {
        let front = entries.drop_last();
        assert forall|i: int| 0 <= i < front.len() implies label_of(#[trigger] front[i], by)
            == label by {
            assert(front[i] == entries[i]);
        }
        assert(entries[entries.len() - 1] == entries.last());
        sums_of_a_group_are_those_of_its_entries(front, by, label, e);
    }
}

/// An entry belongs to the group of its source, or to that of its pull request, where it
/// has one.
pub proof fn entries_belong_to_their_group(e: TaskLog)
    ensures
        label_of(e, GroupBy::Source) == Some(e.source@),
        label_of(e, GroupBy::PullRequest) is Some <==> e.github_repo is Some && e.github_pr is Some,
        label_of(e, GroupBy::PullRequest) matches Some(l) ==> l == e.github_repo->0@ + "#"@
            + decimal(e.github_pr->0 as nat),
{
}

/// There is a group exactly for each label that an entry has.
pub proof fn groups_are_those_of_the_entries(entries: Seq<TaskLog>, by: GroupBy, v: Seq<char>)
    ensures
        group_labels(entries, by).contains(v) <==> exists|i: int|
            0 <= i < entries.len() && label_of(#[trigger] entries[i], by) == Some(v),
    decreases entries.len(),
{
    if entries.len() > 0 {
        let front = entries.drop_last();
        let head = group_labels(front, by);
        let out = group_labels(entries, by);
        groups_are_those_of_the_entries(front, by, v);
        if out.contains(v) {
            let k = choose|k: int| 0 <= k < out.len() && out[k] == v;
            if k < head.len() {
                assert(head[k] == v);
                let i = choose|i: int| 0 <= i < front.len() && label_of(#[trigger] front[i], by) == Some(v);
                assert(entries[i] == front[i]);
            } else {
                assert(entries[entries.len() - 1] == entries.last());
            }
        }
        if exists|i: int| 0 <= i < entries.len() && label_of(#[trigger] entries[i], by) == Some(v) {
            let i = choose|i: int| 0 <= i < entries.len() && label_of(#[trigger] entries[i], by) == Some(v);
            let known = head.contains(v);
            if i < front.len() || known {
                if i < front.len() {
                    assert(front[i] == entries[i]);
                }
                let k = choose|k: int| 0 <= k < head.len() && head[k] == v;
                assert(out[k] == v);
            } else {
                assert(out[out.len() - 1] == v);
            }
        }
    }
}

/// An entry is among the members of a group exactly where it has its label.
pub proof fn members_have_the_label(
    entries: Seq<TaskLog>,
    by: GroupBy,
    label: Option<Seq<char>>,
    p: int,
)
    ensures
        members_of(entries, by, label).contains(p) <==> 0 <= p < entries.len() && label_of(
            entries[p],
            by,
        ) == label,
    decreases entries.len(),
{
    let out = members_of(entries, by, label);
    if entries.len() > 0 {
        let front = entries.drop_last();
        let head = members_of(front, by, label);
        members_have_the_label(front, by, label, p);
        if out.contains(p) {
            let k = choose|k: int| 0 <= k < out.len() && out[k] == p;
            if k < head.len() {
                assert(head[k] == p);
                assert(front[p] == entries[p]);
            }
        }
        if 0 <= p < entries.len() && label_of(entries[p], by) == label {
            if p < front.len() {
                assert(front[p] == entries[p]);
                let k = choose|k: int| 0 <= k < head.len() && head[k] == p;
                assert(out[k] == p);
            } else {
                assert(out[out.len() - 1] == p);
            }
        }
    }
}

/// The row of an entry holds its source, its turns, its cost, its duration, its status and
/// its task.
pub proof fn rows_tell_their_entry(e: TaskLog, cost: Seq<char>)
    ensures
        contains_spec(entry_row(e, cost), e.source@),
        contains_spec(entry_row(e, cost), decimal(e.turns as nat)),
        contains_spec(entry_row(e, cost), cost),
        contains_spec(entry_row(e, cost), duration_text(e.duration_ms as nat)),
        contains_spec(entry_row(e, cost), e.status@),
        contains_spec(entry_row(e, cost), e.task@),
{
    padding_keeps_the_text(e.source@, 14);
    padding_keeps_the_text(decimal(e.turns as nat), 5);
    padding_keeps_the_text(cost, 6);
    padding_keeps_the_text(duration_text(e.duration_ms as nat), 9);
    padding_keeps_the_text(e.status@, 6);
    let p0 = pad_right_spec(replaced(byte_prefix_spec(e.ts@, 19), 'T', ' '), 20);
    let q1 = " "@;
    let p1 = p0 + q1;
    both_parts_occur(p0, q1);
    let q2 = pad_right_spec(e.source@, 14);
    let p2 = p1 + q2;
    both_parts_occur(p1, q2);
    let q3 = " "@;
    let p3 = p2 + q3;
    both_parts_occur(p2, q3);
    let q4 = pad_left_spec(decimal(e.turns as nat), 5);
    let p4 = p3 + q4;
    both_parts_occur(p3, q4);
    let q5 = "  $"@;
    let p5 = p4 + q5;
    both_parts_occur(p4, q5);
    let q6 = pad_left_spec(cost, 6);
    let p6 = p5 + q6;
    both_parts_occur(p5, q6);
    let q7 = "  "@;
    let p7 = p6 + q7;
    both_parts_occur(p6, q7);
    let q8 = pad_left_spec(duration_text(e.duration_ms as nat), 9);
    let p8 = p7 + q8;
    both_parts_occur(p7, q8);
    let q9 = "  "@;
    let p9 = p8 + q9;
    both_parts_occur(p8, q9);
    let q10 = pad_right_spec(e.status@, 6);
    let p10 = p9 + q10;
    both_parts_occur(p9, q10);
    let q11 = " "@;
    let p11 = p10 + q11;
    both_parts_occur(p10, q11);
    let q12 = e.task@;
    let p12 = p11 + q12;
    both_parts_occur(p11, q12);
    let q13 = "\n"@;
    let p13 = p12 + q13;
    both_parts_occur(p12, q13);
    assert(entry_row(e, cost) == p13);
}

/// The row of a group holds its label, its tasks, its cost, its tokens and its duration.
pub proof fn group_rows_tell_their_group(label: Seq<char>, t: Totals, cost: Seq<char>)
    ensures
        contains_spec(pr_row(label, t, cost), label),
        contains_spec(pr_row(label, t, cost), decimal(t.tasks)),
        contains_spec(pr_row(label, t, cost), cost),
        contains_spec(pr_row(label, t, cost), tokens_text(t.input_tokens)),
        contains_spec(pr_row(label, t, cost), tokens_text(t.output_tokens)),
        contains_spec(pr_row(label, t, cost), duration_text(t.duration_ms)),
{
    padding_keeps_the_text(label, 30);
    padding_keeps_the_text(decimal(t.tasks), 5);
    padding_keeps_the_text(cost, 6);
    padding_keeps_the_text(tokens_text(t.input_tokens), 8);
    padding_keeps_the_text(tokens_text(t.output_tokens), 8);
    padding_keeps_the_text(duration_text(t.duration_ms), 9);
    let p0 = pad_right_spec(label, 30);
    let q1 = " "@;
    let p1 = p0 + q1;
    both_parts_occur(p0, q1);
    let q2 = pad_left_spec(decimal(t.tasks), 5);
    let p2 = p1 + q2;
    both_parts_occur(p1, q2);
    let q3 = "  $"@;
    let p3 = p2 + q3;
    both_parts_occur(p2, q3);
    let q4 = pad_left_spec(cost, 6);
    let p4 = p3 + q4;
    both_parts_occur(p3, q4);
    let q5 = "  "@;
    let p5 = p4 + q5;
    both_parts_occur(p4, q5);
    let q6 = pad_left_spec(tokens_text(t.input_tokens), 8);
    let p6 = p5 + q6;
    both_parts_occur(p5, q6);
    let q7 = "  "@;
    let p7 = p6 + q7;
    both_parts_occur(p6, q7);
    let q8 = pad_left_spec(tokens_text(t.output_tokens), 8);
    let p8 = p7 + q8;
    both_parts_occur(p7, q8);
    let q9 = "  "@;
    let p9 = p8 + q9;
    both_parts_occur(p8, q9);
    let q10 = pad_left_spec(duration_text(t.duration_ms), 9);
    let p10 = p9 + q10;
    both_parts_occur(p9, q10);
    let q11 = "\n"@;
    let p11 = p10 + q11;
    both_parts_occur(p10, q11);
    assert(pr_row(label, t, cost) == p11);
}

/// The table has a row for each entry, with its own cost, in their order.
pub proof fn entries_are_listed_in_order(v: Seq<TaskLog>, costs: Seq<Seq<char>>, k: int, n: int)
    requires
        0 <= k < n <= v.len(),
    ensures
        starts_with_spec(entry_rows(v, costs, n), entry_rows(v, costs, k) + entry_row(v[k], costs[k])),
    decreases n,
{
    let head = entry_rows(v, costs, n - 1);
    let all = entry_rows(v, costs, n);
    let start = entry_rows(v, costs, k) + entry_row(v[k], costs[k]);
    if k < n - 1 {
        entries_are_listed_in_order(v, costs, k, n - 1);
        assert(all.take(start.len() as int) =~= head.take(start.len() as int));
    } else {
        assert(all.take(start.len() as int) =~= start);
    }
}

/// The table has a row for each group, with its own sums, in their order.
pub proof fn groups_are_listed_in_order(v: Seq<GroupRow>, k: int, n: int)
    requires
        0 <= k < n <= v.len(),
    ensures
        starts_with_spec(pr_rows(v, n), pr_rows(v, k) + pr_row(v[k].stats.label@, v[k].stats.totals(), v[k].cost.text@)),
    decreases n,
{
    let head = pr_rows(v, n - 1);
    let all = pr_rows(v, n);
    let start = pr_rows(v, k) + pr_row(v[k].stats.label@, v[k].stats.totals(), v[k].cost.text@);
    if k < n - 1 {
        groups_are_listed_in_order(v, k, n - 1);
        assert(all.take(start.len() as int) =~= head.take(start.len() as int));
    } else {
        assert(all.take(start.len() as int) =~= start);
    }
}

} // verus!
