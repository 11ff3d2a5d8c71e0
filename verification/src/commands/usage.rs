//! Aggregate token usage and cost over agents.
use crate::decimal::{decimal, parse_signed, read_i64, show_usize, tokens_text};
use crate::json::{Fields, Items, Json, JsonModel};
use crate::json_text::{compact_text, pretty, pretty_text};
use crate::metrics::{trim_end_char, trim_end_matches};
use crate::order::{descending, leaders, ranked, ranked_is_descending, sort_by_rank, Ranked};
use crate::tasklog::{
    dashes, duration_text, format_duration, grand_totals, no_totals, show_dashes, CostCell, TaskLog,
    Totals,
};
use crate::text::{
    both_parts_occur, cat3, contains_spec, pad_left, pad_left_spec, pad_right, pad_right_spec,
    padding_keeps_the_text, same, starts_with_spec,
};
use crate::message::lookup_steps;
use vstd::prelude::*;
use vstd::string::*;

verus! {

/// A period that ends now.
#[derive(Debug, Clone, Copy, PartialEq, Eq)]
pub enum Period {
    /// Since ever.
    All,
    /// Since the start of the day in UTC.
    Today,
    /// Since so many days ago.
    Days(i64),
    /// Since so many hours ago.
    Hours(i64),
}

/// The period that a text denotes.
pub open spec fn period_of(s: Seq<char>) -> Result<Period, Seq<char>> {
    if s == "all"@ {
        Ok(Period::All)
    } else if s == "today"@ {
        Ok(Period::Today)
    } else if s.len() > 0 && s.last() == 'd' {
        match parse_signed(trim_end_char(s, 'd')) {
            Some(n) => Ok(Period::Days(n as i64)),
            None => Err("invalid period '"@ + s + "' — expected e.g. 7d, 30d, today, all"@),
        }
    } else if s.len() > 0 && s.last() == 'h' {
        match parse_signed(trim_end_char(s, 'h')) {
            Some(n) => Ok(Period::Hours(n as i64)),
            None => Err("invalid period '"@ + s + "' — expected e.g. 24h, 7d, today, all"@),
        }
    } else {
        Err("unknown period '"@ + s + "' — use today, 24h, 7d, 30d, or all"@)
    }
}

/// The period that a text denotes: `all`, `today`, a number of days as `7d` or
/// of hours as `24h`.
pub fn parse_period(period: &str) -> (r: Result<Period, String>)
    ensures
        match r {
            Ok(p) => period_of(period@) == Ok::<Period, Seq<char>>(p),
            Err(e) => period_of(period@) == Err::<Period, Seq<char>>(e@),
        },
{
    if same(period, "all") {
        return Ok(Period::All);
    }
    if same(period, "today") {
        return Ok(Period::Today);
    }
    let n: usize = period.unicode_len();
    let last: char = if n > 0 {
        period.get_char(n - 1)
    } else {
        ' '
    };
    if last == 'd' {
        match read_i64(trim_end_matches(period, 'd')) {
            Some(days) => Ok(Period::Days(days)),
            None => Err(
                cat3("invalid period '", period, "' — expected e.g. 7d, 30d, today, all"),
            ),
        }
    } else if last == 'h' {
        match read_i64(trim_end_matches(period, 'h')) {
            Some(hours) => Ok(Period::Hours(hours)),
            None => Err(
                cat3("invalid period '", period, "' — expected e.g. 24h, 7d, today, all"),
            ),
        }
    } else {
        Err(cat3("unknown period '", period, "' — use today, 24h, 7d, 30d, or all"))
    }
}

/// The first second that the calendar holds.
pub const CALENDAR_START: i64 = -8_334_601_228_800;

/// The last second that the calendar holds.
pub const CALENDAR_END: i64 = 8_210_266_876_799;

/// The second at which a period starts that ends at `now`, in nanoseconds.
pub open spec fn period_start(p: Period, now: i64) -> int {
    let secs = now as int / 1_000_000_000;
    match p {
        Period::All => secs,
        Period::Today => (secs / 86_400) * 86_400,
        Period::Days(n) => secs - n * 86_400,
        Period::Hours(n) => secs - n * 3_600,
    }
}

/// The instant at which a period starts that ends at `now`, in nanoseconds: none for
/// the period since ever.
pub open spec fn cutoff_of(p: Period, now: i64) -> Option<(i64, u32)> {
    match p {
        Period::All => None,
        Period::Today => Some((period_start(p, now) as i64, 0u32)),
        _ => Some((period_start(p, now) as i64, (now as int % 1_000_000_000) as u32)),
    }
}

/// Whether the calendar holds the second at which a period starts that ends at
/// `now`, in nanoseconds.
pub fn period_fits(p: Period, now: i64) -> (r: bool)
    ensures
        r == (CALENDAR_START <= period_start(p, now) <= CALENDAR_END),
{
    let wide: i128 = now as i128;
    let nanos: i128 = ((wide % 1_000_000_000) + 1_000_000_000) % 1_000_000_000;
    let secs: i128 = (wide - nanos) / 1_000_000_000;
    assert(secs == now as int / 1_000_000_000);
    let start: i128 = match p {
        Period::All => secs,
        Period::Today => {
            let rem: i128 = ((secs % 86_400) + 86_400) % 86_400;
            assert(secs - rem == period_start(p, now));
            secs - rem
        },
        Period::Days(n) => secs - n as i128 * 86_400,
        Period::Hours(n) => secs - n as i128 * 3_600,
    };
    CALENDAR_START as i128 <= start && start <= CALENDAR_END as i128
}

/// The instant at which a period starts that ends at `now`, in nanoseconds. The
/// calendar has to hold it.
pub fn cutoff(p: Period, now: i64) -> (r: Option<(i64, u32)>)
    requires
        CALENDAR_START <= period_start(p, now) <= CALENDAR_END,
    ensures
        r == cutoff_of(p, now),
{
    let wide: i128 = now as i128;
    let nanos: i128 = ((wide % 1_000_000_000) + 1_000_000_000) % 1_000_000_000;
    let secs: i128 = (wide - nanos) / 1_000_000_000;
    proof {
        assert(nanos == now as int % 1_000_000_000);
        assert(secs == now as int / 1_000_000_000);
    }
    match p {
        Period::All => None,
        Period::Today => {
            let rem: i128 = ((secs % 86_400) + 86_400) % 86_400;
            let start: i128 = secs - rem;
            proof {
                assert(rem == (now as int / 1_000_000_000) % 86_400);
                assert(start == period_start(p, now));
            }
            Some((start as i64, 0))
        },
        Period::Days(n) => Some(((secs - n as i128 * 86_400) as i64, nanos as u32)),
        Period::Hours(n) => Some(((secs - n as i128 * 3_600) as i64, nanos as u32)),
    }
}

/// The nanoseconds since the Unix epoch of an instant.
pub open spec fn instant_nanos(t: (i64, u32)) -> int {
    t.0 * 1_000_000_000 + t.1
}

/// A period of so many days starts that many times 24 hours before now, to the
/// nanosecond.
pub proof fn days_start_so_many_days_ago(n: i64, now: i64)
    requires
        CALENDAR_START <= period_start(Period::Days(n), now) <= CALENDAR_END,
    ensures
        cutoff_of(Period::Days(n), now) matches Some(t) && now - instant_nanos(t) == n * 24 * 60
            * 60 * 1_000_000_000,
{
}

/// A period of so many hours starts that many times 3600 seconds before now, to the
/// nanosecond.
pub proof fn hours_start_so_many_hours_ago(n: i64, now: i64)
    requires
        CALENDAR_START <= period_start(Period::Hours(n), now) <= CALENDAR_END,
    ensures
        cutoff_of(Period::Hours(n), now) matches Some(t) && now - instant_nanos(t) == n * 60 * 60
            * 1_000_000_000,
{
}

/// 24 hours are a day: the two periods start at the same instant.
pub proof fn a_day_has_24_hours(days: i64, hours: i64, now: i64)
    requires
        hours == 24 * days,
    ensures
        cutoff_of(Period::Hours(hours), now) == cutoff_of(Period::Days(days), now),
        period_start(Period::Hours(hours), now) == period_start(Period::Days(days), now),
{
}

/// The day of now starts at a midnight in UTC, which is not ahead and less than a day
/// ago.
pub proof fn today_starts_at_midnight(now: i64)
    ensures
        cutoff_of(Period::Today, now) matches Some(t) && t.1 == 0 && t.0 % 86_400 == 0
            && instant_nanos(t) <= now && now < instant_nanos(t) + 86_400 * 1_000_000_000,
        cutoff_of(Period::All, now) is None,
{
    let secs = now as int / 1_000_000_000;
    assert(-10_000_000_000 < secs < 10_000_000_000);
    let day = secs / 86_400;
    assert(day * 86_400 <= secs < day * 86_400 + 86_400);
    assert((day * 86_400) % 86_400 == 0) by (nonlinear_arith);
}

/// A number and the letter `d` are so many days, and with `h` so many hours.
pub proof fn period_texts_name_their_unit(digits: Seq<char>)
    requires
        parse_signed(digits) is Some,
        digits.len() > 0 ==> digits.last() != 'd' && digits.last() != 'h',
    ensures
        period_of(digits.push('d')) == Ok::<Period, Seq<char>>(
            Period::Days(parse_signed(digits)->0 as i64),
        ),
        period_of(digits.push('h')) == Ok::<Period, Seq<char>>(
            Period::Hours(parse_signed(digits)->0 as i64),
        ),
        period_of("all"@) == Ok::<Period, Seq<char>>(Period::All),
        period_of("today"@) == Ok::<Period, Seq<char>>(Period::Today),
{
    reveal_strlit("all");
    reveal_strlit("today");
    assert("all"@[2] == 'l' && "today"@[4] == 'y' && "all"@.len() == 3 && "today"@.len() == 5);
    assert(digits.push('d').drop_last() =~= digits);
    assert(digits.push('h').drop_last() =~= digits);
    assert(digits.push('d').last() == 'd' && digits.push('h').last() == 'h');
    assert(trim_end_char(digits.push('d'), 'd') == trim_end_char(digits, 'd'));
    assert(trim_end_char(digits.push('h'), 'h') == trim_end_char(digits, 'h'));
}

/// A day ago is one day before now, and a start of the day is not ahead.
pub proof fn period_lies_behind(p: Period, now: i64)
    requires
        match p {
            Period::Days(n) => n >= 0,
            Period::Hours(n) => n >= 0,
            _ => true,
        },
    ensures
        period_start(p, now) <= now as int / 1_000_000_000,
{
}

/// The usage of one agent.
#[derive(Debug, Clone, PartialEq)]
pub struct AgentStats {
    pub agent: String,
    pub tasks: usize,
    pub turns: u32,
    pub input_tokens: u64,
    pub output_tokens: u64,
    pub duration_ms: u64,
}

impl AgentStats {
    /// The sums.
    pub open spec fn totals(self) -> Totals {
        Totals {
            tasks: self.tasks as nat,
            turns: self.turns as nat,
            input_tokens: self.input_tokens as nat,
            output_tokens: self.output_tokens as nat,
            duration_ms: self.duration_ms as nat,
        }
    }
}

fn or_zero(o: Option<u64>) -> (r: u64)
    ensures
        r == crate::tasklog::count_of(o),
{
    match o {
        Some(n) => n,
        None => 0,
    }
}

proof fn prefix_totals(entries: Seq<TaskLog>, n: int)
    requires
        0 <= n <= entries.len(),
    ensures
        grand_totals(entries.take(n)).within(grand_totals(entries)),
    decreases entries.len(),
{
    if n < entries.len() {
        assert(entries.drop_last().take(n) =~= entries.take(n));
        prefix_totals(entries.drop_last(), n);
    } else {
        assert(entries.take(n) =~= entries);
    }
}

/// The usage of one agent, over its entries. None where it has none.
pub fn agent_stats(agent: &str, entries: &Vec<TaskLog>) -> (r: Option<AgentStats>)
    requires
        grand_totals(entries@).fit(),
    ensures
        match r {
            Some(s) => entries@.len() > 0 && s.agent@ == agent@ && s.totals() == grand_totals(
                entries@,
            ),
            None => entries@.len() == 0,
        },
{
    if entries.len() == 0 {
        return None;
    }
    let mut s = AgentStats {
        agent: String::from_str(agent),
        tasks: 0,
        turns: 0,
        input_tokens: 0,
        output_tokens: 0,
        duration_ms: 0,
    };
    let ghost all = entries@;
    let n: usize = entries.len();
    let mut i: usize = 0;
    assert(s.totals() == grand_totals(all.take(0)));
    while i < n
        invariant
            i <= n,
            n == entries@.len(),
            all == entries@,
            s.agent@ == agent@,
            grand_totals(all).fit(),
            s.tasks == i,
            s.totals() == grand_totals(all.take(i as int)),
        decreases n - i,
    {
        let e = &entries[i];
        proof {
            assert(all.take(i + 1).drop_last() =~= all.take(i as int));
            assert(all.take(i + 1).last() == *e);
            prefix_totals(all, i + 1);
        }
        s.tasks = s.tasks + 1;
        s.turns = s.turns + e.turns;
        s.input_tokens = s.input_tokens + or_zero(e.input_tokens);
        s.output_tokens = s.output_tokens + or_zero(e.output_tokens);
        s.duration_ms = s.duration_ms + e.duration_ms;
        i += 1;
    }
    assert(all.take(i as int) =~= all);
    Some(s)
}

/// The usage of one agent with what it cost.
#[derive(Debug, Clone, PartialEq)]
pub struct AgentUsage {
    pub stats: AgentStats,
    /// What the agent cost, as a decimal number.
    pub cost_usd: String,
    pub cost: CostCell,
}

impl Ranked for AgentUsage {
    open spec fn rank(self) -> int {
        self.cost.rank as int
    }

    fn rank_value(&self) -> (r: i128) {
        self.cost.rank as i128
    }
}

/// The usage of all agents.
#[derive(Debug, Clone, PartialEq)]
pub struct UsageStats {
    pub period: String,
    pub total_tasks: usize,
    /// What all agents cost, as a decimal number.
    pub total_cost_usd: String,
    pub total_turns: u32,
    pub total_input_tokens: u64,
    pub total_output_tokens: u64,
    pub total_duration_ms: u64,
    pub by_agent: Vec<AgentUsage>,
}

impl UsageStats {
    /// The sums.
    pub open spec fn totals(self) -> Totals {
        Totals {
            tasks: self.total_tasks as nat,
            turns: self.total_turns as nat,
            input_tokens: self.total_input_tokens as nat,
            output_tokens: self.total_output_tokens as nat,
            duration_ms: self.total_duration_ms as nat,
        }
    }
}

/// The sum of two sums.
pub open spec fn plus(a: Totals, b: Totals) -> Totals {
    Totals {
        tasks: a.tasks + b.tasks,
        turns: a.turns + b.turns,
        input_tokens: a.input_tokens + b.input_tokens,
        output_tokens: a.output_tokens + b.output_tokens,
        duration_ms: a.duration_ms + b.duration_ms,
    }
}

/// The sums over all agents.
pub open spec fn usage_totals(rows: Seq<AgentUsage>) -> Totals
    decreases rows.len(),
{
    if rows.len() == 0 {
        no_totals()
    } else {
        plus(usage_totals(rows.drop_last()), rows.last().stats.totals())
    }
}

proof fn usage_prefix(rows: Seq<AgentUsage>, n: int)
    requires
        0 <= n <= rows.len(),
    ensures
        usage_totals(rows.take(n)).within(usage_totals(rows)),
    decreases rows.len(),
{
    if n < rows.len() {
        assert(rows.drop_last().take(n) =~= rows.take(n));
        usage_prefix(rows.drop_last(), n);
    } else {
        assert(rows.take(n) =~= rows);
    }
}

/// The usage of all agents, the most expensive first.
fn sum_usage(period: &str, rows: Vec<AgentUsage>, total_cost_usd: &str) -> (r: UsageStats)
    requires
        usage_totals(ranked(rows@)).fit(),
        usage_totals(ranked(rows@)).tasks <= usize::MAX,
    ensures
        r.period@ == period@,
        r.total_cost_usd@ == total_cost_usd@,
        r.by_agent@ == ranked(rows@),
        r.totals() == usage_totals(ranked(rows@)),
{
    let by_agent = sort_by_rank(rows);
    let ghost all = by_agent@;
    let mut s = UsageStats {
        period: String::from_str(period),
        total_tasks: 0,
        total_cost_usd: String::from_str(total_cost_usd),
        total_turns: 0,
        total_input_tokens: 0,
        total_output_tokens: 0,
        total_duration_ms: 0,
        by_agent: Vec::new(),
    };
    let mut i: usize = 0;
    assert(s.totals() == usage_totals(all.take(0)));
    while i < by_agent.len()
        invariant
            i <= by_agent@.len(),
            all == by_agent@,
            s.period@ == period@,
            s.total_cost_usd@ == total_cost_usd@,
            usage_totals(all).fit(),
            usage_totals(all).tasks <= usize::MAX,
            s.totals() == usage_totals(all.take(i as int)),
        decreases by_agent@.len() - i,
    {
        let a = &by_agent[i].stats;
        proof {
            assert(all.take(i + 1).drop_last() =~= all.take(i as int));
            assert(all.take(i + 1).last() == by_agent@[i as int]);
            usage_prefix(all, i + 1);
        }
        s.total_tasks = s.total_tasks + a.tasks;
        s.total_turns = s.total_turns + a.turns;
        s.total_input_tokens = s.total_input_tokens + a.input_tokens;
        s.total_output_tokens = s.total_output_tokens + a.output_tokens;
        s.total_duration_ms = s.total_duration_ms + a.duration_ms;
        i += 1;
    }
    assert(all.take(i as int) =~= all);
    s.by_agent = by_agent;
    s
}

/// The entries of an agent in a period, with what they cost.
#[derive(Debug, Clone, PartialEq)]
pub struct AgentLog {
    pub agent: String,
    pub entries: Vec<TaskLog>,
    /// What the entries cost, as a decimal number.
    pub cost_usd: String,
    pub cost: CostCell,
}

/// The logs that hold entries, in order.
pub open spec fn busy_logs(logs: Seq<AgentLog>) -> Seq<AgentLog>
    decreases logs.len(),
{
    if logs.len() == 0 {
        logs
    } else {
        let head = busy_logs(logs.drop_last());
        if logs.last().entries@.len() > 0 {
            head.push(logs.last())
        } else {
            head
        }
    }
}

/// The sums over the entries of all logs.
pub open spec fn log_totals(logs: Seq<AgentLog>) -> Totals
    decreases logs.len(),
{
    if logs.len() == 0 {
        no_totals()
    } else {
        plus(log_totals(logs.drop_last()), grand_totals(logs.last().entries@))
    }
}

/// Whether a row sums up a log.
pub open spec fn row_of(row: AgentUsage, log: AgentLog) -> bool {
    &&& row.stats.agent@ == log.agent@
    &&& row.stats.totals() == grand_totals(log.entries@)
    &&& row.cost_usd@ == log.cost_usd@
    &&& row.cost.rank == log.cost.rank
    &&& row.cost.text@ == log.cost.text@
    &&& row.cost.share@ == log.cost.share@
}

/// Whether the rows sum up the logs that hold entries, in order.
pub open spec fn rows_of(rows: Seq<AgentUsage>, logs: Seq<AgentLog>) -> bool {
    &&& rows.len() == busy_logs(logs).len()
    &&& forall|i: int| 0 <= i < rows.len() ==> row_of(#[trigger] rows[i], busy_logs(logs)[i])
}

proof fn log_prefix(logs: Seq<AgentLog>, n: int)
    requires
        0 <= n <= logs.len(),
    ensures
        log_totals(logs.take(n)).within(log_totals(logs)),
    decreases logs.len(),
{
    if n < logs.len() {
        assert(logs.drop_last().take(n) =~= logs.take(n));
        log_prefix(logs.drop_last(), n);
    } else {
        assert(logs.take(n) =~= logs);
    }
}

proof fn rows_sum_up(rows: Seq<AgentUsage>, logs: Seq<AgentLog>)
    requires
        rows_of(rows, logs),
    ensures
        usage_totals(rows) == log_totals(logs),
    decreases logs.len(),
{
    if logs.len() > 0 {
        let head = logs.drop_last();
        if logs.last().entries@.len() > 0 {
            let front = rows.drop_last();
            assert forall|i: int| 0 <= i < front.len() implies row_of(
                #[trigger] front[i],
                busy_logs(head)[i],
            ) by {
                assert(front[i] == rows[i]);
                assert(busy_logs(logs)[i] == busy_logs(head)[i]);
            }
            rows_sum_up(front, head);
            assert(row_of(rows[rows.len() - 1], busy_logs(logs)[rows.len() - 1]));
        } else {
            rows_sum_up(rows, head);
        }
    }
}

proof fn usage_insert(s: Seq<AgentUsage>, k: int, x: AgentUsage)
    requires
        0 <= k <= s.len(),
    ensures
        usage_totals(s.insert(k, x)) == plus(usage_totals(s), x.stats.totals()),
    decreases s.len(),
{
    let t = s.insert(k, x);
    if k == s.len() {
        assert(t.drop_last() =~= s);
    } else {
        let head = s.drop_last();
        usage_insert(head, k, x);
        assert(t.drop_last() =~= head.insert(k, x));
        assert(t.last() == s.last());
    }
}

proof fn leading_bound(s: Seq<AgentUsage>, rank: int)
    ensures
        leaders(s, rank) <= s.len(),
    decreases s.len(),
{
    if s.len() > 0 && s[0].rank() > rank {
        leading_bound(s.skip(1), rank);
    }
}

/// To rank agents keeps their sums.
pub proof fn ranking_keeps_usage(rows: Seq<AgentUsage>)
    ensures
        usage_totals(ranked(rows)) == usage_totals(rows),
    decreases rows.len(),
{
    if rows.len() > 0 {
        let rest = rows.skip(1);
        ranking_keeps_usage(rest);
        let k = leaders(ranked(rest), rows[0].rank()) as int;
        leading_bound(ranked(rest), rows[0].rank());
        assert(ranked(rows) == ranked(rest).insert(k, rows[0]));
        usage_insert(ranked(rest), k, rows[0]);
        assert(rest.insert(0, rows[0]) =~= rows);
        usage_insert(rest, 0, rows[0]);
    }
}

/// Whether `r` is the usage of agents over their logs.
pub open spec fn computes(
    period: Seq<char>,
    logs: Seq<AgentLog>,
    total_cost: Seq<char>,
    r: UsageStats,
) -> bool {
    &&& r.period@ == period
    &&& r.total_cost_usd@ == total_cost
    &&& exists|rows: Seq<AgentUsage>| #[trigger]
        rows_of(rows, logs) && r.by_agent@ == ranked(rows)
    &&& r.totals() == log_totals(logs)
}

/// The usage of all agents with entries, the most expensive first.
pub fn compute_stats(period: &str, logs: &Vec<AgentLog>, total_cost_usd: &str) -> (r: UsageStats)
    requires
        log_totals(logs@).fit(),
        log_totals(logs@).tasks <= usize::MAX,
    ensures
        computes(period@, logs@, total_cost_usd@, r),
{
    let mut rows: Vec<AgentUsage> = Vec::new();
    let mut i: usize = 0;
    assert(rows_of(rows@, logs@.take(0)));
    while i < logs.len()
        invariant
            i <= logs@.len(),
            log_totals(logs@).fit(),
            rows_of(rows@, logs@.take(i as int)),
        decreases logs@.len() - i,
    {
        let log = &logs[i];
        let ghost before = rows@;
        proof {
            assert(logs@.take(i + 1).drop_last() =~= logs@.take(i as int));
            assert(logs@.take(i + 1).last() == *log);
            log_prefix(logs@, i + 1);
        }
        match agent_stats(&log.agent, &log.entries) {
            Some(stats) => {
                let cost = CostCell {
                    rank: log.cost.rank,
                    text: log.cost.text.clone(),
                    share: log.cost.share.clone(),
                };
                rows.push(AgentUsage { stats, cost_usd: log.cost_usd.clone(), cost });
            },
            None => {},
        }
        proof {
            let busy = busy_logs(logs@.take(i + 1));
            assert forall|k: int| 0 <= k < rows@.len() implies row_of(
                #[trigger] rows@[k],
                busy[k],
            ) by {
                if k < before.len() {
                    assert(rows@[k] == before[k]);
                }
            }
        }
        i += 1;
    }
    proof {
        assert(logs@.take(i as int) =~= logs@);
        rows_sum_up(rows@, logs@);
        ranking_keeps_usage(rows@);
    }
    sum_usage(period, rows, total_cost_usd)
}

/// A count of tokens in short form.
pub fn format_tokens(n: u64) -> (r: String)
    ensures
        r@ == tokens_text(n as nat),
{
    crate::decimal::show_tokens(n)
}

/// A row of the usage table.
pub open spec fn usage_row(name: Seq<char>, t: Totals, cost: Seq<char>) -> Seq<char> {
    pad_right_spec(name, 20) + " "@ + pad_left_spec(decimal(t.tasks), 5) + "  $"@ + pad_left_spec(
        cost,
        6,
    ) + "  "@ + pad_left_spec(tokens_text(t.input_tokens), 8) + "  "@ + pad_left_spec(
        tokens_text(t.output_tokens),
        8,
    ) + "  "@ + pad_left_spec(duration_text(t.duration_ms), 9) + "\n"@
}

fn show_usage_row(
    name: &str,
    tasks: usize,
    cost: &str,
    input: u64,
    output: u64,
    duration: u64,
    Ghost(t): Ghost<Totals>,
) -> (r: String)
    requires
        t.tasks == tasks,
        t.input_tokens == input,
        t.output_tokens == output,
        t.duration_ms == duration,
    ensures
        r@ == usage_row(name@, t, cost@),
{
    let mut out = cat3(&pad_right(name, 20), " ", &pad_left(&show_usize(tasks), 5));
    out.append("  $");
    let amount = pad_left(cost, 6);
    out.append(&amount);
    out.append("  ");
    let a = pad_left(&format_tokens(input), 8);
    out.append(&a);
    out.append("  ");
    let b = pad_left(&format_tokens(output), 8);
    out.append(&b);
    out.append("  ");
    let c = pad_left(&format_duration(duration), 9);
    out.append(&c);
    out.append("\n");
    out
}

/// The header of the usage table.
pub open spec fn usage_header() -> Seq<char> {
    pad_right_spec("Agent"@, 20) + " "@ + pad_left_spec("Tasks"@, 5) + "  "@ + pad_left_spec(
        "Cost"@,
        7,
    ) + "  "@ + pad_left_spec("Input"@, 8) + "  "@ + pad_left_spec("Output"@, 8) + "  "@
        + pad_left_spec("Duration"@, 9) + "\n"@
}

fn show_usage_header() -> (r: String)
    ensures
        r@ == usage_header(),
{
    let mut out = cat3(&pad_right("Agent", 20), " ", &pad_left("Tasks", 5));
    out.append("  ");
    let a = pad_left("Cost", 7);
    out.append(&a);
    out.append("  ");
    let b = pad_left("Input", 8);
    out.append(&b);
    out.append("  ");
    let c = pad_left("Output", 8);
    out.append(&c);
    out.append("  ");
    let d = pad_left("Duration", 9);
    out.append(&d);
    out.append("\n");
    out
}

/// The rows of the first `n` agents.
pub open spec fn usage_rows(rows: Seq<AgentUsage>, n: int) -> Seq<char>
    decreases n,
{
    if n <= 0 {
        Seq::empty()
    } else {
        usage_rows(rows, n - 1) + usage_row(
            rows[n - 1].stats.agent@,
            rows[n - 1].stats.totals(),
            rows[n - 1].cost.text@,
        )
    }
}

/// The usage table. `total_cost` and `average_cost` have two decimal places.
pub open spec fn usage_table(
    s: UsageStats,
    total_cost: Seq<char>,
    average_cost: Seq<char>,
) -> Seq<char> {
    "Token Usage ("@ + s.period@ + ")\n"@ + dashes(75) + usage_header() + dashes(75) + usage_rows(
        s.by_agent@,
        s.by_agent@.len() as int,
    ) + dashes(75) + usage_row("TOTAL"@, s.totals(), total_cost) + (if s.total_tasks > 0 {
        "\nAvg per task: "@ + tokens_text(s.total_input_tokens as nat / s.total_tasks as nat)
            + " input, "@ + tokens_text(s.total_output_tokens as nat / s.total_tasks as nat)
            + " output, $"@ + average_cost + "\n"@
    } else {
        Seq::empty()
    })
}

/// The usage table. `total_cost` and `average_cost` have two decimal places.
pub fn print_table(stats: &UsageStats, total_cost: &str, average_cost: &str) -> (r: String)
    ensures
        r@ == usage_table(*stats, total_cost@, average_cost@),
{
    let mut out = cat3("Token Usage (", &stats.period, ")\n");
    let line = show_dashes(75);
    out.append(&line);
    let header = show_usage_header();
    out.append(&header);
    out.append(&line);
    let ghost base = out@;
    let mut i: usize = 0;
    assert(out@ =~= base + usage_rows(stats.by_agent@, 0));
    while i < stats.by_agent.len()
        invariant
            i <= stats.by_agent@.len(),
            out@ == base + usage_rows(stats.by_agent@, i as int),
        decreases stats.by_agent@.len() - i,
    {
        let a = &stats.by_agent[i];
        let row = show_usage_row(
            &a.stats.agent,
            a.stats.tasks,
            &a.cost.text,
            a.stats.input_tokens,
            a.stats.output_tokens,
            a.stats.duration_ms,
            Ghost(a.stats.totals()),
        );
        out.append(&row);
        i += 1;
        assert(out@ =~= base + usage_rows(stats.by_agent@, i as int));
    }
    out.append(&line);
    let total = show_usage_row(
        "TOTAL",
        stats.total_tasks,
        total_cost,
        stats.total_input_tokens,
        stats.total_output_tokens,
        stats.total_duration_ms,
        Ghost(stats.totals()),
    );
    out.append(&total);
    if stats.total_tasks > 0 {
        let tasks: u64 = stats.total_tasks as u64;
        let mut tail = String::from_str("\nAvg per task: ");
        let input = format_tokens(stats.total_input_tokens / tasks);
        tail.append(&input);
        tail.append(" input, ");
        let output = format_tokens(stats.total_output_tokens / tasks);
        tail.append(&output);
        tail.append(" output, $");
        tail.append(average_cost);
        tail.append("\n");
        out.append(&tail);
    } else {
        assert(out@ + Seq::<char>::empty() =~= out@);
    }
    out
}

/// The JSON form of the usage of one agent.
pub open spec fn agent_usage_model(a: AgentUsage) -> JsonModel {
    JsonModel::Object(
        seq![
            ("agent"@, JsonModel::Text(a.stats.agent@)),
            ("tasks"@, JsonModel::Number(a.stats.tasks as int)),
            ("cost_usd"@, JsonModel::Float(a.cost_usd@)),
            ("turns"@, JsonModel::Number(a.stats.turns as int)),
            ("input_tokens"@, JsonModel::Number(a.stats.input_tokens as int)),
            ("output_tokens"@, JsonModel::Number(a.stats.output_tokens as int)),
            ("duration_ms"@, JsonModel::Number(a.stats.duration_ms as int)),
        ],
    )
}

/// The JSON form of the usage of all agents.
pub open spec fn usage_model(s: UsageStats) -> JsonModel {
    JsonModel::Object(
        seq![
            ("period"@, JsonModel::Text(s.period@)),
            ("total_tasks"@, JsonModel::Number(s.total_tasks as int)),
            ("total_cost_usd"@, JsonModel::Float(s.total_cost_usd@)),
            ("total_turns"@, JsonModel::Number(s.total_turns as int)),
            ("total_input_tokens"@, JsonModel::Number(s.total_input_tokens as int)),
            ("total_output_tokens"@, JsonModel::Number(s.total_output_tokens as int)),
            ("total_duration_ms"@, JsonModel::Number(s.total_duration_ms as int)),
            (
                "by_agent"@,
                JsonModel::List(
                    Seq::new(s.by_agent@.len(), |i: int| agent_usage_model(s.by_agent@[i])),
                ),
            ),
        ],
    )
}

fn agent_usage_json(a: &AgentUsage) -> (r: Json)
    ensures
        r@ == agent_usage_model(*a),
{
    let mut f = Fields::new();
    f.put_text("agent", &a.stats.agent);
    f.put("tasks", Json::uint(a.stats.tasks as u64));
    f.put("cost_usd", Json::Float(a.cost_usd.clone()));
    f.put("turns", Json::uint(a.stats.turns as u64));
    f.put("input_tokens", Json::uint(a.stats.input_tokens));
    f.put("output_tokens", Json::uint(a.stats.output_tokens));
    f.put("duration_ms", Json::uint(a.stats.duration_ms));
    assert(f@ =~= agent_usage_model(*a)->Object_0);
    f.object()
}

impl UsageStats {
    /// The JSON form of the usage of all agents.
    pub fn to_json(&self) -> (r: Json)
        ensures
            r@ == usage_model(*self),
    {
        let mut rows = Items::new();
        let mut i: usize = 0;
        while i < self.by_agent.len()
            invariant
                i <= self.by_agent@.len(),
                rows@.len() == i,
                forall|j: int|
                    0 <= j < i ==> #[trigger] rows@[j] == agent_usage_model(self.by_agent@[j]),
            decreases self.by_agent@.len() - i,
        {
            rows.put(agent_usage_json(&self.by_agent[i]));
            i += 1;
        }
        assert(rows@ =~= Seq::new(
            self.by_agent@.len(),
            |i: int| agent_usage_model(self.by_agent@[i]),
        ));
        let mut f = Fields::new();
        f.put_text("period", &self.period);
        f.put("total_tasks", Json::uint(self.total_tasks as u64));
        f.put("total_cost_usd", Json::Float(self.total_cost_usd.clone()));
        f.put("total_turns", Json::uint(self.total_turns as u64));
        f.put("total_input_tokens", Json::uint(self.total_input_tokens));
        f.put("total_output_tokens", Json::uint(self.total_output_tokens));
        f.put("total_duration_ms", Json::uint(self.total_duration_ms));
        f.put("by_agent", rows.list());
        assert(f@ =~= usage_model(*self)->Object_0);
        f.object()
    }
}

/// What is shown of the usage as JSON.
pub fn print_json(stats: &UsageStats) -> (r: String)
    ensures
        r@ == pretty_text(compact_text(usage_model(*stats))).push('\n'),
{
    let mut out = pretty(&stats.to_json());
    out.push('\n');
    out
}

// ─── What the usage tells ───────────────────────────────────────────────────

/// The usage is that of the period, the most expensive agent first, and its sums are those
/// over all entries of all logs; an agent has a row exactly where its log holds entries.
pub proof fn usage_covers_every_log(
    period: Seq<char>,
    logs: Seq<AgentLog>,
    total_cost: Seq<char>,
    r: UsageStats,
)
    requires
        computes(period, logs, total_cost, r),
    ensures
        r.period@ == period,
        descending(r.by_agent@),
        r.by_agent@.len() == busy_logs(logs).len(),
        r.totals() == log_totals(logs),
{
    let rows = choose|rows: Seq<AgentUsage>| #[trigger]
        rows_of(rows, logs) && r.by_agent@ == ranked(rows);
    ranked_is_descending(rows);
}

/// The sums over all logs grow by those of each log.
pub proof fn sums_over_logs_add_up(logs: Seq<AgentLog>, log: AgentLog)
    ensures
        ({
            let x = log_totals(logs);
            let y = grand_totals(log.entries@);
            let z = log_totals(logs.push(log));
            &&& z.tasks == x.tasks + y.tasks
            &&& z.turns == x.turns + y.turns
            &&& z.input_tokens == x.input_tokens + y.input_tokens
            &&& z.output_tokens == x.output_tokens + y.output_tokens
            &&& z.duration_ms == x.duration_ms + y.duration_ms
        }),
        log_totals(Seq::empty()) == no_totals(),
        log.entries@.len() > 0 ==> busy_logs(logs.push(log)) == busy_logs(logs).push(log),
        log.entries@.len() == 0 ==> busy_logs(logs.push(log)) == busy_logs(logs),
{
    assert(logs.push(log).drop_last() =~= logs);
}

/// The usage of an agent is told with its tasks, its cost, its turns, its tokens and its time.
pub proof fn usage_of_an_agent_is_told(a: AgentUsage)
    ensures
        agent_usage_model(a).text_field("agent"@) == Some(a.stats.agent@),
        agent_usage_model(a).get("tasks"@) == Some(JsonModel::Number(a.stats.tasks as int)),
        agent_usage_model(a).get("cost_usd"@) == Some(JsonModel::Float(a.cost_usd@)),
        agent_usage_model(a).get("turns"@) == Some(JsonModel::Number(a.stats.turns as int)),
        agent_usage_model(a).get("input_tokens"@) == Some(JsonModel::Number(a.stats.input_tokens as int)),
        agent_usage_model(a).get("output_tokens"@) == Some(JsonModel::Number(a.stats.output_tokens as int)),
        agent_usage_model(a).get("duration_ms"@) == Some(JsonModel::Number(a.stats.duration_ms as int)),
{
    reveal_strlit("agent");
    reveal_strlit("tasks");
    reveal_strlit("cost_usd");
    reveal_strlit("turns");
    reveal_strlit("input_tokens");
    reveal_strlit("output_tokens");
    reveal_strlit("duration_ms");
    assert("agent"@.len() == 5 && "tasks"@.len() == 5 && "cost_usd"@.len() == 8 && "turns"@.len() == 5 && "input_tokens"@.len() == 12 && "output_tokens"@.len() == 13 && "duration_ms"@.len() == 11);
    assert("agent"@[0] != "tasks"@[0]);
    assert("agent"@[0] != "turns"@[0]);
    assert("tasks"@[1] != "turns"@[1]);
    let fields = agent_usage_model(a)->Object_0;
    lookup_steps(fields, "agent"@, 0);
    lookup_steps(fields, "tasks"@, 1);
    lookup_steps(fields, "cost_usd"@, 2);
    lookup_steps(fields, "turns"@, 3);
    lookup_steps(fields, "input_tokens"@, 4);
    lookup_steps(fields, "output_tokens"@, 5);
    lookup_steps(fields, "duration_ms"@, 6);
}

/// The usage is told with its period and its sums.
pub proof fn usage_is_told(s: UsageStats)
    ensures
        usage_model(s).text_field("period"@) == Some(s.period@),
        usage_model(s).get("total_tasks"@) == Some(JsonModel::Number(s.total_tasks as int)),
        usage_model(s).get("total_cost_usd"@) == Some(JsonModel::Float(s.total_cost_usd@)),
        usage_model(s).get("total_turns"@) == Some(JsonModel::Number(s.total_turns as int)),
        usage_model(s).get("total_input_tokens"@) == Some(JsonModel::Number(s.total_input_tokens as int)),
        usage_model(s).get("total_output_tokens"@) == Some(JsonModel::Number(s.total_output_tokens as int)),
        usage_model(s).get("total_duration_ms"@) == Some(JsonModel::Number(s.total_duration_ms as int)),
{
    reveal_strlit("period");
    reveal_strlit("total_tasks");
    reveal_strlit("total_cost_usd");
    reveal_strlit("total_turns");
    reveal_strlit("total_input_tokens");
    reveal_strlit("total_output_tokens");
    reveal_strlit("total_duration_ms");
    reveal_strlit("by_agent");
    assert("period"@.len() == 6 && "total_tasks"@.len() == 11 && "total_cost_usd"@.len() == 14 && "total_turns"@.len() == 11 && "total_input_tokens"@.len() == 18 && "total_output_tokens"@.len() == 19 && "total_duration_ms"@.len() == 17 && "by_agent"@.len() == 8);
    assert("total_tasks"@[7] != "total_turns"@[7]);
    let fields = usage_model(s)->Object_0;
    lookup_steps(fields, "period"@, 0);
    lookup_steps(fields, "total_tasks"@, 1);
    lookup_steps(fields, "total_cost_usd"@, 2);
    lookup_steps(fields, "total_turns"@, 3);
    lookup_steps(fields, "total_input_tokens"@, 4);
    lookup_steps(fields, "total_output_tokens"@, 5);
    lookup_steps(fields, "total_duration_ms"@, 6);
    lookup_steps(fields, "by_agent"@, 7);
}

/// The row of an agent holds its name, its tasks, its cost, its tokens and its time.
pub proof fn usage_rows_tell_their_agent(name: Seq<char>, t: Totals, cost: Seq<char>)
    ensures
        contains_spec(usage_row(name, t, cost), name),
        contains_spec(usage_row(name, t, cost), decimal(t.tasks)),
        contains_spec(usage_row(name, t, cost), cost),
        contains_spec(usage_row(name, t, cost), tokens_text(t.input_tokens)),
        contains_spec(usage_row(name, t, cost), tokens_text(t.output_tokens)),
        contains_spec(usage_row(name, t, cost), duration_text(t.duration_ms)),
{
    padding_keeps_the_text(name, 20);
    padding_keeps_the_text(decimal(t.tasks), 5);
    padding_keeps_the_text(cost, 6);
    padding_keeps_the_text(tokens_text(t.input_tokens), 8);
    padding_keeps_the_text(tokens_text(t.output_tokens), 8);
    padding_keeps_the_text(duration_text(t.duration_ms), 9);
    let p0 = pad_right_spec(name, 20);
    let q1 = " "@;
    let p1 = p0 + q1;
    both_parts_occur(p0, q1);
    let q2 = pad_left_spec(decimal(t.tasks), 5);
    let p2 = p1 + q2;
    both_parts_occur(p1, q2);
    let q3 = "  $"@;
    let p3 = p2 + q3;
    both_parts_occur(p2, q3);
    let q4 = pad_left_spec(cost, 6);
    let p4 = p3 + q4;
    both_parts_occur(p3, q4);
    let q5 = "  "@;
    let p5 = p4 + q5;
    both_parts_occur(p4, q5);
    let q6 = pad_left_spec(tokens_text(t.input_tokens), 8);
    let p6 = p5 + q6;
    both_parts_occur(p5, q6);
    let q7 = "  "@;
    let p7 = p6 + q7;
    both_parts_occur(p6, q7);
    let q8 = pad_left_spec(tokens_text(t.output_tokens), 8);
    let p8 = p7 + q8;
    both_parts_occur(p7, q8);
    let q9 = "  "@;
    let p9 = p8 + q9;
    both_parts_occur(p8, q9);
    let q10 = pad_left_spec(duration_text(t.duration_ms), 9);
    let p10 = p9 + q10;
    both_parts_occur(p9, q10);
    let q11 = "\n"@;
    let p11 = p10 + q11;
    both_parts_occur(p10, q11);
    assert(usage_row(name, t, cost) == p11);
}

/// The table tells the average tokens of a task: all tokens divided by the tasks.
pub proof fn averages_are_per_task(s: UsageStats, total_cost: Seq<char>, average_cost: Seq<char>)
    requires
        s.total_tasks > 0,
    ensures
        contains_spec(
            usage_table(s, total_cost, average_cost),
            "\nAvg per task: "@ + tokens_text(
                s.total_input_tokens as nat / s.total_tasks as nat,
            ) + " input, "@ + tokens_text(s.total_output_tokens as nat / s.total_tasks as nat)
                + " output, $"@ + average_cost + "\n"@,
        ),
        contains_spec(usage_table(s, total_cost, average_cost), s.period@),
        contains_spec(
            usage_table(s, total_cost, average_cost),
            usage_row("TOTAL"@, s.totals(), total_cost),
        ),
{
    let p0 = "Token Usage ("@;
    let p1 = p0 + s.period@;
    both_parts_occur(p0, s.period@);
    let p2 = p1 + ")\n"@;
    both_parts_occur(p1, ")\n"@);
    let p3 = p2 + dashes(75);
    both_parts_occur(p2, dashes(75));
    let p4 = p3 + usage_header();
    both_parts_occur(p3, usage_header());
    let p5 = p4 + dashes(75);
    both_parts_occur(p4, dashes(75));
    let rows = usage_rows(s.by_agent@, s.by_agent@.len() as int);
    let p6 = p5 + rows;
    both_parts_occur(p5, rows);
    let p7 = p6 + dashes(75);
    both_parts_occur(p6, dashes(75));
    let total = usage_row("TOTAL"@, s.totals(), total_cost);
    let p8 = p7 + total;
    both_parts_occur(p7, total);
    let tail = "\nAvg per task: "@ + tokens_text(
        s.total_input_tokens as nat / s.total_tasks as nat,
    ) + " input, "@ + tokens_text(s.total_output_tokens as nat / s.total_tasks as nat)
        + " output, $"@ + average_cost + "\n"@;
    both_parts_occur(p8, tail);
    assert(usage_table(s, total_cost, average_cost) == p8 + tail);
}

/// The table has a row for each agent, with its own sums, in their order.
pub proof fn agents_are_told_in_order(v: Seq<AgentUsage>, k: int, n: int)
    requires
        0 <= k < n <= v.len(),
    ensures
        starts_with_spec(usage_rows(v, n), usage_rows(v, k) + usage_row(v[k].stats.agent@, v[k].stats.totals(), v[k].cost.text@)),
    decreases n,
{
    let head = usage_rows(v, n - 1);
    let all = usage_rows(v, n);
    let start = usage_rows(v, k) + usage_row(v[k].stats.agent@, v[k].stats.totals(), v[k].cost.text@);
    if k < n - 1 {
        agents_are_told_in_order(v, k, n - 1);
        assert(all.take(start.len() as int) =~= head.take(start.len() as int));
    } else {
        assert(all.take(start.len() as int) =~= start);
    }
}

} // verus!
