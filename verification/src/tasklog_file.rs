//! The file of the task log: one JSON line per entry.
use crate::clock::{read_rfc3339, rfc3339_time};
use crate::decimal::{decimal_int, show_i128};
use crate::json::{key_texts, listed_record, opt_text_model, record, Fields, Json, JsonModel};
use crate::json_text::{
    compact_text, faithful, line_text, parse, parsed_json, solid_line, write_json, write_line,
    written_float, TEXT_DEPTH,
};
use crate::jsonrpc::optional_value;
use crate::mcp_protocol::value_part;
use crate::message::{optional_text, read_optional_text};
use crate::tasklog::{last_n, passes, passes_filters, rotate_if_needed, TaskLog, MAX_ENTRIES};
use crate::text::{
    added_line, cat, ended_lines, ended_lines_are_read, is_ended, is_line, is_white_space,
    lines, lines_are_stripped, lines_spec, opt_str, opt_text, texts, trim, trim_end_spec,
    trim_spec, trim_start_spec,
};
use vstd::prelude::*;
use vstd::string::*;

verus! {

/// The contents of an entry.
pub struct EntryModel {
    pub ts: Seq<char>,
    pub source: Seq<char>,
    pub turns: u32,
    pub cost: Seq<char>,
    pub duration_ms: u64,
    pub status: Seq<char>,
    pub task: Seq<char>,
    pub error: Option<Seq<char>>,
    pub msg_id: Seq<char>,
    pub github_repo: Option<Seq<char>>,
    pub github_pr: Option<u64>,
    pub input_tokens: Option<u64>,
    pub output_tokens: Option<u64>,
    pub cache_creation_input_tokens: Option<u64>,
    pub cache_read_input_tokens: Option<u64>,
}

impl View for TaskLog {
    type V = EntryModel;

    open spec fn view(&self) -> EntryModel {
        EntryModel {
            ts: self.ts@,
            source: self.source@,
            turns: self.turns,
            cost: self.cost@,
            duration_ms: self.duration_ms,
            status: self.status@,
            task: self.task@,
            error: opt_text(self.error),
            msg_id: self.msg_id@,
            github_repo: opt_text(self.github_repo),
            github_pr: self.github_pr,
            input_tokens: self.input_tokens,
            output_tokens: self.output_tokens,
            cache_creation_input_tokens: self.cache_creation_input_tokens,
            cache_read_input_tokens: self.cache_read_input_tokens,
        }
    }
}

/// The JSON form of an optional text that may be left out.
pub open spec fn text_value(o: Option<Seq<char>>) -> Option<JsonModel> {
    match o {
        Some(t) => Some(JsonModel::Text(t)),
        None => None,
    }
}

/// The JSON form of an optional number that may be left out.
pub open spec fn count_value(o: Option<u64>) -> Option<JsonModel> {
    match o {
        Some(n) => Some(JsonModel::Number(n as int)),
        None => None,
    }
}

/// The fields of an entry that are always there.
pub open spec fn entry_head(e: EntryModel) -> Seq<(Seq<char>, JsonModel)> {
    seq![
        ("ts"@, JsonModel::Text(e.ts)),
        ("source"@, JsonModel::Text(e.source)),
        ("turns"@, JsonModel::Number(e.turns as int)),
        ("cost"@, JsonModel::Float(e.cost)),
        ("duration_ms"@, JsonModel::Number(e.duration_ms as int)),
        ("status"@, JsonModel::Text(e.status)),
        ("task"@, JsonModel::Text(e.task)),
        ("error"@, opt_text_model(e.error)),
        ("msg_id"@, JsonModel::Text(e.msg_id)),
    ]
}

/// The fields of an entry that are left out where they hold nothing.
pub open spec fn entry_tail(e: EntryModel) -> Seq<(Seq<char>, JsonModel)> {
    value_part("github_repo"@, text_value(e.github_repo)) + value_part(
        "github_pr"@,
        count_value(e.github_pr),
    ) + value_part("input_tokens"@, count_value(e.input_tokens)) + value_part(
        "output_tokens"@,
        count_value(e.output_tokens),
    ) + value_part("cache_creation_input_tokens"@, count_value(e.cache_creation_input_tokens))
        + value_part("cache_read_input_tokens"@, count_value(e.cache_read_input_tokens))
}

/// The JSON form of an entry.
pub open spec fn entry_json(e: EntryModel) -> JsonModel {
    JsonModel::Object(entry_head(e) + entry_tail(e))
}

/// An amount of money in an entry: a number, an integer being taken as the
/// floating-point number next to it, as `1.0`.
pub open spec fn amount_in(v: JsonModel) -> Option<Seq<char>> {
    match v {
        JsonModel::Float(t) => Some(t),
        JsonModel::Number(n) => Some(compact_text(JsonModel::Float(decimal_int(n) + "e0"@))),
        _ => None,
    }
}

/// An optional number: absent or null for none.
pub open spec fn optional_count(j: JsonModel, key: Seq<char>) -> Option<Option<u64>> {
    match optional_value(j, key) {
        None => Some(None),
        Some(v) => match v.as_u64() {
            Some(n) => Some(Some(n as u64)),
            None => None,
        },
    }
}

/// The keys of an entry, in order. The last two may be left out of a list.
pub open spec fn entry_keys() -> Seq<Seq<char>> {
    seq![
        "ts"@,
        "source"@,
        "turns"@,
        "cost"@,
        "duration_ms"@,
        "status"@,
        "task"@,
        "error"@,
        "msg_id"@,
        "github_repo"@,
        "github_pr"@,
        "input_tokens"@,
        "output_tokens"@,
        "cache_creation_input_tokens"@,
        "cache_read_input_tokens"@,
    ]
}

/// The entry that a JSON value describes.
pub open spec fn entry_of(j: JsonModel) -> Option<EntryModel> {
    let j = record(j, entry_keys(), 13);
    let turns = j.u64_field("turns"@);
    let pr = optional_count(j, "github_pr"@);
    let input = optional_count(j, "input_tokens"@);
    let output = optional_count(j, "output_tokens"@);
    let created = optional_count(j, "cache_creation_input_tokens"@);
    let read = optional_count(j, "cache_read_input_tokens"@);
    if j.text_field("ts"@) is Some && j.text_field("source"@) is Some && turns is Some && turns->0
        <= u32::MAX && amount_in(j.at("cost"@)) is Some && j.u64_field("duration_ms"@) is Some
        && j.text_field("status"@) is Some && j.text_field("task"@) is Some && optional_text(
        j,
        "error"@,
    ) is Some && j.text_field("msg_id"@) is Some && optional_text(j, "github_repo"@) is Some
        && pr is Some && input is Some && output is Some && created is Some && read is Some {
        Some(
            EntryModel {
                ts: j.text_field("ts"@)->0,
                source: j.text_field("source"@)->0,
                turns: turns->0 as u32,
                cost: amount_in(j.at("cost"@))->0,
                duration_ms: j.u64_field("duration_ms"@)->0 as u64,
                status: j.text_field("status"@)->0,
                task: j.text_field("task"@)->0,
                error: optional_text(j, "error"@)->0,
                msg_id: j.text_field("msg_id"@)->0,
                github_repo: optional_text(j, "github_repo"@)->0,
                github_pr: pr->0,
                input_tokens: input->0,
                output_tokens: output->0,
                cache_creation_input_tokens: created->0,
                cache_read_input_tokens: read->0,
            },
        )
    } else {
        None
    }
}

/// The entry that a line denotes.
pub open spec fn entry_at(line: Seq<char>) -> Option<EntryModel> {
    match parsed_json(line) {
        Some(j) => entry_of(j),
        None => None,
    }
}

fn put_count(f: &mut Fields, key: &str, o: Option<u64>)
    ensures
        final(f)@ == old(f)@ + value_part(key@, count_value(o)),
{
    let ghost before = f@;
    match o {
        Some(n) => {
            f.put(key, Json::uint(n));
            assert(f@ =~= before + value_part(key@, count_value(o)));
        },
        None => {
            assert(f@ =~= before + value_part(key@, count_value(o)));
        },
    }
}

fn read_amount(v: Option<&Json>) -> (r: Option<String>)
    ensures
        opt_text(r) == amount_in(crate::json::or_null(v)),
{
    match v {
        Some(Json::Float(t)) => Some(t.clone()),
        Some(Json::Number(n)) => Some(write_json(&Json::Float(cat(&show_i128(*n), "e0")))),
        _ => None,
    }
}

/// An optional number: absent or null for none.
pub(crate) fn read_count(j: &Json, key: &str) -> (r: Option<Option<u64>>)
    ensures
        r == optional_count(j@, key@),
{
    match j.get(key) {
        None => Some(None),
        Some(v) => match v {
            Json::Null => Some(None),
            _ => match v.as_u64() {
                Some(n) => Some(Some(n)),
                None => None,
            },
        },
    }
}

impl TaskLog {
    /// The JSON form of the entry.
    pub fn to_json(&self) -> (r: Json)
        ensures
            r@ == entry_json(self@),
    {
        let mut f = Fields::new();
        f.put_text("ts", &self.ts);
        f.put_text("source", &self.source);
        f.put("turns", Json::uint(self.turns as u64));
        f.put("cost", Json::Float(self.cost.clone()));
        f.put("duration_ms", Json::uint(self.duration_ms));
        f.put_text("status", &self.status);
        f.put_text("task", &self.task);
        f.put("error", Json::opt_text(&self.error));
        f.put_text("msg_id", &self.msg_id);
        assert(f@ =~= entry_head(self@));
        match &self.github_repo {
            Some(t) => {
                f.put_text("github_repo", t);
            },
            None => {},
        }
        put_count(&mut f, "github_pr", self.github_pr);
        put_count(&mut f, "input_tokens", self.input_tokens);
        put_count(&mut f, "output_tokens", self.output_tokens);
        put_count(&mut f, "cache_creation_input_tokens", self.cache_creation_input_tokens);
        put_count(&mut f, "cache_read_input_tokens", self.cache_read_input_tokens);
        assert(f@ =~= entry_json(self@)->Object_0);
        f.object()
    }

    /// The line of the entry in the file.
    pub fn to_line(&self) -> (r: String)
        ensures
            r@ == line_text(entry_json(self@)),
            solid_line(r@.drop_last()),
            written_float(self.cost@) ==> entry_at(r@.drop_last()) == Some(self@),
    {
        proof {
            entry_round_trip(self@);
            if written_float(self.cost@) {
                entries_are_faithful(self@);
            }
        }
        write_line(&self.to_json())
    }

    /// The entry that a JSON value describes.
    pub fn from_json(j: &Json) -> (r: Option<TaskLog>)
        ensures
            match r {
                Some(e) => entry_of(j@) == Some(e@),
                None => entry_of(j@) is None,
            },
    {
        let keys: Vec<&'static str> = vec![
            "ts",
            "source",
            "turns",
            "cost",
            "duration_ms",
            "status",
            "task",
            "error",
            "msg_id",
            "github_repo",
            "github_pr",
            "input_tokens",
            "output_tokens",
            "cache_creation_input_tokens",
            "cache_read_input_tokens",
        ];
        assert(key_texts(keys@) =~= entry_keys());
        let named = listed_record(j, &keys, 13);
        let j = match &named {
            Some(o) => o,
            None => j,
        };
        let (ts, source, status, task, msg_id) = match (
            j.text_field("ts"),
            j.text_field("source"),
            j.text_field("status"),
            j.text_field("task"),
            j.text_field("msg_id"),
        ) {
            (Some(a), Some(b), Some(c), Some(d), Some(e)) => (a, b, c, d, e),
            _ => {
                return None;
            },
        };
        let turns: u32 = match j.u64_field("turns") {
            Some(n) => {
                if n > u32::MAX as u64 {
                    return None;
                }
                n as u32
            },
            None => {
                return None;
            },
        };
        let cost = match read_amount(j.get("cost")) {
            Some(t) => t,
            None => {
                return None;
            },
        };
        let duration_ms: u64 = match j.u64_field("duration_ms") {
            Some(n) => n,
            None => {
                return None;
            },
        };
        let (error, github_repo) = match (
            read_optional_text(j, "error"),
            read_optional_text(j, "github_repo"),
        ) {
            (Some(a), Some(b)) => (a, b),
            _ => {
                return None;
            },
        };
        match (
            read_count(j, "github_pr"),
            read_count(j, "input_tokens"),
            read_count(j, "output_tokens"),
            read_count(j, "cache_creation_input_tokens"),
            read_count(j, "cache_read_input_tokens"),
        ) {
            (Some(github_pr), Some(input), Some(output), Some(created), Some(read)) => Some(
                TaskLog {
                    ts: String::from_str(ts),
                    source: String::from_str(source),
                    turns,
                    cost,
                    duration_ms,
                    status: String::from_str(status),
                    task: String::from_str(task),
                    error,
                    msg_id: String::from_str(msg_id),
                    github_repo,
                    github_pr,
                    input_tokens: input,
                    output_tokens: output,
                    cache_creation_input_tokens: created,
                    cache_read_input_tokens: read,
                },
            ),
            _ => None,
        }
    }

    /// The entry that a line denotes.
    pub fn parse(line: &str) -> (r: Option<TaskLog>)
        ensures
            match r {
                Some(e) => entry_at(line@) == Some(e@),
                None => entry_at(line@) is None,
            },
    {
        match parse(line) {
            Some(j) => TaskLog::from_json(&j),
            None => None,
        }
    }
}

// ─── Reading a file ─────────────────────────────────────────────────────────

/// The contents of entries.
pub open spec fn entry_models(v: Seq<TaskLog>) -> Seq<EntryModel> {
    Seq::new(v.len(), |i: int| v[i]@)
}

/// The entries of a file that pass the filters, in order. Blank lines and lines
/// that denote no entry are passed over.
pub open spec fn entries_in(
    all: Seq<Seq<char>>,
    source_filter: Option<Seq<char>>,
    since: Option<(i64, u32)>,
) -> Seq<EntryModel>
    decreases all.len(),
{
    if all.len() == 0 {
        Seq::empty()
    } else {
        let head = entries_in(all.drop_last(), source_filter, since);
        if trim_spec(all.last()).len() == 0 {
            head
        } else {
            match entry_at(all.last()) {
                Some(e) => if passes(e.source, rfc3339_time(e.ts), source_filter, since) {
                    head.push(e)
                } else {
                    head
                },
                None => head,
            }
        }
    }
}

/// The last `limit` entries of a file that pass the filters.
pub fn read_logs_from_text(
    content: &str,
    limit: usize,
    source_filter: Option<&str>,
    since: Option<(i64, u32)>,
) -> (r: Vec<TaskLog>)
    ensures
        entry_models(r@) == last_n(
            entries_in(lines_spec(content@), opt_str(source_filter), since),
            limit as nat,
        ),
{
    let all = lines(content);
    let ghost t = texts(all@);
    let ghost filter = opt_str(source_filter);
    let mut kept: Vec<TaskLog> = Vec::new();
    let mut i: usize = 0;
    assert(entry_models(kept@) =~= entries_in(t.take(0), filter, since));
    while i < all.len()
        invariant
            i <= all@.len(),
            t == texts(all@),
            filter == opt_str(source_filter),
            entry_models(kept@) == entries_in(t.take(i as int), filter, since),
        decreases all@.len() - i,
    {
        let ghost before = entry_models(kept@);
        assert(t.take(i + 1).drop_last() =~= t.take(i as int));
        assert(t.take(i + 1).last() == all@[i as int]@);
        if !trim(&all[i]).is_empty() {
            match TaskLog::parse(&all[i]) {
                Some(e) => {
                    let at = read_rfc3339(&e.ts);
                    if passes_filters(&e.source, at, source_filter, since) {
                        kept.push(e);
                        assert(entry_models(kept@) =~= before.push(e@));
                    }
                },
                None => {},
            }
        }
        i += 1;
    }
    assert(t.take(i as int) =~= t);
    let ghost whole = entry_models(kept@);
    let n: usize = kept.len();
    if n > limit {
        let tail = kept.split_off(n - limit);
        assert(entry_models(tail@) =~= last_n(whole, limit as nat));
        return tail;
    }
    kept
}

/// What is left of a file that has grown too long: its last lines. None where it
/// has not.
pub fn rotate_text(content: &str) -> (r: Option<String>)
    ensures
        match r {
            Some(s) => lines_spec(content@).len() > MAX_ENTRIES && s@ == ended_lines(
                last_n(lines_spec(content@), MAX_ENTRIES as nat),
                MAX_ENTRIES as int,
            ),
            None => lines_spec(content@).len() <= MAX_ENTRIES,
        },
{
    let all = lines(content);
    assert(texts(all@).len() == all@.len());
    match rotate_if_needed(&all) {
        Some(kept) => {
            let ghost t = texts(kept@);
            let mut out = String::new();
            let mut i: usize = 0;
            while i < kept.len()
                invariant
                    i <= kept@.len(),
                    t == texts(kept@),
                    out@ == ended_lines(t, i as int),
                decreases kept@.len() - i,
            {
                assert(t[i as int] == kept@[i as int]@);
                out.append(&kept[i]);
                out.append("\n");
                i += 1;
            }
            assert(kept@.len() == t.len() && t.len() == MAX_ENTRIES);
            Some(out)
        },
        None => None,
    }
}

// ─── Laws ───────────────────────────────────────────────────────────────────

proof fn lookup_joined(
    a: Seq<(Seq<char>, JsonModel)>,
    b: Seq<(Seq<char>, JsonModel)>,
    key: Seq<char>,
)
    ensures
        JsonModel::Object(a + b).get(key) == (match JsonModel::Object(a).get(key) {
            Some(v) => Some(v),
            None => JsonModel::Object(b).get(key),
        }),
    decreases a.len(),
{
    let all = a + b;
    if a.len() == 0 {
        assert(all =~= b);
    } else {
        assert(all[0] == a[0]);
        if a[0].0 != key {
            lookup_joined(a.skip(1), b, key);
            assert(all.skip(1) =~= a.skip(1) + b);
        }
    }
}

proof fn part_lookup(name: Seq<char>, o: Option<JsonModel>, key: Seq<char>)
    ensures
        JsonModel::Object(value_part(name, o)).get(key) == (if name == key {
            o
        } else {
            None
        }),
{
    let part = value_part(name, o);
    if o is Some {
        assert(part.len() == 1 && part[0].0 == name);
        assert(crate::json::lookup(part.skip(1), key) is None);
    }
}

proof fn entry_keys_differ()
    ensures
        "source"@ != "status"@ && "source"@ != "msg_id"@ && "status"@ != "msg_id"@,
        "turns"@ != "error"@ && "cost"@ != "task"@ && "duration_ms"@ != "github_repo"@,
        "ts"@.len() == 2 && "source"@.len() == 6 && "turns"@.len() == 5 && "cost"@.len() == 4,
        "duration_ms"@.len() == 11 && "status"@.len() == 6 && "task"@.len() == 4,
        "error"@.len() == 5 && "msg_id"@.len() == 6 && "github_repo"@.len() == 11,
        "github_pr"@.len() == 9 && "input_tokens"@.len() == 12 && "output_tokens"@.len() == 13,
        "cache_creation_input_tokens"@.len() == 27 && "cache_read_input_tokens"@.len() == 23,
{
    reveal_strlit("ts");
    reveal_strlit("source");
    reveal_strlit("turns");
    reveal_strlit("cost");
    reveal_strlit("duration_ms");
    reveal_strlit("status");
    reveal_strlit("task");
    reveal_strlit("error");
    reveal_strlit("msg_id");
    reveal_strlit("github_repo");
    reveal_strlit("github_pr");
    reveal_strlit("input_tokens");
    reveal_strlit("output_tokens");
    reveal_strlit("cache_creation_input_tokens");
    reveal_strlit("cache_read_input_tokens");
    assert("source"@[1] != "status"@[1]);
    assert("source"@[0] != "msg_id"@[0] && "status"@[0] != "msg_id"@[0]);
    assert("turns"@[0] != "error"@[0] && "cost"@[0] != "task"@[0]);
    assert("duration_ms"@[0] != "github_repo"@[0]);
}

proof fn tail_lookup(e: EntryModel, key: Seq<char>)
    ensures
        JsonModel::Object(entry_json(e)->Object_0).get(key) == (match JsonModel::Object(
            entry_head(e),
        ).get(key) {
            Some(v) => Some(v),
            None => if key == "github_repo"@ {
                text_value(e.github_repo)
            } else if key == "github_pr"@ {
                count_value(e.github_pr)
            } else if key == "input_tokens"@ {
                count_value(e.input_tokens)
            } else if key == "output_tokens"@ {
                count_value(e.output_tokens)
            } else if key == "cache_creation_input_tokens"@ {
                count_value(e.cache_creation_input_tokens)
            } else if key == "cache_read_input_tokens"@ {
                count_value(e.cache_read_input_tokens)
            } else {
                None
            },
        }),
{
    entry_keys_differ();
    let p1 = value_part("github_repo"@, text_value(e.github_repo));
    let p2 = value_part("github_pr"@, count_value(e.github_pr));
    let p3 = value_part("input_tokens"@, count_value(e.input_tokens));
    let p4 = value_part("output_tokens"@, count_value(e.output_tokens));
    let p5 = value_part("cache_creation_input_tokens"@, count_value(e.cache_creation_input_tokens));
    let p6 = value_part("cache_read_input_tokens"@, count_value(e.cache_read_input_tokens));
    lookup_joined(entry_head(e), entry_tail(e), key);
    lookup_joined(p1 + p2 + p3 + p4 + p5, p6, key);
    lookup_joined(p1 + p2 + p3 + p4, p5, key);
    lookup_joined(p1 + p2 + p3, p4, key);
    lookup_joined(p1 + p2, p3, key);
    lookup_joined(p1, p2, key);
    part_lookup("github_repo"@, text_value(e.github_repo), key);
    part_lookup("github_pr"@, count_value(e.github_pr), key);
    part_lookup("input_tokens"@, count_value(e.input_tokens), key);
    part_lookup("output_tokens"@, count_value(e.output_tokens), key);
    part_lookup(
        "cache_creation_input_tokens"@,
        count_value(e.cache_creation_input_tokens),
        key,
    );
    part_lookup("cache_read_input_tokens"@, count_value(e.cache_read_input_tokens), key);
}

/// An entry comes back out of its JSON form.
pub proof fn entry_round_trip(e: EntryModel)
    ensures
        entry_of(entry_json(e)) == Some(e),
{
    entry_keys_differ();
    let head = entry_head(e);
    crate::message::lookup_steps(head, "ts"@, 0);
    crate::message::lookup_steps(head, "source"@, 1);
    crate::message::lookup_steps(head, "turns"@, 2);
    crate::message::lookup_steps(head, "cost"@, 3);
    crate::message::lookup_steps(head, "duration_ms"@, 4);
    crate::message::lookup_steps(head, "status"@, 5);
    crate::message::lookup_steps(head, "task"@, 6);
    crate::message::lookup_steps(head, "error"@, 7);
    crate::message::lookup_steps(head, "msg_id"@, 8);
    crate::message::lookup_absent(head, "github_repo"@);
    crate::message::lookup_absent(head, "github_pr"@);
    crate::message::lookup_absent(head, "input_tokens"@);
    crate::message::lookup_absent(head, "output_tokens"@);
    crate::message::lookup_absent(head, "cache_creation_input_tokens"@);
    crate::message::lookup_absent(head, "cache_read_input_tokens"@);
    tail_lookup(e, "ts"@);
    tail_lookup(e, "source"@);
    tail_lookup(e, "turns"@);
    tail_lookup(e, "cost"@);
    tail_lookup(e, "duration_ms"@);
    tail_lookup(e, "status"@);
    tail_lookup(e, "task"@);
    tail_lookup(e, "error"@);
    tail_lookup(e, "msg_id"@);
    tail_lookup(e, "github_repo"@);
    tail_lookup(e, "github_pr"@);
    tail_lookup(e, "input_tokens"@);
    tail_lookup(e, "output_tokens"@);
    tail_lookup(e, "cache_creation_input_tokens"@);
    tail_lookup(e, "cache_read_input_tokens"@);
}

/// The lines of the first `n` entries.
pub open spec fn json_lines(entries: Seq<TaskLog>, n: int) -> Seq<char>
    decreases n,
{
    if n <= 0 {
        Seq::empty()
    } else {
        json_lines(entries, n - 1) + line_text(entry_json(entries[n - 1]@))
    }
}

/// The lines of entries, as the log file holds them.
pub fn print_json(entries: &Vec<TaskLog>) -> (r: String)
    ensures
        r@ == json_lines(entries@, entries@.len() as int),
{
    let mut out = String::new();
    let mut i: usize = 0;
    while i < entries.len()
        invariant
            i <= entries@.len(),
            out@ == json_lines(entries@, i as int),
        decreases entries@.len() - i,
    {
        let line = entries[i].to_line();
        out.append(&line);
        i += 1;
    }
    out
}

// ─── Laws ───────────────────────────────────────────────────────────────────

#[verifier::opaque]
spec fn lacks(f: Seq<(Seq<char>, JsonModel)>, key: Seq<char>) -> bool {
    forall|i: int| 0 <= i < f.len() ==> (#[trigger] f[i]).0 != key
}

#[verifier::opaque]
spec fn all_differ(f: Seq<(Seq<char>, JsonModel)>) -> bool {
    forall|i: int, j: int|
        0 <= i < j < f.len() ==> (#[trigger] f[i]).0 != (#[trigger] f[j]).0
}

#[verifier::opaque]
spec fn all_faithful(f: Seq<(Seq<char>, JsonModel)>) -> bool {
    forall|i: int| 0 <= i < f.len() ==> faithful((#[trigger] f[i]).1, 126)
}

proof fn part_is_faithful(f: Seq<(Seq<char>, JsonModel)>, key: Seq<char>, o: Option<JsonModel>)
    requires
        all_differ(f),
        all_faithful(f),
        lacks(f, key),
        o matches Some(v) ==> faithful(v, 126),
    ensures
        all_differ(f + value_part(key, o)),
        all_faithful(f + value_part(key, o)),
        forall|k: Seq<char>| k != key && lacks(f, k) ==> #[trigger] lacks(
            f + value_part(key, o),
            k,
        ),
{
    reveal(lacks);
    reveal(all_differ);
    reveal(all_faithful);
    let part = value_part(key, o);
    let all = f + part;
    assert(forall|i: int| 0 <= i < f.len() ==> all[i] == #[trigger] f[i]);
    if o is Some {
        assert(part.len() == 1 && part[0] == (key, o->0));
        assert(all[f.len() as int] == part[0]);
    }
    assert forall|k: Seq<char>| k != key && lacks(f, k) implies #[trigger] lacks(all, k) by {
        assert forall|i: int| 0 <= i < all.len() implies (#[trigger] all[i]).0 != k by {
            if i < f.len() {
                assert(all[i] == f[i]);
            }
        }
    }
    assert forall|i: int| 0 <= i < all.len() implies faithful((#[trigger] all[i]).1, 126) by {
        if i < f.len() {
            assert(all[i] == f[i]);
        }
    }
    assert forall|i: int, j: int| 0 <= i < j < all.len() implies (#[trigger] all[i]).0 != (
    #[trigger] all[j]).0 by {
        assert(all[i] == f[i]);
        if j < f.len() {
            assert(all[j] == f[j]);
        }
    }
}

proof fn head_is_faithful(e: EntryModel)
    requires
        written_float(e.cost),
    ensures
        all_differ(entry_head(e)),
        all_faithful(entry_head(e)),
        lacks(entry_head(e), "github_repo"@),
        lacks(entry_head(e), "github_pr"@),
        lacks(entry_head(e), "input_tokens"@),
        lacks(entry_head(e), "output_tokens"@),
        lacks(entry_head(e), "cache_creation_input_tokens"@),
        lacks(entry_head(e), "cache_read_input_tokens"@),
{
    reveal(lacks);
    reveal(all_differ);
    reveal(all_faithful);
    entry_keys_differ();
}

proof fn object_is_faithful(f: Seq<(Seq<char>, JsonModel)>)
    requires
        all_differ(f),
        all_faithful(f),
    ensures
        faithful(JsonModel::Object(f), TEXT_DEPTH as nat),
{
    reveal(all_differ);
    reveal(all_faithful);
}

proof fn entries_are_faithful(e: EntryModel)
    requires
        written_float(e.cost),
    ensures
        faithful(entry_json(e), TEXT_DEPTH as nat),
{
    entry_keys_differ();
    let f0 = entry_head(e);
    let f1 = f0 + value_part("github_repo"@, text_value(e.github_repo));
    let f2 = f1 + value_part("github_pr"@, count_value(e.github_pr));
    let f3 = f2 + value_part("input_tokens"@, count_value(e.input_tokens));
    let f4 = f3 + value_part("output_tokens"@, count_value(e.output_tokens));
    let f5 = f4 + value_part(
        "cache_creation_input_tokens"@,
        count_value(e.cache_creation_input_tokens),
    );
    let f6 = f5 + value_part("cache_read_input_tokens"@, count_value(e.cache_read_input_tokens));
    assert(f0 + entry_tail(e) =~= f6);
    head_is_faithful(e);
    part_is_faithful(f0, "github_repo"@, text_value(e.github_repo));
    part_is_faithful(f1, "github_pr"@, count_value(e.github_pr));
    part_is_faithful(f2, "input_tokens"@, count_value(e.input_tokens));
    part_is_faithful(f3, "output_tokens"@, count_value(e.output_tokens));
    part_is_faithful(
        f4,
        "cache_creation_input_tokens"@,
        count_value(e.cache_creation_input_tokens),
    );
    part_is_faithful(f5, "cache_read_input_tokens"@, count_value(e.cache_read_input_tokens));
    object_is_faithful(f6);
}

proof fn solid_lines_are_not_blank(line: Seq<char>)
    requires
        solid_line(line),
    ensures
        trim_spec(line).len() > 0,
{
    assert(trim_start_spec(line) == line);
    front_is_kept(line);
}

proof fn front_is_kept(s: Seq<char>)
    requires
        s.len() > 0,
        !is_white_space(s[0]),
    ensures
        trim_end_spec(s).len() > 0,
    decreases s.len(),
{
    if is_white_space(s.last()) {
        front_is_kept(s.drop_last());
    }
}

/// An entry that is added to a log is read from it, after all earlier ones, where
/// it passes the filters; the earlier ones are read as before.
pub proof fn logged_entry_is_read(
    content: Seq<char>,
    line: Seq<char>,
    e: EntryModel,
    source_filter: Option<Seq<char>>,
    since: Option<(i64, u32)>,
)
    requires
        is_ended(content),
        solid_line(line),
        entry_at(line) == Some(e),
    ensures
        entries_in(lines_spec(content + line.push('\n')), source_filter, since) == (if passes(
            e.source,
            rfc3339_time(e.ts),
            source_filter,
            since,
        ) {
            entries_in(lines_spec(content), source_filter, since).push(e)
        } else {
            entries_in(lines_spec(content), source_filter, since)
        }),
{
    if line.last() == '\r' {
        assert(line.contains(line.last()));
    }
    added_line(content, line);
    solid_lines_are_not_blank(line);
    let all = lines_spec(content).push(line);
    assert(all.drop_last() =~= lines_spec(content));
    assert(all.last() == line);
}

/// A log that was cut down holds its last lines, in order.
pub proof fn rotation_keeps_the_last_lines(content: Seq<char>)
    requires
        lines_spec(content).len() > MAX_ENTRIES,
        forall|i: int|
            0 <= i < lines_spec(content).len() ==> is_line(#[trigger] lines_spec(content)[i]),
    ensures
        lines_spec(
            ended_lines(last_n(lines_spec(content), MAX_ENTRIES as nat), MAX_ENTRIES as int),
        ) == last_n(lines_spec(content), MAX_ENTRIES as nat),
{
    let all = lines_spec(content);
    let kept = last_n(all, MAX_ENTRIES as nat);
    assert(kept.len() == MAX_ENTRIES);
    assert forall|i: int| 0 <= i < kept.len() implies is_line(#[trigger] kept[i]) by {
        assert(kept[i] == all[all.len() - MAX_ENTRIES + i]);
    }
    ended_lines_are_read(kept, MAX_ENTRIES as int);
    lines_are_stripped(kept);
    assert(kept.take(MAX_ENTRIES as int) =~= kept);
}

/// An entry is read exactly where a line that is not blank denotes it, its source is the one asked for, and it is not before the time asked for.
pub proof fn read_entries_pass_the_filters(all: Seq<Seq<char>>, source_filter: Option<Seq<char>>, since: Option<(i64, u32)>, v: EntryModel)
    ensures
        entries_in(all, source_filter, since).contains(v) <==> exists|i: int|
            0 <= i < all.len() && entry_at(#[trigger] all[i]) == Some(v) && trim_spec(all[i]).len() > 0 && (source_filter is Some ==> v.source == source_filter->0) && ((since is Some && rfc3339_time(v.ts) is Some) ==> !crate::tasklog::earlier(rfc3339_time(v.ts)->0, since->0)),
    decreases all.len(),
{
    if all.len() > 0 {
        let front = all.drop_last();
        let head = entries_in(front, source_filter, since);
        let out = entries_in(all, source_filter, since);
        read_entries_pass_the_filters(front, source_filter, since, v);
        if out.contains(v) {
            let k = choose|k: int| 0 <= k < out.len() && out[k] == v;
            if k < head.len() {
                assert(head[k] == v);
                let i = choose|i: int| 0 <= i < front.len() && entry_at(#[trigger] front[i]) == Some(v) && trim_spec(front[i]).len() > 0 && (source_filter is Some ==> v.source == source_filter->0) && ((since is Some && rfc3339_time(v.ts) is Some) ==> !crate::tasklog::earlier(rfc3339_time(v.ts)->0, since->0));
                assert(all[i] == front[i]);
            } else {
                assert(all[all.len() - 1] == all.last());
            }
        }
        if exists|i: int| 0 <= i < all.len() && entry_at(#[trigger] all[i]) == Some(v) && trim_spec(all[i]).len() > 0 && (source_filter is Some ==> v.source == source_filter->0) && ((since is Some && rfc3339_time(v.ts) is Some) ==> !crate::tasklog::earlier(rfc3339_time(v.ts)->0, since->0)) {
            let i = choose|i: int| 0 <= i < all.len() && entry_at(#[trigger] all[i]) == Some(v) && trim_spec(all[i]).len() > 0 && (source_filter is Some ==> v.source == source_filter->0) && ((since is Some && rfc3339_time(v.ts) is Some) ==> !crate::tasklog::earlier(rfc3339_time(v.ts)->0, since->0));
            if i < front.len() {
                assert(front[i] == all[i]);
                let k = choose|k: int| 0 <= k < head.len() && head[k] == v;
                assert(out[k] == v);
            } else {
                assert(out[out.len() - 1] == v);
            }
        }
    }
}

/// The entries come in the order of their lines.
pub proof fn read_entries_keep_their_order(
    a: Seq<Seq<char>>,
    b: Seq<Seq<char>>,
    source_filter: Option<Seq<char>>,
    since: Option<(i64, u32)>,
)
    ensures
        entries_in(a + b, source_filter, since) == entries_in(a, source_filter, since) + entries_in(
            b,
            source_filter,
            since,
        ),
    decreases b.len(),
{
    let x = entries_in(a, source_filter, since);
    if b.len() == 0 {
        assert(a + b =~= a);
        assert(x + entries_in(b, source_filter, since) =~= x);
    } else {
        assert((a + b).drop_last() =~= a + b.drop_last());
        read_entries_keep_their_order(a, b.drop_last(), source_filter, since);
        assert(entries_in(a + b, source_filter, since) =~= x + entries_in(b, source_filter, since));
    }
}

} // verus!
