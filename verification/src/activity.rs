//! The activity log: one JSON line per tool call, subagent run or notable
//! event, kept out of the model's context and searched on demand.
use vstd::prelude::*;
use crate::json::JsonValue;
use crate::provider::{to_lowercase, unicode_lowercase};
use crate::text::{chars_of, contains, contains_chars};

verus! {

/// The local time as `YYYY-MM-DD HH:MM:SS`, from `chrono::Local::now()`
/// formatted with `%Y-%m-%d %H:%M:%S`. It depends on the clock and the time
/// zone, so nothing is stated of it.
#[verifier::external_body]
fn local_timestamp() -> (r: String) {
    chrono::Local::now().format("%Y-%m-%d %H:%M:%S").to_string()
}

/// A log entry: `{"ts", "event", "detail"}`.
pub open spec fn entry_ok(r: JsonValue, ts: Seq<char>, event: Seq<char>, detail: JsonValue) -> bool {
    r is Object && {
        let es = r->Object_0@;
        &&& es.len() == 3
        &&& es[0].0@ == "ts"@ && es[0].1 is String && es[0].1->String_0@ == ts
        &&& es[1].0@ == "event"@ && es[1].1 is String && es[1].1->String_0@ == event
        &&& es[2].0@ == "detail"@ && es[2].1 == detail
    }
}

/// The entry for an event at a given time.
pub fn activity_entry(ts: String, event: &str, detail: JsonValue) -> (r: JsonValue)
    ensures
        entry_ok(r, ts@, event@, detail),
{
    let mut es: Vec<(String, JsonValue)> = Vec::new();
    es.push(("ts".to_string(), JsonValue::String(ts)));
    es.push(("event".to_string(), JsonValue::String(event.to_string())));
    es.push(("detail".to_string(), detail));
    JsonValue::Object(es)
}

/// The entry for an event happening now; the time stamp is the clock's.
pub fn record(event: &str, detail: JsonValue) -> (r: JsonValue)
    ensures
        exists|ts: Seq<char>| entry_ok(r, ts, event@, detail),
{
    let ts = local_timestamp();
    let r = activity_entry(ts, event, detail);
    r
}

/// The detail of a tool call: `{"name", "ok"}`.
pub open spec fn tool_detail_is(r: JsonValue, name: Seq<char>, ok: bool) -> bool {
    r is Object && r->Object_0@.len() == 2 && r->Object_0@[0].0@ == "name"@
        && r->Object_0@[0].1 is String && r->Object_0@[0].1->String_0@ == name
        && r->Object_0@[1].0@ == "ok"@ && r->Object_0@[1].1 == JsonValue::Bool(ok)
}

pub fn tool_detail(name: &str, ok: bool) -> (r: JsonValue)
    ensures
        tool_detail_is(r, name@, ok),
{
    let mut es: Vec<(String, JsonValue)> = Vec::new();
    es.push(("name".to_string(), JsonValue::String(name.to_string())));
    es.push(("ok".to_string(), JsonValue::Bool(ok)));
    JsonValue::Object(es)
}

/// The detail of a finished subagent: `{"kind", "steps", "ok"}`.
pub open spec fn subagent_detail_is(r: JsonValue, kind: Seq<char>, steps: u64, ok: bool) -> bool {
    r is Object && r->Object_0@.len() == 3 && r->Object_0@[0].0@ == "kind"@
        && r->Object_0@[0].1 is String && r->Object_0@[0].1->String_0@ == kind
        && r->Object_0@[1].0@ == "steps"@ && r->Object_0@[1].1 == JsonValue::Number(
        crate::json::JsonNumber::PosInt(steps),
    ) && r->Object_0@[2].0@ == "ok"@ && r->Object_0@[2].1 == JsonValue::Bool(ok)
}

pub fn subagent_detail(kind: &str, steps: u64, ok: bool) -> (r: JsonValue)
    ensures
        subagent_detail_is(r, kind@, steps, ok),
{
    let mut es: Vec<(String, JsonValue)> = Vec::new();
    es.push(("kind".to_string(), JsonValue::String(kind.to_string())));
    es.push(("steps".to_string(), JsonValue::Number(crate::json::JsonNumber::PosInt(steps))));
    es.push(("ok".to_string(), JsonValue::Bool(ok)));
    JsonValue::Object(es)
}

/// The entry for a tool call happening now.
pub fn record_tool(name: &str, ok: bool) -> (r: JsonValue)
    ensures
        exists|ts: Seq<char>, d: JsonValue| entry_ok(r, ts, "tool"@, d) && tool_detail_is(d, name@, ok),
{
    let d = tool_detail(name, ok);
    let ghost dv = d;
    let r = record("tool", d);
    assert(exists|ts: Seq<char>| entry_ok(r, ts, "tool"@, dv));
    r
}

/// The entry for a subagent that finished now, after `steps` tool calls.
pub fn record_subagent(kind: &str, steps: u64, ok: bool) -> (r: JsonValue)
    ensures
        exists|ts: Seq<char>, d: JsonValue| entry_ok(r, ts, "subagent"@, d) && subagent_detail_is(d, kind@, steps, ok),
{
    let d = subagent_detail(kind, steps, ok);
    let ghost dv = d;
    let r = record("subagent", d);
    assert(exists|ts: Seq<char>| entry_ok(r, ts, "subagent"@, dv));
    r
}

/// A log line as the query sees it: the entry it parses to (none when it is
/// not JSON) and that entry written out again as JSON text.
pub type LogLine = Option<(JsonValue, String)>;

/// Whether a line is shown: it parses, and its text holds the search word,
/// both lowercased, when there is one.
pub open spec fn shown(line: LogLine, needle: Option<Seq<char>>) -> bool {
    match line {
        None => false,
        Some((_, text)) => match needle {
            None => true,
            Some(n) => contains(unicode_lowercase(text@), unicode_lowercase(n)),
        },
    }
}

/// The shown entries, newest (last line) first.
pub open spec fn newest_shown(lines: Seq<LogLine>, needle: Option<Seq<char>>) -> Seq<JsonValue>
    decreases lines.len(),
{
    if lines.len() == 0 {
        seq![]
    } else {
        let rest = newest_shown(lines.drop_last(), needle);
        if shown(lines.last(), needle) {
            seq![(lines.last()->0).0] + rest
        } else {
            rest
        }
    }
}

/// How many entries a query returns at most: the limit, and at least one (the
/// search stops only after it has taken an entry).
pub open spec fn query_cap(limit: usize) -> nat {
    if limit == 0 {
        1
    } else {
        limit as nat
    }
}

/// The entries of a log query: the lines read from the end, those that parse
/// and hold the search word, up to the limit.
pub fn query(lines: Vec<LogLine>, needle: Option<&str>, limit: usize) -> (r: Vec<JsonValue>)
    ensures
        r@ == newest_shown(lines@, match needle { Some(n) => Some(n@), None => None }).take(
            vstd::math::min(query_cap(limit) as int, newest_shown(lines@, match needle { Some(n) => Some(n@), None => None }).len() as int),
        ),
{
    let ghost nd = match needle {
        Some(n) => Some(n@),
        None => None,
    };
    let ghost orig = lines@;
    let lowered: Option<Vec<char>> = match needle {
        Some(n) => Some(chars_of(to_lowercase(n).as_str())),
        None => None,
    };
    let cap: usize = if limit == 0 { 1 } else { limit };
    let mut lines = lines;
    let mut out: Vec<JsonValue> = Vec::new();
    while lines.len() > 0 && out.len() < cap
        invariant
            out@ + newest_shown(lines@, nd) == newest_shown(orig, nd),
            out@.len() <= cap,
            cap == query_cap(limit),
            match lowered {
                Some(l) => nd matches Some(n) && l@ == unicode_lowercase(n),
                None => nd is None,
            },
        decreases lines.len(),
    {
        let ghost before = lines@;
        let line = lines.pop().unwrap();
        proof {
            assert(before.drop_last() =~= lines@);
        }
        match line {
            None => {},
            Some((entry, text)) => {
                let keep = match &lowered {
                    None => true,
                    Some(l) => {
                        let hay = chars_of(to_lowercase(text.as_str()).as_str());
                        contains_chars(hay.as_slice(), l.as_slice())
                    },
                };
                if keep {
                    let ghost o = out@;
                    out.push(entry);
                    proof {
                        assert(out@ + newest_shown(lines@, nd) =~= o + newest_shown(before, nd));
                    }
                }
            },
        }
    }
    proof {
        let all = newest_shown(orig, nd);
        if out@.len() < cap {
            assert(lines@.len() == 0);
            assert(out@ =~= all);
            assert(all.take(all.len() as int) =~= all);
        } else {
            assert(out@ =~= all.take(cap as int));
        }
    }
    out
}

} // verus!
