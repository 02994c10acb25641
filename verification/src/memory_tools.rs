//! The memory tools' arguments and answers: remembering a fact, logging a
//! mood, and the searches over memories, past events and moods. The memory
//! store itself is the caller's.
use vstd::prelude::*;
use crate::json::{as_bool, as_str, as_u64, get, json_as_bool, json_as_str, json_as_u64, json_get, JsonValue};
use crate::text::{chars_of, extend_chars, extend_str, string_of, trim, trim_str};

verus! {

/// A text argument, trimmed (empty when absent or not a string).
pub open spec fn arg_text(args: JsonValue, key: Seq<char>) -> Seq<char> {
    match as_str(get(args, key)) {
        Some(v) => trim(v),
        None => seq![],
    }
}

/// The message for a missing argument.
pub open spec fn missing_message(key: Seq<char>, zh: bool) -> Seq<char> {
    (if zh { "缺少必需参数"@ } else { "required argument missing"@ }) + ": "@ + key
}

/// A required text argument, trimmed; refused with the message to show when
/// it is absent or blank.
pub fn required_text(args: &JsonValue, key: &str, zh: bool) -> (r: Result<String, String>)
    ensures
        match r {
            Ok(s) => s@ == arg_text(*args, key@) && s@.len() > 0,
            Err(m) => arg_text(*args, key@).len() == 0 && m@ == missing_message(key@, zh),
        },
{
    let t = match json_as_str(json_get(args, key)) {
        Some(v) => trim_str(v),
        None => Vec::new(),
    };
    if t.len() == 0 {
        let mut m = chars_of(if zh { "缺少必需参数" } else { "required argument missing" });
        extend_str(&mut m, ": ");
        extend_str(&mut m, key);
        return Err(string_of(m.as_slice()));
    }
    Ok(string_of(t.as_slice()))
}

/// How many results a search returns: `max_results`, 1 to 50, 5 by default.
pub fn optional_limit(args: &JsonValue) -> (r: usize)
    ensures
        r as nat == match as_u64(get(*args, "max_results"@)) {
            Some(n) => if n < 1 {
                1
            } else if n > 50 {
                50
            } else {
                n
            },
            None => 5,
        },
{
    match json_as_u64(json_get(args, "max_results")) {
        Some(n) => if n < 1 {
            1
        } else if n > 50 {
            50
        } else {
            n as usize
        },
        None => 5,
    }
}

/// A search: its query (required) and how many results.
pub fn search_request(args: &JsonValue, zh: bool) -> (r: Result<(String, usize), String>)
    ensures
        match r {
            Ok((q, n)) => q@ == arg_text(*args, "query"@) && q@.len() > 0 && n == optional_limit_spec(*args),
            Err(m) => arg_text(*args, "query"@).len() == 0 && m@ == missing_message("query"@, zh),
        },
{
    match required_text(args, "query", zh) {
        Ok(q) => Ok((q, optional_limit(args))),
        Err(m) => Err(m),
    }
}

pub open spec fn optional_limit_spec(args: JsonValue) -> usize {
    (match as_u64(get(args, "max_results"@)) {
        Some(n) => if n < 1 {
            1
        } else if n > 50 {
            50
        } else {
            n
        },
        None => 5,
    }) as usize
}

/// Whether a memory search also looks at forgotten memories (`false` unless
/// asked).
pub fn include_forgotten(args: &JsonValue) -> (r: bool)
    ensures
        r == match as_bool(get(*args, "include_forgotten"@)) {
            Some(b) => b,
            None => false,
        },
{
    match json_as_bool(json_get(args, "include_forgotten")) {
        Some(b) => b,
        None => false,
    }
}

/// What `remember_fact` stores: the content (required) and its source
/// (`conversation` unless given).
pub fn remember_request(args: &JsonValue, zh: bool) -> (r: Result<(String, String), String>)
    ensures
        match r {
            Ok((content, source)) => content@ == arg_text(*args, "content"@) && content@.len() > 0
                && source@ == match as_str(get(*args, "source"@)) {
                Some(s) => s,
                None => "conversation"@,
            },
            Err(m) => arg_text(*args, "content"@).len() == 0 && m@ == missing_message("content"@, zh),
        },
{
    let content = match required_text(args, "content", zh) {
        Ok(c) => c,
        Err(m) => {
            return Err(m);
        },
    };
    let source = match json_as_str(json_get(args, "source")) {
        Some(s) => s.to_string(),
        None => "conversation".to_string(),
    };
    Ok((content, source))
}

/// A member whose value is a string.
pub open spec fn text_member(e: (String, JsonValue), key: Seq<char>, text: Seq<char>) -> bool {
    e.0@ == key && e.1 is String && e.1->String_0@ == text
}

fn text_entry(key: &str, text: &[char]) -> (r: (String, JsonValue))
    ensures
        text_member(r, key@, text@),
{
    (key.to_string(), JsonValue::String(string_of(text)))
}

/// What `remember_fact` answers once the memory is stored under `id`.
pub fn remember_reply(id: JsonValue, source: &str, content: &str, zh: bool) -> (r: JsonValue)
    ensures
        r is Object && {
            let es = r->Object_0@;
            &&& es.len() == 5
            &&& es[0].0@ == "ok"@ && es[0].1 == JsonValue::Bool(true)
            &&& es[1].0@ == "id"@ && es[1].1 == id
            &&& text_member(es[2], "source"@, trim(source@))
            &&& text_member(es[3], "content"@, trim(content@))
            &&& text_member(es[4], "message"@, if zh {
                "记忆已保存。这里包含已保存内容，方便当前对话准确引用。"@
            } else {
                "Memory saved. The saved content is included here so the current conversation can refer to it accurately."@
            })
        },
{
    let mut es: Vec<(String, JsonValue)> = Vec::new();
    es.push(("ok".to_string(), JsonValue::Bool(true)));
    es.push(("id".to_string(), id));
    es.push(text_entry("source", trim_str(source).as_slice()));
    es.push(text_entry("content", trim_str(content).as_slice()));
    let m = chars_of(if zh {
        "记忆已保存。这里包含已保存内容，方便当前对话准确引用。"
    } else {
        "Memory saved. The saved content is included here so the current conversation can refer to it accurately."
    });
    es.push(text_entry("message", m.as_slice()));
    JsonValue::Object(es)
}

/// The episode a mood is logged as: `心情：<mood>`, with the note in brackets
/// when there is one; the mood is required.
pub open spec fn mood_text(args: JsonValue) -> Seq<char> {
    let mood = arg_text(args, "mood"@);
    let note = arg_text(args, "note"@);
    if note.len() > 0 {
        "心情："@ + mood + "（"@ + note + "）"@
    } else {
        "心情："@ + mood
    }
}

pub fn mood_entry(args: &JsonValue) -> (r: Result<String, &'static str>)
    ensures
        match r {
            Ok(c) => arg_text(*args, "mood"@).len() > 0 && c@ == mood_text(*args),
            Err(m) => arg_text(*args, "mood"@).len() == 0 && m@ == "mood is required"@,
        },
{
    let mood = match json_as_str(json_get(args, "mood")) {
        Some(v) => trim_str(v),
        None => Vec::new(),
    };
    if mood.len() == 0 {
        return Err("mood is required");
    }
    let note = match json_as_str(json_get(args, "note")) {
        Some(v) => trim_str(v),
        None => Vec::new(),
    };
    let mut c = chars_of("心情：");
    extend_chars(&mut c, mood.as_slice());
    if note.len() > 0 {
        extend_str(&mut c, "（");
        extend_chars(&mut c, note.as_slice());
        extend_str(&mut c, "）");
    }
    Ok(string_of(c.as_slice()))
}

/// What `log_mood` answers.
pub fn mood_reply(id: JsonValue, content: &str) -> (r: JsonValue)
    ensures
        r is Object && r->Object_0@.len() == 3 && r->Object_0@[0].0@ == "ok"@ && r->Object_0@[0].1
            == JsonValue::Bool(true) && r->Object_0@[1].0@ == "id"@ && r->Object_0@[1].1 == id
            && text_member(r->Object_0@[2], "content"@, content@),
{
    let mut es: Vec<(String, JsonValue)> = Vec::new();
    es.push(("ok".to_string(), JsonValue::Bool(true)));
    es.push(("id".to_string(), id));
    es.push(text_entry("content", chars_of(content).as_slice()));
    JsonValue::Object(es)
}

// ---------------------------------------------------------------- chat history search

/// `truncate_chars`: the text when it has at most `max` characters, else its
/// first `max - 3` characters (none when `max` is under 3) and `...`.
pub open spec fn truncated(t: Seq<char>, max: nat) -> Seq<char> {
    if t.len() <= max {
        t
    } else {
        t.take(if max >= 3 { max - 3 } else { 0 }) + "..."@
    }
}

pub fn truncate_chars(text: &str, max: usize) -> (r: String)
    ensures
        r@ == truncated(text@, max as nat),
{
    let c = chars_of(text);
    if c.len() <= max {
        return text.to_string();
    }
    let keep = if max >= 3 { max - 3 } else { 0 };
    let mut out: Vec<char> = Vec::new();
    let mut i: usize = 0;
    while i < keep
        invariant
            keep < c@.len(),
            i <= keep,
            out@ == c@.take(i as int),
        decreases keep - i,
    {
        out.push(c[i]);
        assert(out@ =~= c@.take(i + 1));
        i += 1;
    }
    extend_str(&mut out, "...");
    string_of(out.as_slice())
}

/// One exchange the history search found.
#[derive(Debug, Clone)]
pub struct HistoryHit {
    pub timestamp: String,
    pub user_content: String,
    pub assistant_content: String,
}

/// How a found exchange is shown: its time, the user's words cut to 240
/// characters and the answer cut to 360.
pub open spec fn hit_shown(e: JsonValue, h: HistoryHit) -> bool {
    e is Object && e->Object_0@.len() == 3 && text_member(e->Object_0@[0], "time"@, h.timestamp@)
        && text_member(e->Object_0@[1], "user"@, truncated(h.user_content@, 240))
        && text_member(e->Object_0@[2], "assistant"@, truncated(h.assistant_content@, 360))
}

fn hit_entry(h: &HistoryHit) -> (r: JsonValue)
    ensures
        hit_shown(r, *h),
{
    let mut es: Vec<(String, JsonValue)> = Vec::new();
    es.push(("time".to_string(), JsonValue::String(h.timestamp.clone())));
    es.push(("user".to_string(), JsonValue::String(truncate_chars(h.user_content.as_str(), 240))));
    es.push(
        ("assistant".to_string(), JsonValue::String(truncate_chars(h.assistant_content.as_str(), 360))),
    );
    JsonValue::Object(es)
}

/// What `search_chat_history` answers for the exchanges found (the query and
/// limit are those of `search_request`).
pub fn history_reply(query: &str, hits: &[HistoryHit]) -> (r: JsonValue)
    ensures
        r is Object && {
            let es = r->Object_0@;
            &&& es.len() == 3
            &&& es[0].0@ == "ok"@ && es[0].1 == JsonValue::Bool(true)
            &&& text_member(es[1], "query"@, query@)
            &&& es[2].0@ == "results"@ && es[2].1 is Array
            &&& es[2].1->Array_0@.len() == hits@.len()
            &&& forall|k: int| 0 <= k < hits@.len() ==> hit_shown(#[trigger] es[2].1->Array_0@[k], hits@[k])
        },
{
    let mut results: Vec<JsonValue> = Vec::new();
    let mut i: usize = 0;
    while i < hits.len()
        invariant
            i <= hits@.len(),
            results@.len() == i,
            forall|k: int| 0 <= k < i ==> hit_shown(#[trigger] results@[k], hits@[k]),
        decreases hits.len() - i,
    {
        results.push(hit_entry(&hits[i]));
        i += 1;
    }
    let mut es: Vec<(String, JsonValue)> = Vec::new();
    es.push(("ok".to_string(), JsonValue::Bool(true)));
    es.push(text_entry("query", chars_of(query).as_slice()));
    es.push(("results".to_string(), JsonValue::Array(results)));
    JsonValue::Object(es)
}

} // verus!
