//! The alarm tools the agent calls: setting an alarm, a pomodoro pair, and
//! cancelling. The worker process that rings is started by the caller with the
//! arguments chosen here.
use vstd::prelude::*;
use crate::alarm::{
    clock_target, is_clock_form, parse_alarm_seconds, seconds_until, sum_durations, AlarmRecord,
    AlarmStatus, AlarmTimeError, DurationOutcome,
};
use crate::json::{as_str, as_u64, get, json_as_str, json_as_u64, json_get, JsonNumber, JsonValue};
use crate::numbers::{decimal, signed_decimal, i64_decimal, u64_decimal};
use crate::text::{
    ascii_lower_seq, chars_of, extend_chars, extend_str, split_ws, str_is, string_of, trim, trim_str,
};

verus! {

/// Why an alarm tool call was refused.
#[derive(Debug, Clone, Copy, PartialEq, Eq, Structural)]
pub enum AlarmToolError {
    /// `time is required`
    TimeRequired,
    /// `id is required`
    IdRequired,
    /// The repeat interval does not read as a duration.
    BadRepeat(AlarmTimeError),
}

/// What `set_alarm` asks for.
#[derive(Debug, Clone)]
pub struct AlarmRequest {
    /// The trimmed time.
    pub time: String,
    /// The trimmed label (`GQY alarm` when none is given).
    pub label: String,
    /// The sound file as given, when not blank (the caller resolves and checks it).
    pub audio_file: Option<String>,
    pub repeat_seconds: u64,
    pub max_rings: u64,
}

/// A string argument, when present.
pub open spec fn str_arg(args: JsonValue, key: Seq<char>) -> Option<Seq<char>> {
    as_str(get(args, key))
}

/// A string argument when it is not blank.
pub open spec fn filled_arg(args: JsonValue, key: Seq<char>) -> Option<Seq<char>> {
    match str_arg(args, key) {
        Some(v) => if trim(v).len() > 0 {
            Some(v)
        } else {
            None
        },
        None => None,
    }
}

/// What reading a duration gives, as `parse_alarm_seconds` states it.
pub open spec fn duration_read(v: Seq<char>, r: Result<u64, AlarmTimeError>) -> bool {
    let tokens = split_ws(v);
    if is_clock_form(tokens) {
        match clock_target(tokens[0]) {
            Ok(target) => r matches Ok(secs) && exists|sod: nat, nanos: nat|
                sod < 86400 && nanos < 1_000_000_000 && secs == seconds_until(target, sod, nanos),
            Err(e) => r == Err::<u64, AlarmTimeError>(e),
        }
    } else {
        match sum_durations(tokens) {
            DurationOutcome::Total(total) => if total == 0 {
                r == Err::<u64, AlarmTimeError>(AlarmTimeError::Zero)
            } else {
                r == Ok::<u64, AlarmTimeError>(total as u64)
            },
            DurationOutcome::Refused(e) => r == Err::<u64, AlarmTimeError>(e),
            DurationOutcome::Aborts => false,
        }
    }
}

/// A duration text that can be read without overflowing.
pub open spec fn readable_duration(v: Seq<char>) -> bool {
    !is_clock_form(split_ws(v)) ==> sum_durations(split_ws(v)) != DurationOutcome::Aborts
}

/// Reads a `set_alarm` call: the time is required; the label defaults to
/// `GQY alarm`; a repeat interval, when given, must read as a duration; at most
/// 20 rings unless `max_rings` says otherwise.
pub fn set_alarm_request(args: &JsonValue) -> (r: Result<AlarmRequest, AlarmToolError>)
    requires
        filled_arg(*args, "repeat"@) matches Some(v) ==> readable_duration(v),
    ensures
        ({
            let time = match str_arg(*args, "time"@) {
                Some(t) => trim(t),
                None => seq![],
            };
            if time.len() == 0 {
                r == Err::<AlarmRequest, AlarmToolError>(AlarmToolError::TimeRequired)
            } else {
                &&& (match filled_arg(*args, "repeat"@) {
                    Some(v) => exists|p: Result<u64, AlarmTimeError>| #[trigger] duration_read(v, p) && match p {
                        Err(e) => r == Err::<AlarmRequest, AlarmToolError>(AlarmToolError::BadRepeat(e)),
                        Ok(secs) => r matches Ok(q) && q.repeat_seconds == secs,
                    },
                    None => r matches Ok(q) && q.repeat_seconds == 0,
                })
                &&& (r matches Ok(q) ==> {
                    &&& q.time@ == time
                    &&& q.label@ == trim(match str_arg(*args, "label"@) {
                        Some(l) => l,
                        None => "GQY alarm"@,
                    })
                    &&& match (q.audio_file, filled_arg(*args, "audio_file"@)) {
                        (Some(a), Some(b)) => a@ == b,
                        (None, None) => true,
                        _ => false,
                    }
                    &&& q.max_rings == match as_u64(get(*args, "max_rings"@)) {
                        Some(n) => n,
                        None => 20,
                    }
                })
            }
        }),
{
    let time = match json_as_str(json_get(args, "time")) {
        Some(t) => trim_str(t),
        None => Vec::new(),
    };
    if time.len() == 0 {
        return Err(AlarmToolError::TimeRequired);
    }
    let label = match json_as_str(json_get(args, "label")) {
        Some(l) => trim_str(l),
        None => trim_str("GQY alarm"),
    };
    let audio_file = match json_as_str(json_get(args, "audio_file")) {
        Some(a) => if trim_str(a).len() > 0 {
            Some(a.to_string())
        } else {
            None
        },
        None => None,
    };
    let repeat_seconds: u64 = match json_as_str(json_get(args, "repeat")) {
        Some(v) => {
            if trim_str(v).len() > 0 {
                let p = parse_alarm_seconds(v);
                proof {
                    assert(duration_read(v@, p));
                }
                match p {
                    Ok(s) => s,
                    Err(e) => {
                        return Err(AlarmToolError::BadRepeat(e));
                    },
                }
            } else {
                0
            }
        },
        None => 0,
    };
    let max_rings = match json_as_u64(json_get(args, "max_rings")) {
        Some(n) => n,
        None => 20,
    };
    Ok(AlarmRequest {
        time: string_of(time.as_slice()),
        label: string_of(label.as_slice()),
        audio_file,
        repeat_seconds,
        max_rings,
    })
}

/// Whether a sound file's extension is one the worker plays: `wav` or `mp3`,
/// in any ASCII case.
pub fn is_playable_extension(extension: Option<&str>) -> (r: bool)
    ensures
        r == match extension {
            Some(e) => ascii_lower_seq(e@) == "wav"@ || ascii_lower_seq(e@) == "mp3"@,
            None => false,
        },
{
    match extension {
        Some(e) => {
            let l = crate::text::ascii_lower_chars(chars_of(e).as_slice());
            str_is(l.as_slice(), "wav") || str_is(l.as_slice(), "mp3")
        },
        None => false,
    }
}

/// A path as the user wrote it, made absolute: `~/…` under the home (when
/// known), a relative path under the working directory.
pub open spec fn expanded(value: Seq<char>, home: Option<Seq<char>>, cwd: Seq<char>) -> Seq<char> {
    if crate::text::starts_with(value, "~/"@) && home is Some {
        crate::paths::join_spec(home->0, value.skip(2))
    } else if value.len() > 0 && value[0] == '/' {
        value
    } else {
        crate::paths::join_spec(cwd, value)
    }
}

pub fn expand_path(value: &str, home: Option<&str>, cwd: &str) -> (r: String)
    ensures
        r@ == expanded(
            value@,
            match home {
                Some(h) => Some(h@),
                None => None,
            },
            cwd@,
        ),
{
    let v = chars_of(value);
    if crate::text::has_prefix_str(v.as_slice(), "~/") && home.is_some() {
        proof {
            reveal_strlit("~/");
        }
        let rest = crate::text::slice_chars(v.as_slice(), 2, v.len());
        assert(rest@ =~= value@.skip(2));
        return crate::paths::join_path(home.unwrap(), string_of(rest.as_slice()).as_str());
    }
    if v.len() > 0 && v[0] == '/' {
        value.to_string()
    } else {
        crate::paths::join_path(cwd, value)
    }
}

// ---------------------------------------------------------------- the worker

/// An alarm's id: `alarm-<milliseconds>-<process id>`.
pub fn alarm_id(now_millis: i64, pid: u32) -> (r: String)
    ensures
        r@ == "alarm-"@ + signed_decimal(now_millis as int) + "-"@ + decimal(pid as nat),
{
    let mut m = chars_of("alarm-");
    extend_chars(&mut m, i64_decimal(now_millis).as_slice());
    extend_str(&mut m, "-");
    extend_chars(&mut m, u64_decimal(pid as u64).as_slice());
    string_of(m.as_slice())
}

pub open spec fn strs(v: Seq<String>) -> Seq<Seq<char>> {
    v.map_values(|s: String| s@)
}

/// The arguments the alarm worker is started with.
pub open spec fn worker_args_spec(
    id: Seq<char>,
    time: Seq<char>,
    label: Seq<char>,
    state_dir: Seq<char>,
    cache_dir: Seq<char>,
    repeat_seconds: u64,
    max_rings: u64,
    parent_pid: u32,
    audio_file: Option<Seq<char>>,
) -> Seq<Seq<char>> {
    seq![
        "__alarm-worker"@, "--id"@, id, "--time"@, time, "--label"@, label, "--state-dir"@,
        state_dir, "--cache-dir"@, cache_dir, "--repeat"@, decimal(repeat_seconds as nat),
        "--max-rings"@, decimal(max_rings as nat), "--parent-pid"@, decimal(parent_pid as nat),
    ] + match audio_file {
        Some(a) => seq!["--audio-file"@, a],
        None => seq![],
    }
}

fn push_str(v: &mut Vec<String>, s: &str)
    ensures
        strs(final(v)@) == strs(old(v)@).push(s@),
{
    let ghost o = v@;
    v.push(s.to_string());
    assert(strs(v@) =~= strs(o).push(s@));
}

pub fn worker_args(
    id: &str,
    time: &str,
    label: &str,
    state_dir: &str,
    cache_dir: &str,
    repeat_seconds: u64,
    max_rings: u64,
    parent_pid: u32,
    audio_file: Option<&str>,
) -> (r: Vec<String>)
    ensures
        strs(r@) == worker_args_spec(
            id@,
            time@,
            label@,
            state_dir@,
            cache_dir@,
            repeat_seconds,
            max_rings,
            parent_pid,
            match audio_file {
                Some(a) => Some(a@),
                None => None,
            },
        ),
{
    let mut v: Vec<String> = Vec::new();
    push_str(&mut v, "__alarm-worker");
    push_str(&mut v, "--id");
    push_str(&mut v, id);
    push_str(&mut v, "--time");
    push_str(&mut v, time);
    push_str(&mut v, "--label");
    push_str(&mut v, label);
    push_str(&mut v, "--state-dir");
    push_str(&mut v, state_dir);
    push_str(&mut v, "--cache-dir");
    push_str(&mut v, cache_dir);
    push_str(&mut v, "--repeat");
    push_str(&mut v, string_of(u64_decimal(repeat_seconds).as_slice()).as_str());
    push_str(&mut v, "--max-rings");
    push_str(&mut v, string_of(u64_decimal(max_rings).as_slice()).as_str());
    push_str(&mut v, "--parent-pid");
    push_str(&mut v, string_of(u64_decimal(parent_pid as u64).as_slice()).as_str());
    match audio_file {
        Some(a) => {
            push_str(&mut v, "--audio-file");
            push_str(&mut v, a);
        },
        None => {},
    }
    let ghost w = worker_args_spec(
        id@,
        time@,
        label@,
        state_dir@,
        cache_dir@,
        repeat_seconds,
        max_rings,
        parent_pid,
        match audio_file {
            Some(a) => Some(a@),
            None => None,
        },
    );
    assert(strs(v@) =~= w);
    v
}

/// The record of a started alarm.
pub fn scheduled_record(id: String, request: &AlarmRequest, audio_file: Option<String>, due_at: i64, pid: u32) -> (r: AlarmRecord)
    ensures
        r.id == id,
        r.label@ == request.label@,
        r.time@ == request.time@,
        r.audio_file == audio_file,
        r.due_at == due_at,
        r.pid == Some(pid),
        r.status == AlarmStatus::Scheduled,
        r.repeat_seconds == request.repeat_seconds,
        r.max_rings == request.max_rings,
{
    AlarmRecord {
        id,
        label: request.label.clone(),
        time: request.time.clone(),
        audio_file,
        due_at,
        pid: Some(pid),
        status: AlarmStatus::Scheduled,
        repeat_seconds: request.repeat_seconds,
        max_rings: request.max_rings,
    }
}

/// When an alarm is due: now plus its delay.
pub fn due_at_from_time(now: i64, seconds: u64) -> (r: i64)
    requires
        i64::MIN <= now + seconds <= i64::MAX,
    ensures
        r == now + seconds,
{
    let sum: i128 = now as i128 + seconds as i128;
    sum as i64
}

// ---------------------------------------------------------------- pomodoro

/// A pomodoro: minutes of work (1 to 180, 25 by default) and of rest (1 to
/// 60, 5 by default).
pub open spec fn clamped(v: Option<nat>, default: nat, lo: nat, hi: nat) -> nat {
    let x = match v {
        Some(n) => n,
        None => default,
    };
    if x < lo {
        lo
    } else if x > hi {
        hi
    } else {
        x
    }
}

/// A pomodoro's work and break minutes, and the two alarms it sets: each first
/// rings after the work period and then every work-plus-break period, at most
/// 20 times; the first marks the end of work, the second the end of the break.
pub fn pomodoro_plan(args: &JsonValue) -> (r: (u64, u64, (String, String, u64), (String, String, u64)))
    ensures
        r.0 == clamped(as_u64(get(*args, "work_minutes"@)), 25, 1, 180),
        r.1 == clamped(as_u64(get(*args, "break_minutes"@)), 5, 1, 60),
        r.2.0@ == decimal((r.0 * 60) as nat) + "s"@,
        r.2.1@ == "番茄钟：工作结束，休息一下"@,
        r.2.2 == r.0 * 60 + r.1 * 60,
        r.3.0@ == decimal((r.0 * 60) as nat) + "s"@,
        r.3.1@ == "番茄钟：休息结束，继续工作"@,
        r.3.2 == r.0 * 60 + r.1 * 60,
{
    let work: u64 = match json_as_u64(json_get(args, "work_minutes")) {
        Some(n) => if n < 1 { 1 } else if n > 180 { 180 } else { n },
        None => 25,
    };
    let rest: u64 = match json_as_u64(json_get(args, "break_minutes")) {
        Some(n) => if n < 1 { 1 } else if n > 60 { 60 } else { n },
        None => 5,
    };
    let work_seconds = work * 60;
    let period = work_seconds + rest * 60;
    let mut t = u64_decimal(work_seconds);
    extend_str(&mut t, "s");
    let time = string_of(t.as_slice());
    (
        work,
        rest,
        (time.clone(), "番茄钟：工作结束，休息一下".to_string(), period),
        (time, "番茄钟：休息结束，继续工作".to_string(), period),
    )
}

/// The id a `cancel_alarm` call names, trimmed.
pub fn cancel_request(args: &JsonValue) -> (r: Result<String, AlarmToolError>)
    ensures
        ({
            let id = match str_arg(*args, "id"@) {
                Some(t) => trim(t),
                None => seq![],
            };
            match r {
                Ok(s) => id.len() > 0 && s@ == id,
                Err(e) => id.len() == 0 && e == AlarmToolError::IdRequired,
            }
        }),
{
    let id = match json_as_str(json_get(args, "id")) {
        Some(t) => trim_str(t),
        None => Vec::new(),
    };
    if id.len() == 0 {
        return Err(AlarmToolError::IdRequired);
    }
    Ok(string_of(id.as_slice()))
}

} // verus!

verus! {

// ---------------------------------------------------------------- replies

fn str_member(key: &str, text: &str) -> (r: (String, JsonValue))
    ensures
        r.0@ == key@ && r.1 is String && r.1->String_0@ == text@,
{
    (key.to_string(), JsonValue::String(text.to_string()))
}

pub open spec fn int_json(n: i64) -> JsonValue {
    if n >= 0 {
        JsonValue::Number(JsonNumber::PosInt(n as u64))
    } else {
        JsonValue::Number(JsonNumber::NegInt(n))
    }
}

fn int_value(n: i64) -> (r: JsonValue)
    ensures
        r == int_json(n),
{
    if n >= 0 {
        JsonValue::Number(JsonNumber::PosInt(n as u64))
    } else {
        JsonValue::Number(JsonNumber::NegInt(n))
    }
}

/// An optional text as JSON: the string, or `null`.
pub open spec fn opt_text_is(v: JsonValue, t: Option<Seq<char>>) -> bool {
    match t {
        Some(s) => v is String && v->String_0@ == s,
        None => v is Null,
    }
}

fn opt_text(t: &Option<String>) -> (r: JsonValue)
    ensures
        opt_text_is(r, match t { Some(s) => Some(s@), None => None }),
{
    match t {
        Some(s) => JsonValue::String(s.clone()),
        None => JsonValue::Null,
    }
}

/// A key and the text it holds.
pub open spec fn text_member(e: (String, JsonValue), key: Seq<char>, text: Seq<char>) -> bool {
    e.0@ == key && e.1 is String && e.1->String_0@ == text
}

/// What `set_alarm` answers: `ok`, the id, time, label, repeat interval, sound
/// file, and when it is due (as a time stamp and as local time).
pub fn set_alarm_reply(id: &str, request: &AlarmRequest, audio_file: &Option<String>, due: i64, due_local: &str) -> (r: JsonValue)
    ensures
        r is Object && {
            let es = r->Object_0@;
            &&& es.len() == 8
            &&& es[0].0@ == "ok"@ && es[0].1 == JsonValue::Bool(true)
            &&& text_member(es[1], "id"@, id@)
            &&& text_member(es[2], "time"@, request.time@)
            &&& text_member(es[3], "label"@, request.label@)
            &&& es[4].0@ == "repeat"@ && es[4].1 == JsonValue::Number(JsonNumber::PosInt(request.repeat_seconds))
            &&& es[5].0@ == "audio_file"@ && opt_text_is(es[5].1, match audio_file { Some(s) => Some(s@), None => None })
            &&& es[6].0@ == "due_at"@ && es[6].1 == int_json(due)
            &&& text_member(es[7], "due_at_local"@, due_local@)
        },
{
    let mut es: Vec<(String, JsonValue)> = Vec::new();
    es.push(("ok".to_string(), JsonValue::Bool(true)));
    es.push(str_member("id", id));
    es.push(str_member("time", request.time.as_str()));
    es.push(str_member("label", request.label.as_str()));
    es.push(("repeat".to_string(), JsonValue::Number(JsonNumber::PosInt(request.repeat_seconds))));
    es.push(("audio_file".to_string(), opt_text(audio_file)));
    es.push(("due_at".to_string(), int_value(due)));
    es.push(str_member("due_at_local", due_local));
    JsonValue::Object(es)
}

/// What `pomodoro` answers.
pub fn pomodoro_reply(work_minutes: u64, break_minutes: u64, work_alarm: &str, break_alarm: &str) -> (r: JsonValue)
    ensures
        r is Object && {
            let es = r->Object_0@;
            &&& es.len() == 6
            &&& es[0].0@ == "ok"@ && es[0].1 == JsonValue::Bool(true)
            &&& es[1].0@ == "work_minutes"@ && es[1].1 == JsonValue::Number(JsonNumber::PosInt(work_minutes))
            &&& es[2].0@ == "break_minutes"@ && es[2].1 == JsonValue::Number(JsonNumber::PosInt(break_minutes))
            &&& text_member(es[3], "work_alarm"@, work_alarm@)
            &&& text_member(es[4], "break_alarm"@, break_alarm@)
            &&& text_member(es[5], "note"@, "每个阶段切换都会响铃；cancel_alarm 可停止任一个。"@)
        },
{
    let mut es: Vec<(String, JsonValue)> = Vec::new();
    es.push(("ok".to_string(), JsonValue::Bool(true)));
    es.push(("work_minutes".to_string(), JsonValue::Number(JsonNumber::PosInt(work_minutes))));
    es.push(("break_minutes".to_string(), JsonValue::Number(JsonNumber::PosInt(break_minutes))));
    es.push(str_member("work_alarm", work_alarm));
    es.push(str_member("break_alarm", break_alarm));
    es.push(str_member("note", "每个阶段切换都会响铃；cancel_alarm 可停止任一个。"));
    JsonValue::Object(es)
}

/// What `cancel_alarm` answers.
pub fn cancel_reply(id: &str, cancelled: bool) -> (r: JsonValue)
    ensures
        r is Object && r->Object_0@.len() == 3 && r->Object_0@[0].0@ == "ok"@ && r->Object_0@[0].1
            == JsonValue::Bool(cancelled) && text_member(r->Object_0@[1], "id"@, id@)
            && r->Object_0@[2].0@ == "removed"@ && r->Object_0@[2].1 == JsonValue::Bool(cancelled),
{
    let mut es: Vec<(String, JsonValue)> = Vec::new();
    es.push(("ok".to_string(), JsonValue::Bool(cancelled)));
    es.push(str_member("id", id));
    es.push(("removed".to_string(), JsonValue::Bool(cancelled)));
    JsonValue::Object(es)
}

/// How a status is written: `scheduled` or `ringing`.
pub fn status_text(s: AlarmStatus) -> (r: &'static str)
    ensures
        r@ == match s {
            AlarmStatus::Scheduled => "scheduled"@,
            AlarmStatus::Ringing => "ringing"@,
        },
{
    match s {
        AlarmStatus::Scheduled => "scheduled",
        AlarmStatus::Ringing => "ringing",
    }
}

/// How `list_alarms` shows an alarm.
pub fn listed_alarm(rec: &AlarmRecord, due_local: &str) -> (r: JsonValue)
    ensures
        r is Object && {
            let es = r->Object_0@;
            &&& es.len() == 8
            &&& text_member(es[0], "id"@, rec.id@)
            &&& text_member(es[1], "label"@, rec.label@)
            &&& text_member(es[2], "time"@, rec.time@)
            &&& es[3].0@ == "audio_file"@ && opt_text_is(es[3].1, match rec.audio_file { Some(s) => Some(s@), None => None })
            &&& es[4].0@ == "due_at"@ && es[4].1 == int_json(rec.due_at)
            &&& text_member(es[5], "due_at_local"@, due_local@)
            &&& es[6].0@ == "pid"@ && es[6].1 == match rec.pid {
                Some(p) => JsonValue::Number(JsonNumber::PosInt(p as u64)),
                None => JsonValue::Null,
            }
            &&& text_member(es[7], "status"@, match rec.status {
                AlarmStatus::Scheduled => "scheduled"@,
                AlarmStatus::Ringing => "ringing"@,
            })
        },
{
    let mut es: Vec<(String, JsonValue)> = Vec::new();
    es.push(str_member("id", rec.id.as_str()));
    es.push(str_member("label", rec.label.as_str()));
    es.push(str_member("time", rec.time.as_str()));
    es.push(("audio_file".to_string(), opt_text(&rec.audio_file)));
    es.push(("due_at".to_string(), int_value(rec.due_at)));
    es.push(str_member("due_at_local", due_local));
    es.push((
        "pid".to_string(),
        match rec.pid {
            Some(p) => JsonValue::Number(JsonNumber::PosInt(p as u64)),
            None => JsonValue::Null,
        },
    ));
    es.push(str_member("status", status_text(rec.status)));
    JsonValue::Object(es)
}

} // verus!
