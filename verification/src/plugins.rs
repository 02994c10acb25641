//! Plug-ins of the conversation life cycle (the affection score, the system
//! watch), and the proactive events they raise: which exist, what they are
//! called, and the local rules that keep them from disturbing the user.
use vstd::prelude::*;
use crate::numbers::parse_unsigned_chars;
use crate::numbers::{decimal, parse_unsigned};
use crate::paths::{join_path, join_spec, GqyPaths};
use crate::provider::{to_lowercase, unicode_lowercase};
use crate::text::{
    chars_of, contains, contains_str, extend_chars, extend_str, join_with, str_is, string_of,
    trim, trim_str,
};

verus! {

// ---------------------------------------------------------------- plug-ins

/// How a plug-in registers: its id, hook priority (higher runs first) and
/// whether it is on by default.
#[derive(Debug, Clone, Copy)]
pub struct PluginDescriptor {
    pub id: &'static str,
    pub priority: i32,
    pub default_enabled: bool,
}

/// What an interruption is judged on: the event's source, its content and the
/// local hour.
#[derive(Debug, Clone, Copy)]
pub struct InterruptContext<'a> {
    pub event_source: &'a str,
    pub content: &'a str,
    pub hour: u8,
}

/// The affection plug-in: updates the relationship score after each turn.
#[derive(Debug, Clone, Copy)]
pub struct AffectionPlugin;

/// The watch plug-in: judges whether a system event may interrupt.
#[derive(Debug, Clone, Copy)]
pub struct WatchPlugin;

impl AffectionPlugin {
    pub fn descriptor(&self) -> (r: PluginDescriptor)
        ensures
            r.id@ == "affection"@,
            r.priority == 100,
            r.default_enabled,
    {
        PluginDescriptor { id: "affection", priority: 100, default_enabled: true }
    }
}

impl WatchPlugin {
    pub fn descriptor(&self) -> (r: PluginDescriptor)
        ensures
            r.id@ == "watch"@,
            r.priority == 10,
            r.default_enabled,
    {
        PluginDescriptor { id: "watch", priority: 10, default_enabled: true }
    }
}

/// A registered plug-in.
#[derive(Debug, Clone, Copy, PartialEq, Eq, Structural)]
pub enum PluginKind {
    Affection,
    Watch,
}

/// Every plug-in, in registration order.
pub fn default_plugins() -> (r: Vec<PluginKind>)
    ensures
        r@ == seq![PluginKind::Affection, PluginKind::Watch],
{
    let mut v: Vec<PluginKind> = Vec::new();
    v.push(PluginKind::Affection);
    v.push(PluginKind::Watch);
    assert(v@ =~= seq![PluginKind::Affection, PluginKind::Watch]);
    v
}

/// The tools the plug-ins register: the affection plug-in's status query; the
/// watch plug-in registers none.
pub fn register_all_plugin_tools() -> (r: Vec<&'static str>)
    ensures
        r@.len() == 1,
        r@[0]@ == "affection_status"@,
{
    let mut v: Vec<&'static str> = Vec::new();
    v.push("affection_status");
    v
}

/// Quiet hours: from 23:00 to 7:00 an event is held back unless it reports a
/// critical shortage (it speaks of the disk and of what is left).
pub open spec fn held_back_at_night(content: Seq<char>, hour: u8) -> bool {
    (hour >= 23 || hour < 7) && !(contains(content, "磁盘"@) && contains(content, "剩余"@))
}

/// The watch plug-in's own rule, applied before any model is asked.
pub fn quiet_hours_hold(ctx: &InterruptContext) -> (r: bool)
    ensures
        r == held_back_at_night(ctx.content@, ctx.hour),
{
    if ctx.hour >= 23 || ctx.hour < 7 {
        let c = chars_of(ctx.content);
        let critical = contains_str(c.as_slice(), "磁盘") && contains_str(c.as_slice(), "剩余");
        !critical
    } else {
        false
    }
}

// ---------------------------------------------------------------- affection

/// `<data>/affection.json`.
pub fn profile_path(paths: &GqyPaths) -> (r: String)
    ensures
        r@ == join_spec(paths.data_dir@, "affection.json"@),
{
    join_path(paths.data_dir.as_str(), "affection.json")
}

/// What a turn shows of the relationship, read from the user's message (in
/// lowercase) and the reply.
#[derive(Debug, Clone, Copy)]
pub struct TurnSignals {
    /// The message has at least 40 characters.
    pub long_message: bool,
    /// It thanks, says good night, or speaks fondly.
    pub warm: bool,
    /// It says good night or speaks of sleep.
    pub bedtime: bool,
    /// A curt command: under 8 characters, with neither thanks nor good night.
    pub curt: bool,
    /// The reply is blank or cut short.
    pub poor_reply: bool,
}

pub open spec fn warm_words(lower: Seq<char>) -> bool {
    contains(lower, "谢谢"@) || contains(lower, "辛苦"@) || contains(lower, "晚安"@) || contains(
        lower,
        "想你"@,
    ) || contains(lower, "喜欢"@) || contains(lower, "爱你"@) || contains(lower, "抱抱"@)
}

pub open spec fn signals_of(input: Seq<char>, output: Seq<char>) -> TurnSignals {
    let lower = unicode_lowercase(input);
    TurnSignals {
        long_message: input.len() >= 40,
        warm: warm_words(lower),
        bedtime: contains(lower, "晚安"@) || contains(lower, "睡"@),
        curt: input.len() < 8 && !contains(lower, "谢谢"@) && !contains(lower, "晚安"@),
        poor_reply: trim(output).len() == 0 || contains(output, "（本轮思考完成"@),
    }
}

pub fn turn_signals(input: &str, output: &str) -> (r: TurnSignals)
    ensures
        r == signals_of(input@, output@),
{
    let n = chars_of(input).len();
    let lower_s = to_lowercase(input);
    let lower = chars_of(lower_s.as_str());
    let l = lower.as_slice();
    let warm = contains_str(l, "谢谢") || contains_str(l, "辛苦") || contains_str(l, "晚安")
        || contains_str(l, "想你") || contains_str(l, "喜欢") || contains_str(l, "爱你")
        || contains_str(l, "抱抱");
    let bedtime = contains_str(l, "晚安") || contains_str(l, "睡");
    let curt = n < 8 && !contains_str(l, "谢谢") && !contains_str(l, "晚安");
    let o = chars_of(output);
    let poor = trim_str(output).len() == 0 || contains_str(o.as_slice(), "（本轮思考完成");
    TurnSignals { long_message: n >= 40, warm, bedtime, curt, poor_reply: poor }
}

/// The affection line injected at the end of the system prompt, given the
/// score and level as already written out.
pub open spec fn context_line(
    score: Seq<char>,
    level: Seq<char>,
    interactions: nat,
    tags: Seq<Seq<char>>,
    note: Seq<char>,
) -> Seq<char> {
    let tag_part = if tags.len() == 0 { seq![] } else { " · 标签："@ + join_with(tags, "、"@) };
    let note_part = if trim(note).len() == 0 { seq![] } else { " · 印象："@ + trim(note) };
    "<affection score=\""@ + score + "\" level=\""@ + level + "\" interactions=\""@ + decimal(
        interactions,
    ) + "\""@ + tag_part + note_part + "/>"@
}

pub fn context_block(score: &str, level: &str, interactions: u64, tags: &[String], note: &str) -> (r:
    String)
    ensures
        r@ == context_line(
            score@,
            level@,
            interactions as nat,
            crate::provider::strings_view(tags@),
            note@,
        ),
{
    let mut out = chars_of("<affection score=\"");
    extend_str(&mut out, score);
    extend_str(&mut out, "\" level=\"");
    extend_str(&mut out, level);
    extend_str(&mut out, "\" interactions=\"");
    let d = crate::numbers::u64_decimal(interactions);
    extend_chars(&mut out, d.as_slice());
    extend_str(&mut out, "\"");
    if tags.len() > 0 {
        extend_str(&mut out, " · 标签：");
        let ghost tv = crate::provider::strings_view(tags@);
        let ghost start = out@;
        extend_str(&mut out, tags[0].as_str());
        proof {
            assert(tv.take(1) =~= seq![tags@[0]@]);
        }
        let mut i: usize = 1;
        while i < tags.len()
            invariant
                1 <= i <= tags.len(),
                tv == crate::provider::strings_view(tags@),
                out@ == start + join_with(tv.take(i as int), "、"@),
            decreases tags.len() - i,
        {
            extend_str(&mut out, "、");
            extend_str(&mut out, tags[i].as_str());
            proof {
                assert(tv.take(i + 1).drop_last() =~= tv.take(i as int));
                assert(tv.take(i + 1).last() == tags@[i as int]@);
            }
            i += 1;
        }
        assert(tv.take(tags.len() as int) =~= tv);
    }
    let n = trim_str(note);
    if n.len() > 0 {
        extend_str(&mut out, " · 印象：");
        extend_chars(&mut out, n.as_slice());
    }
    extend_str(&mut out, "/>");
    string_of(out.as_slice())
}

// ---------------------------------------------------------------- proactive events

/// An event for the agent to judge, never shown to the user as is.
#[derive(Debug, Clone)]
pub struct SystemEvent {
    pub source: String,
    pub content: String,
    /// Seconds before another event of this source is delivered.
    pub cooldown_secs: u64,
}

/// A source of proactive events: samples the system and raises an event when
/// its local threshold is crossed. Sampling is done by the caller.
pub trait EventSource {
    /// The source's unique name (for logs and cooldown stamps).
    fn name(&self) -> &'static str;
}

/// Processes and memory (the former `gqy watch`).
#[derive(Debug, Clone, Copy)]
pub struct WatchSource;

/// The start-up disk's fill level.
#[derive(Debug, Clone, Copy)]
pub struct DiskSpaceSource;

impl EventSource for WatchSource {
    fn name(&self) -> (r: &'static str)
        ensures
            r@ == "watch"@,
    {
        "watch"
    }
}

impl EventSource for DiskSpaceSource {
    fn name(&self) -> (r: &'static str)
        ensures
            r@ == "disk"@,
    {
        "disk"
    }
}

/// Seconds between two watch events.
pub const WATCH_EVENT_COOLDOWN_SECS: u64 = 1800;

/// Seconds between two disk events: the fill level changes slowly.
pub const DISK_ALERT_COOLDOWN_SECS: u64 = 21600;

/// A registered event source.
#[derive(Debug, Clone, Copy, PartialEq, Eq, Structural)]
pub enum EventSourceKind {
    Watch,
    Disk,
}

/// Every event source, in polling order.
pub fn default_event_sources() -> (r: Vec<EventSourceKind>)
    ensures
        r@ == seq![EventSourceKind::Watch, EventSourceKind::Disk],
{
    let mut v: Vec<EventSourceKind> = Vec::new();
    v.push(EventSourceKind::Watch);
    v.push(EventSourceKind::Disk);
    assert(v@ =~= seq![EventSourceKind::Watch, EventSourceKind::Disk]);
    v
}

impl EventSourceKind {
    pub fn source_name(&self) -> (r: &'static str)
        ensures
            r@ == (match *self {
                EventSourceKind::Watch => "watch"@,
                EventSourceKind::Disk => "disk"@,
            }),
    {
        match self {
            EventSourceKind::Watch => WatchSource.name(),
            EventSourceKind::Disk => DiskSpaceSource.name(),
        }
    }
}

/// What delivering one event came to.
#[derive(Debug, Clone, Copy, PartialEq, Eq, Structural)]
pub enum DeliveryOutcome {
    /// Queued: the conversation picks it up at the end of its reply.
    Delivered,
    /// Within the cooldown (or judged not worth it): skipped quietly.
    Cooldown,
    /// The web UI is not running.
    WebUiUnreachable,
    /// The web UI runs but no turn is in progress to attach the event to.
    NoRunningTurn,
    /// Refused otherwise.
    Rejected,
}

/// `<state>/last_<source>_alert`, whose time stamps a source's last delivery.
pub fn alert_stamp_file(paths: &GqyPaths, source: &str) -> (r: String)
    ensures
        r@ == join_spec(paths.state_dir@, "last_"@ + source@ + "_alert"@),
{
    let mut name = chars_of("last_");
    extend_str(&mut name, source);
    extend_str(&mut name, "_alert");
    join_path(paths.state_dir.as_str(), string_of(name.as_slice()).as_str())
}

/// What one polling round reports: a delivered event, or a source that failed
/// (`None`); sources with nothing to say are left out.
pub open spec fn poll_report(results: Seq<(&'static str, Option<bool>)>) -> Seq<(Seq<char>, DeliveryOutcome)>
    decreases results.len(),
{
    if results.len() == 0 {
        seq![]
    } else {
        let r = poll_report(results.drop_last());
        let (name, res) = results.last();
        match res {
            None => r.push((name@, DeliveryOutcome::Rejected)),
            Some(true) => r.push((name@, DeliveryOutcome::Delivered)),
            Some(false) => r,
        }
    }
}

pub fn poll_all(results: &[(&'static str, Option<bool>)]) -> (r: Vec<(&'static str, DeliveryOutcome)>)
    ensures
        r@.map_values(|e: (&'static str, DeliveryOutcome)| (e.0@, e.1)) == poll_report(results@),
{
    let mut out: Vec<(&'static str, DeliveryOutcome)> = Vec::new();
    let mut i: usize = 0;
    while i < results.len()
        invariant
            i <= results.len(),
            out@.map_values(|e: (&'static str, DeliveryOutcome)| (e.0@, e.1)) == poll_report(
                results@.take(i as int),
            ),
        decreases results.len() - i,
    {
        let (name, res) = results[i];
        proof {
            assert(results@.take(i + 1).drop_last() =~= results@.take(i as int));
            assert(results@.take(i + 1).last() == results@[i as int]);
        }
        let ghost before = out@;
        match res {
            None => {
                out.push((name, DeliveryOutcome::Rejected));
            },
            Some(true) => {
                out.push((name, DeliveryOutcome::Delivered));
            },
            Some(false) => {},
        }
        proof {
            let f = |e: (&'static str, DeliveryOutcome)| (e.0@, e.1);
            assert(out@ == before || out@ == before.push(out@.last()));
            if out@.len() > before.len() {
                assert(out@.map_values(f) =~= before.map_values(f).push(f(out@.last())));
            }
        }
        i += 1;
    }
    assert(results@.take(results.len() as int) =~= results@);
    out
}

// ---------------------------------------------------------------- the system watch

/// How queueing a watch alert went.
#[derive(Debug, Clone, Copy, PartialEq, Eq, Structural)]
pub enum AlertOutcome {
    Delivered,
    Cooldown,
    WebUiUnreachable,
    NoRunningTurn,
    Rejected,
}

/// Seconds between two watch alerts.
pub const ALERT_COOLDOWN_SECS: u64 = 1800;

/// Processes not worth reporting (the watch itself, system daemons), judged by
/// the last `/`-separated part of the command.
pub open spec fn noise_process(comm: Seq<char>) -> bool {
    let parts = crate::text::split_char(comm, '/');
    let name = parts.last();
    name == "gqy"@ || name == "ps"@ || name == "top"@ || name == "WindowServer"@ || name
        == "kernel_task"@ || name == "launchd"@ || name == "mds"@ || name == "mdworker"@ || name
        == "Spotlight"@ || name == "backupd"@ || name == "cloudd"@ || name == "VTDecoderXPCService"@
        || name == "rapportd"@ || name == "opendirectoryd"@ || crate::text::starts_with(
        name,
        "zcode"@,
    )
}

pub fn is_noise_process(comm: &str) -> (r: bool)
    ensures
        r == noise_process(comm@),
{
    let c = chars_of(comm);
    let parts = crate::text::split_on_char(c.as_slice(), '/');
    proof {
        crate::text::lemma_split_char_nonempty(comm@, '/');
    }
    let name = parts[parts.len() - 1].as_slice();
    str_is(name, "gqy") || str_is(name, "ps") || str_is(name, "top") || str_is(name, "WindowServer")
        || str_is(name, "kernel_task") || str_is(name, "launchd") || str_is(name, "mds") || str_is(
        name,
        "mdworker",
    ) || str_is(name, "Spotlight") || str_is(name, "backupd") || str_is(name, "cloudd") || str_is(
        name,
        "VTDecoderXPCService",
    ) || str_is(name, "rapportd") || str_is(name, "opendirectoryd")
        || crate::text::has_prefix_str(name, "zcode")
}

/// The web UI's port: `GQY_WEB_PORT` when it reads as a port number, else 4096.
pub fn web_port(env_value: Option<&str>) -> (r: u16)
    ensures
        r == match env_value {
            Some(v) => match parse_unsigned(v@, 65535) {
                Some(p) => p,
                None => 4096,
            },
            None => 4096,
        },
{
    match env_value {
        Some(v) => match parse_unsigned_chars(chars_of(v).as_slice(), 65535) {
            Some(p) => p as u16,
            None => 4096,
        },
        None => 4096,
    }
}

/// The web UI's queue endpoint on this machine.
pub fn queue_url(port: u16) -> (r: String)
    ensures
        r@ == "http://127.0.0.1:"@ + decimal(port as nat) + "/api/queue"@,
{
    let mut out = chars_of("http://127.0.0.1:");
    let d = crate::numbers::u64_decimal(port as u64);
    extend_chars(&mut out, d.as_slice());
    extend_str(&mut out, "/api/queue");
    string_of(out.as_slice())
}

/// What the queue's HTTP status means: 200 or 202 queued, 409 no turn running,
/// anything else refused.
pub fn queue_outcome(status: &str) -> (r: AlertOutcome)
    ensures
        r == if trim(status@) == "200"@ || trim(status@) == "202"@ {
            AlertOutcome::Delivered
        } else if trim(status@) == "409"@ {
            AlertOutcome::NoRunningTurn
        } else {
            AlertOutcome::Rejected
        },
{
    let t = trim_str(status);
    if str_is(t.as_slice(), "200") || str_is(t.as_slice(), "202") {
        AlertOutcome::Delivered
    } else if str_is(t.as_slice(), "409") {
        AlertOutcome::NoRunningTurn
    } else {
        AlertOutcome::Rejected
    }
}

// ---------------------------------------------------------------- activity log

/// `<cache>/logs/activity.jsonl`.
pub fn activity_log_file(paths: &GqyPaths) -> (r: String)
    ensures
        r@ == join_spec(join_spec(paths.cache_dir@, "logs"@), "activity.jsonl"@),
{
    let logs = paths.logs_dir();
    join_path(logs.as_str(), "activity.jsonl")
}

} // verus!
