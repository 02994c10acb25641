//! One turn with the `pi` agent base: what is sent (the persona, the prompt
//! and the images of the latest user message), and how each event pi streams
//! back moves the turn on. The process and its pipes are run by the caller.
use vstd::prelude::*;
use crate::json::{
    as_bool, as_str, as_u64, deref_opt, get, get_opt, json_as_bool, json_as_str, json_as_u64,
    json_get, json_get_opt, take_member, JsonValue,
};
use crate::llm::{sat_add, ChatContent, ChatContentPart, ChatMessage, ChatResult, Usage};
use crate::text::{chars_of, extend_chars, extend_str, join_with, str_is, string_of, trim, trim_chars, trim_str};

verus! {

// ---------------------------------------------------------------- the request

/// The text of a plain text message.
pub open spec fn text_of(m: ChatMessage) -> Option<Seq<char>> {
    match m.content {
        Some(ChatContent::Text(t)) => Some(t@),
        _ => None,
    }
}

/// The persona: the first system message's text (empty when it has none).
pub open spec fn persona_of(ms: Seq<ChatMessage>) -> Seq<char>
    decreases ms.len(),
{
    if ms.len() == 0 {
        seq![]
    } else if ms[0].role@ == "system"@ {
        match text_of(ms[0]) {
            Some(t) => t,
            None => seq![],
        }
    } else {
        persona_of(ms.drop_first())
    }
}

/// The other system messages (memory, summaries) the agent injected: their
/// trimmed, non-empty texts, in order.
pub open spec fn extra_context_parts(ms: Seq<ChatMessage>, seen_system: bool) -> Seq<Seq<char>>
    decreases ms.len(),
{
    if ms.len() == 0 {
        seq![]
    } else if ms[0].role@ == "system"@ {
        let rest = extra_context_parts(ms.drop_first(), true);
        if seen_system {
            match text_of(ms[0]) {
                Some(t) => if trim(t).len() > 0 { seq![trim(t)] + rest } else { rest },
                None => rest,
            }
        } else {
            rest
        }
    } else {
        extra_context_parts(ms.drop_first(), seen_system)
    }
}

/// The index of the last user message.
pub open spec fn last_user(ms: Seq<ChatMessage>) -> Option<int>
    decreases ms.len(),
{
    if ms.len() == 0 {
        None
    } else if ms.last().role@ == "user"@ {
        Some(ms.len() - 1)
    } else {
        last_user(ms.drop_last())
    }
}

/// The prompt text and image URLs of a user message's content.
pub open spec fn parts_prompt(parts: Seq<ChatContentPart>) -> (Seq<char>, Seq<Seq<char>>)
    decreases parts.len(),
{
    if parts.len() == 0 {
        (seq![], seq![])
    } else {
        let (p, imgs) = parts_prompt(parts.drop_last());
        match parts.last() {
            ChatContentPart::Text { text } => (p + text@, imgs),
            ChatContentPart::ImageUrl { image_url } => (p, imgs.push(image_url.url@)),
        }
    }
}

/// A turn sent to pi: the persona, the prompt (the latest user message, after
/// the injected context when there is any), and the image URLs it carries.
pub open spec fn turn_of(ms: Seq<ChatMessage>) -> Option<(Seq<char>, Seq<char>, Seq<Seq<char>>)> {
    match last_user(ms) {
        None => None,
        Some(u) => {
            let (prompt, images) = match ms[u].content {
                Some(ChatContent::Text(t)) => (t@, seq![]),
                Some(ChatContent::Parts(parts)) => parts_prompt(parts@),
                None => (seq![], seq![]),
            };
            let extra = join_with(extra_context_parts(ms, false), "\n\n"@);
            let full = if extra.len() == 0 {
                prompt
            } else {
                "<gqy-context>\n"@ + extra + "\n</gqy-context>\n\n用户输入："@ + prompt
            };
            Some((persona_of(ms), full, images))
        },
    }
}

/// No user message was in the request.
#[derive(Debug, Clone, Copy, PartialEq, Eq, Structural)]
pub struct NoUserMessage;

fn is_role(m: &ChatMessage, role: &str) -> (r: bool)
    ensures
        r == (m.role@ == role@),
{
    str_is(chars_of(m.role.as_str()).as_slice(), role)
}

pub fn extract_turn(messages: &[ChatMessage]) -> (r: Result<(String, String, Vec<String>), NoUserMessage>)
    ensures
        match turn_of(messages@) {
            None => r == Err::<(String, String, Vec<String>), NoUserMessage>(NoUserMessage),
            Some((persona, prompt, images)) => r matches Ok((p, q, imgs)) && p@ == persona && q@
                == prompt && crate::provider::strings_view(imgs@) == images,
        },
{
    let ghost ms = messages@;
    // the first system message gives the persona
    let mut j: usize = 0;
    let mut first_system: Option<usize> = None;
    assert(ms.skip(0) =~= ms);
    while j < messages.len()
        invariant_except_break
            first_system is None,
        invariant
            j <= messages.len(),
            ms == messages@,
            persona_of(ms) == persona_of(ms.skip(j as int)),
            extra_context_parts(ms, false) == extra_context_parts(ms.skip(j as int), false),
        ensures
            j <= messages.len(),
            ms == messages@,
            persona_of(ms) == persona_of(ms.skip(j as int)),
            extra_context_parts(ms, false) == extra_context_parts(ms.skip(j as int), false),
            match first_system {
                Some(f) => f == j && j < messages.len() && messages@[j as int].role@ == "system"@,
                None => j == messages.len(),
            },
        decreases messages.len() - j,
    {
        proof {
            assert(ms.skip(j as int)[0] == ms[j as int]);
            assert(ms.skip(j as int).drop_first() =~= ms.skip(j + 1));
        }
        if is_role(&messages[j], "system") {
            first_system = Some(j);
            break;
        }
        j += 1;
    }
    let persona_text: String = match first_system {
        Some(f) => {
            proof {
                assert(ms.skip(f as int)[0] == ms[f as int]);
            }
            match &messages[f].content {
                Some(ChatContent::Text(t)) => t.clone(),
                _ => String::new(),
            }
        },
        None => {
            assert(ms.skip(messages.len() as int) =~= Seq::<ChatMessage>::empty());
            String::new()
        },
    };
    // the other system messages, after the first one
    let mut extra: Vec<Vec<char>> = Vec::new();
    let stop: usize = match first_system {
        Some(f) => f + 1,
        None => messages.len(),
    };
    proof {
        if let Some(f) = first_system {
            assert(ms.skip(f as int)[0] == ms[f as int]);
            assert(ms.skip(f as int).drop_first() =~= ms.skip(f + 1));
        }
        assert(ms.skip(messages.len() as int) =~= Seq::<ChatMessage>::empty());
    }
    let mut i: usize = messages.len();
    while i > stop
        invariant
            stop <= i <= messages.len(),
            ms == messages@,
            extra@.map_values(|v: Vec<char>| v@) == extra_context_parts(ms.skip(i as int), true),
        decreases i,
    {
        let k = i - 1;
        proof {
            assert(ms.skip(k as int)[0] == ms[k as int]);
            assert(ms.skip(k as int).drop_first() =~= ms.skip(i as int));
        }
        if is_role(&messages[k], "system") {
            match &messages[k].content {
                Some(ChatContent::Text(t)) => {
                    let tt = trim_str(t.as_str());
                    if tt.len() > 0 {
                        let ghost before = extra@.map_values(|v: Vec<char>| v@);
                        extra.insert(0, tt);
                        assert(extra@.map_values(|v: Vec<char>| v@) =~= seq![trim(t@)] + before);
                    }
                },
                _ => {},
            }
        }
        i -= 1;
    }
    let ghost lv = extra@.map_values(|v: Vec<char>| v@);
    assert(lv == extra_context_parts(ms, false));
    // the last user message
    let mut u: usize = messages.len();
    assert(ms.take(messages.len() as int) =~= ms);
    while u > 0
        invariant
            u <= messages.len(),
            ms == messages@,
            last_user(ms) == last_user(ms.take(u as int)),
        ensures
            u <= messages.len(),
            last_user(ms) == last_user(ms.take(u as int)),
            u > 0 ==> messages@[u - 1].role@ == "user"@,
        decreases u,
    {
        proof {
            assert(ms.take(u as int).drop_last() =~= ms.take(u - 1));
            assert(ms.take(u as int).last() == ms[u - 1]);
        }
        if is_role(&messages[u - 1], "user") {
            break;
        }
        u -= 1;
    }
    if u == 0 {
        assert(ms.take(0) =~= Seq::<ChatMessage>::empty());
        return Err(NoUserMessage);
    }
    proof {
        assert(ms.take(u as int).last() == ms[u - 1]);
    }
    let user = &messages[u - 1];
    let mut prompt: Vec<char> = Vec::new();
    let mut images: Vec<String> = Vec::new();
    match &user.content {
        Some(ChatContent::Text(t)) => {
            prompt = chars_of(t.as_str());
        },
        Some(ChatContent::Parts(parts)) => {
            let mut k: usize = 0;
            assert(parts@.take(0) =~= Seq::<ChatContentPart>::empty());
            while k < parts.len()
                invariant
                    k <= parts.len(),
                    (prompt@, crate::provider::strings_view(images@)) == parts_prompt(parts@.take(k as int)),
                decreases parts.len() - k,
            {
                proof {
                    assert(parts@.take(k + 1).drop_last() =~= parts@.take(k as int));
                    assert(parts@.take(k + 1).last() == parts@[k as int]);
                }
                match &parts[k] {
                    ChatContentPart::Text { text } => {
                        extend_str(&mut prompt, text.as_str());
                    },
                    ChatContentPart::ImageUrl { image_url } => {
                        let ghost before = crate::provider::strings_view(images@);
                        images.push(image_url.url.clone());
                        assert(crate::provider::strings_view(images@) =~= before.push(image_url.url@));
                    },
                }
                k += 1;
            }
            assert(parts@.take(parts.len() as int) =~= parts@);
        },
        None => {
            assert(crate::provider::strings_view(images@) =~= Seq::<Seq<char>>::empty());
        },
    }
    // the injected context, joined by blank lines
    let mut joined: Vec<char> = Vec::new();
    if extra.len() > 0 {
        extend_chars(&mut joined, extra[0].as_slice());
        assert(lv.take(1) =~= seq![extra@[0]@]);
        let mut k: usize = 1;
        while k < extra.len()
            invariant
                1 <= k <= extra.len(),
                lv == extra@.map_values(|v: Vec<char>| v@),
                joined@ == join_with(lv.take(k as int), "\n\n"@),
            decreases extra.len() - k,
        {
            extend_str(&mut joined, "\n\n");
            extend_chars(&mut joined, extra[k].as_slice());
            proof {
                assert(lv.take(k + 1).drop_last() =~= lv.take(k as int));
                assert(lv.take(k + 1).last() == extra@[k as int]@);
            }
            k += 1;
        }
        assert(lv.take(extra.len() as int) =~= lv);
    }
    let full: Vec<char> = if joined.len() == 0 {
        prompt
    } else {
        let mut out = chars_of("<gqy-context>\n");
        extend_chars(&mut out, joined.as_slice());
        extend_str(&mut out, "\n</gqy-context>\n\n用户输入：");
        extend_chars(&mut out, prompt.as_slice());
        out
    };
    Ok((persona_text, string_of(full.as_slice()), images))
}


// ---------------------------------------------------------------- the stream

/// Whether the `pi` process has to be (re)started for a persona: when none runs,
/// or it was started with another persona.
pub fn needs_respawn(running: bool, current_persona: Option<&str>, persona: &str) -> (r: bool)
    ensures
        r == (!running || match current_persona {
            Some(p) => p@ != persona@,
            None => true,
        }),
{
    if !running {
        return true;
    }
    match current_persona {
        Some(p) => !crate::text::seq_eq(chars_of(p).as_slice(), chars_of(persona).as_slice()),
        None => true,
    }
}

/// Where a turn stands while pi streams events.
pub struct PiTurn {
    pub request_id: String,
    /// pi acknowledged this turn's prompt; events before that belong to an
    /// earlier turn.
    pub saw_response: bool,
    pub content: String,
    pub reasoning: String,
    pub provider_id: Option<String>,
    pub model: Option<String>,
    pub usage: Usage,
    pub usage_seen: bool,
    /// A thinking block is open in the front end.
    pub thinking_open: bool,
}

/// What an event makes the caller show.
pub enum PiOutput {
    Content(String),
    ReasoningPartStart,
    Reasoning(String),
    ReasoningPartEnd,
    /// A tool started, with its arguments (an empty object when none came).
    ToolStarted { name: String, args: Option<JsonValue> },
    ToolOutput { name: String, output: String },
    ToolResult { name: String, ok: bool, output: String },
}

/// How the turn goes on after an event.
#[derive(Debug, Clone, PartialEq, Eq, Structural)]
pub enum PiProgress {
    Continue,
    /// pi settled: the turn is over.
    Finished,
    /// pi refused the prompt, with its error.
    Rejected,
}

/// The state as plain values.
pub struct PiTurnView {
    pub saw_response: bool,
    pub content: Seq<char>,
    pub reasoning: Seq<char>,
    pub provider_id: Option<Seq<char>>,
    pub model: Option<Seq<char>>,
    pub usage: Usage,
    pub usage_seen: bool,
    pub thinking_open: bool,
}

pub open spec fn turn_view(t: PiTurn) -> PiTurnView {
    PiTurnView {
        saw_response: t.saw_response,
        content: t.content@,
        reasoning: t.reasoning@,
        provider_id: crate::provider::opt_string_view(t.provider_id),
        model: crate::provider::opt_string_view(t.model),
        usage: t.usage,
        usage_seen: t.usage_seen,
        thinking_open: t.thinking_open,
    }
}

/// An output as plain values.
pub enum PiEmit {
    Content(Seq<char>),
    ReasoningPartStart,
    Reasoning(Seq<char>),
    ReasoningPartEnd,
    ToolStarted(Seq<char>, Option<JsonValue>),
    ToolOutput(Seq<char>, Seq<char>),
    ToolResult(Seq<char>, bool, Seq<char>),
}

pub open spec fn emit_of(o: PiOutput) -> PiEmit {
    match o {
        PiOutput::Content(t) => PiEmit::Content(t@),
        PiOutput::ReasoningPartStart => PiEmit::ReasoningPartStart,
        PiOutput::Reasoning(t) => PiEmit::Reasoning(t@),
        PiOutput::ReasoningPartEnd => PiEmit::ReasoningPartEnd,
        PiOutput::ToolStarted { name, args } => PiEmit::ToolStarted(name@, args),
        PiOutput::ToolOutput { name, output } => PiEmit::ToolOutput(name@, output@),
        PiOutput::ToolResult { name, ok, output } => PiEmit::ToolResult(name@, ok, output@),
    }
}

pub open spec fn emits_of(os: Seq<PiOutput>) -> Seq<PiEmit> {
    os.map_values(|o: PiOutput| emit_of(o))
}

/// The texts of a tool result's content parts, run together.
pub open spec fn parts_text(parts: Seq<JsonValue>) -> Seq<char>
    decreases parts.len(),
{
    if parts.len() == 0 {
        seq![]
    } else {
        parts_text(parts.drop_last()) + match as_str(get(parts.last(), "text"@)) {
            Some(t) => t,
            None => seq![],
        }
    }
}

pub open spec fn content_text(result: Option<JsonValue>) -> Seq<char> {
    match get_opt(result, "content"@) {
        Some(JsonValue::Array(parts)) => parts_text(parts@),
        _ => seq![],
    }
}

pub open spec fn tool_name(ev: JsonValue) -> Seq<char> {
    match as_str(get(ev, "toolName"@)) {
        Some(n) => n,
        None => "tool"@,
    }
}

pub open spec fn u64_or_zero(v: Option<JsonValue>) -> u64 {
    match as_u64(v) {
        Some(n) => n as u64,
        None => 0,
    }
}

/// The usage after a message reported `input`, `output`, cache reads and cache
/// writes (all added, saturating).
pub open spec fn usage_added(u: Usage, input: u64, output: u64, cache_read: u64, cache_write: u64) -> Usage {
    Usage {
        prompt_tokens: sat_add(u.prompt_tokens, input),
        completion_tokens: sat_add(u.completion_tokens, output),
        total_tokens: sat_add(u.total_tokens, sat_add(input, output)),
        cache_read_input_tokens: Some(
            sat_add(
                match u.cache_read_input_tokens {
                    Some(c) => c,
                    None => 0,
                },
                cache_read,
            ),
        ),
        cache_creation_input_tokens: Some(
            sat_add(
                match u.cache_creation_input_tokens {
                    Some(c) => c,
                    None => 0,
                },
                cache_write,
            ),
        ),
    }
}

/// One event: before pi acknowledges the prompt, only the matching `response`
/// counts (a failed one rejects the turn); after it, text and thinking deltas
/// are shown and collected (a thinking block is opened once), tool starts,
/// updates and ends are reported, message usage is added, and `agent_settled`
/// closes the thinking block and ends the turn.
pub open spec fn pi_step(t: PiTurnView, request_id: Seq<char>, ev: JsonValue) -> (PiTurnView, Seq<PiEmit>, PiProgress) {
    let kind = as_str(get(ev, "type"@));
    if kind is None {
        (t, seq![], PiProgress::Continue)
    } else if !t.saw_response {
        if kind == Some("response"@) && as_str(get(ev, "command"@)) == Some("prompt"@) && as_str(
            get(ev, "id"@),
        ) == Some(request_id) {
            let t2 = PiTurnView { saw_response: true, ..t };
            if as_bool(get(ev, "success"@)) != Some(true) {
                (t2, seq![], PiProgress::Rejected)
            } else {
                (t2, seq![], PiProgress::Continue)
            }
        } else {
            (t, seq![], PiProgress::Continue)
        }
    } else if kind == Some("message_update"@) {
        let message = get(ev, "message"@);
        let provider_id = if t.provider_id is None {
            as_str(get_opt(message, "provider"@))
        } else {
            t.provider_id
        };
        let model = if t.model is None {
            as_str(get_opt(message, "model"@))
        } else {
            t.model
        };
        let t1 = PiTurnView { provider_id, model, ..t };
        let aem = get(ev, "assistantMessageEvent"@);
        let delta = match as_str(get_opt(aem, "delta"@)) {
            Some(d) => d,
            None => seq![],
        };
        let aty = as_str(get_opt(aem, "type"@));
        if aem is Some && aty == Some("text_delta"@) && delta.len() > 0 {
            (PiTurnView { content: t1.content + delta, ..t1 }, seq![PiEmit::Content(delta)], PiProgress::Continue)
        } else if aem is Some && aty == Some("thinking_delta"@) && delta.len() > 0 {
            let t2 = PiTurnView { reasoning: t1.reasoning + delta, thinking_open: true, ..t1 };
            if t1.thinking_open {
                (t2, seq![PiEmit::Reasoning(delta)], PiProgress::Continue)
            } else {
                (t2, seq![PiEmit::ReasoningPartStart, PiEmit::Reasoning(delta)], PiProgress::Continue)
            }
        } else {
            (t1, seq![], PiProgress::Continue)
        }
    } else if kind == Some("tool_execution_start"@) {
        (t, seq![PiEmit::ToolStarted(tool_name(ev), get(ev, "args"@))], PiProgress::Continue)
    } else if kind == Some("tool_execution_update"@) {
        let output = content_text(get(ev, "partialResult"@));
        if output.len() > 0 {
            (t, seq![PiEmit::ToolOutput(tool_name(ev), output)], PiProgress::Continue)
        } else {
            (t, seq![], PiProgress::Continue)
        }
    } else if kind == Some("tool_execution_end"@) {
        let ok = match as_bool(get(ev, "isError"@)) {
            Some(e) => !e,
            None => true,
        };
        (t, seq![PiEmit::ToolResult(tool_name(ev), ok, content_text(get(ev, "result"@)))], PiProgress::Continue)
    } else if kind == Some("message_end"@) {
        let u = get_opt(get(ev, "message"@), "usage"@);
        if u is Some {
            let input = u64_or_zero(get_opt(u, "input"@));
            let output = u64_or_zero(get_opt(u, "output"@));
            let cache_read = u64_or_zero(get_opt(u, "cacheRead"@));
            let cache_write = u64_or_zero(get_opt(u, "cacheWrite"@));
            if input > 0 || output > 0 || cache_read > 0 {
                (
                    PiTurnView {
                        usage: usage_added(t.usage, input, output, cache_read, cache_write),
                        usage_seen: true,
                        ..t
                    },
                    seq![],
                    PiProgress::Continue,
                )
            } else {
                (t, seq![], PiProgress::Continue)
            }
        } else {
            (t, seq![], PiProgress::Continue)
        }
    } else if kind == Some("agent_settled"@) {
        if t.thinking_open {
            (PiTurnView { thinking_open: false, ..t }, seq![PiEmit::ReasoningPartEnd], PiProgress::Finished)
        } else {
            (t, seq![], PiProgress::Finished)
        }
    } else {
        (t, seq![], PiProgress::Continue)
    }
}

fn parts_text_exec(v: Option<&JsonValue>) -> (r: Vec<char>)
    ensures
        r@ == match deref_opt(v) {
            Some(JsonValue::Array(parts)) => parts_text(parts@),
            _ => seq![],
        },
{
    match v {
        Some(JsonValue::Array(parts)) => {
            let mut out: Vec<char> = Vec::new();
            let mut k: usize = 0;
            while k < parts.len()
                invariant
                    k <= parts.len(),
                    out@ == parts_text(parts@.take(k as int)),
                decreases parts.len() - k,
            {
                proof {
                    assert(parts@.take(k + 1).drop_last() =~= parts@.take(k as int));
                    assert(parts@.take(k + 1).last() == parts@[k as int]);
                }
                match json_as_str(json_get(&parts[k], "text")) {
                    Some(t) => { extend_str(&mut out, t); },
                    None => {},
                }
                k += 1;
            }
            assert(parts@.take(parts.len() as int) =~= parts@);
            out
        },
        _ => Vec::new(),
    }
}

fn tool_name_exec(ev: &JsonValue) -> (r: String)
    ensures
        r@ == tool_name(*ev),
{
    match json_as_str(json_get(ev, "toolName")) {
        Some(n) => n.to_string(),
        None => "tool".to_string(),
    }
}

fn u64_or_zero_exec(v: Option<&JsonValue>) -> (r: u64)
    ensures
        r == u64_or_zero(deref_opt(v)),
{
    match json_as_u64(v) {
        Some(n) => n,
        None => 0,
    }
}

fn opt_str_eq(v: Option<&str>, lit: &str) -> (r: bool)
    ensures
        r == (match v {
            Some(s) => Some(s@),
            None => None,
        } == Some(lit@)),
{
    match v {
        Some(s) => str_is(chars_of(s).as_slice(), lit),
        None => false,
    }
}

impl PiTurn {
    pub fn new(request_id: String) -> (r: PiTurn)
        ensures
            r.request_id == request_id,
            !r.saw_response && !r.usage_seen && !r.thinking_open,
            r.content@.len() == 0 && r.reasoning@.len() == 0,
            r.provider_id is None && r.model is None,
            r.usage.prompt_tokens == 0 && r.usage.completion_tokens == 0 && r.usage.total_tokens == 0,
            r.usage.cache_read_input_tokens is None && r.usage.cache_creation_input_tokens is None,
    {
        PiTurn {
            request_id,
            saw_response: false,
            content: String::new(),
            reasoning: String::new(),
            provider_id: None,
            model: None,
            usage: Usage {
                prompt_tokens: 0,
                completion_tokens: 0,
                total_tokens: 0,
                cache_read_input_tokens: None,
                cache_creation_input_tokens: None,
            },
            usage_seen: false,
            thinking_open: false,
        }
    }

    /// Moves the turn on by one event, as `pi_step` says.
    pub fn step(&mut self, ev: JsonValue) -> (r: (Vec<PiOutput>, PiProgress))
        ensures
            final(self).request_id == old(self).request_id,
            ({
                let (t, out, progress) = pi_step(turn_view(*old(self)), old(self).request_id@, ev);
                turn_view(*final(self)) == t && emits_of(r.0@) == out && r.1 == progress
            }),
    {
        let mut out: Vec<PiOutput> = Vec::new();
        let kind: Option<&str> = json_as_str(json_get(&ev, "type"));
        if kind.is_none() {
            return (out, PiProgress::Continue);
        }
        if !self.saw_response {
            let rid = chars_of(self.request_id.as_str());
            let matches = opt_str_eq(kind, "response") && opt_str_eq(
                json_as_str(json_get(&ev, "command")),
                "prompt",
            ) && match json_as_str(json_get(&ev, "id")) {
                Some(i) => crate::text::seq_eq(chars_of(i).as_slice(), rid.as_slice()),
                None => false,
            };
            if matches {
                self.saw_response = true;
                if json_as_bool(json_get(&ev, "success")) != Some(true) {
                    return (out, PiProgress::Rejected);
                }
            }
            return (out, PiProgress::Continue);
        }
        if opt_str_eq(kind, "message_update") {
            let message = json_get(&ev, "message");
            if self.provider_id.is_none() {
                self.provider_id = match json_as_str(json_get_opt(message, "provider")) {
                    Some(p) => Some(p.to_string()),
                    None => None,
                };
            }
            if self.model.is_none() {
                self.model = match json_as_str(json_get_opt(message, "model")) {
                    Some(m) => Some(m.to_string()),
                    None => None,
                };
            }
            let aem = json_get(&ev, "assistantMessageEvent");
            let delta: Vec<char> = match json_as_str(json_get_opt(aem, "delta")) {
                Some(d) => chars_of(d),
                None => Vec::new(),
            };
            let aty = json_as_str(json_get_opt(aem, "type"));
            if aem.is_some() && opt_str_eq(aty, "text_delta") && delta.len() > 0 {
                let mut c = chars_of(self.content.as_str());
                extend_chars(&mut c, delta.as_slice());
                self.content = string_of(c.as_slice());
                out.push(PiOutput::Content(string_of(delta.as_slice())));
                assert(emits_of(out@) =~= seq![PiEmit::Content(delta@)]);
            } else if aem.is_some() && opt_str_eq(aty, "thinking_delta") && delta.len() > 0 {
                if !self.thinking_open {
                    self.thinking_open = true;
                    out.push(PiOutput::ReasoningPartStart);
                }
                let mut c = chars_of(self.reasoning.as_str());
                extend_chars(&mut c, delta.as_slice());
                self.reasoning = string_of(c.as_slice());
                out.push(PiOutput::Reasoning(string_of(delta.as_slice())));
                assert(emits_of(out@) =~= seq![PiEmit::Reasoning(delta@)] || emits_of(out@)
                    =~= seq![PiEmit::ReasoningPartStart, PiEmit::Reasoning(delta@)]);
            } else {
                assert(emits_of(out@) =~= Seq::<PiEmit>::empty());
            }
            return (out, PiProgress::Continue);
        }
        if opt_str_eq(kind, "tool_execution_start") {
            let name = tool_name_exec(&ev);
            let args = take_member(ev, "args");
            out.push(PiOutput::ToolStarted { name, args });
            assert(emits_of(out@) =~= seq![emit_of(out@[0])]);
            return (out, PiProgress::Continue);
        }
        if opt_str_eq(kind, "tool_execution_update") {
            let name = tool_name_exec(&ev);
            let output = parts_text_exec(json_get_opt(json_get(&ev, "partialResult"), "content"));
            if output.len() > 0 {
                out.push(PiOutput::ToolOutput { name, output: string_of(output.as_slice()) });
                assert(emits_of(out@) =~= seq![emit_of(out@[0])]);
            } else {
                assert(emits_of(out@) =~= Seq::<PiEmit>::empty());
            }
            return (out, PiProgress::Continue);
        }
        if opt_str_eq(kind, "tool_execution_end") {
            let name = tool_name_exec(&ev);
            let ok = match json_as_bool(json_get(&ev, "isError")) {
                Some(e) => !e,
                None => true,
            };
            let output = parts_text_exec(json_get_opt(json_get(&ev, "result"), "content"));
            out.push(PiOutput::ToolResult { name, ok, output: string_of(output.as_slice()) });
            assert(emits_of(out@) =~= seq![emit_of(out@[0])]);
            return (out, PiProgress::Continue);
        }
        if opt_str_eq(kind, "message_end") {
            let u = json_get_opt(json_get(&ev, "message"), "usage");
            if u.is_some() {
                let input = u64_or_zero_exec(json_get_opt(u, "input"));
                let output = u64_or_zero_exec(json_get_opt(u, "output"));
                let cache_read = u64_or_zero_exec(json_get_opt(u, "cacheRead"));
                let cache_write = u64_or_zero_exec(json_get_opt(u, "cacheWrite"));
                if input > 0 || output > 0 || cache_read > 0 {
                    self.usage_seen = true;
                    let prev = self.usage;
                    self.usage = Usage {
                        prompt_tokens: prev.prompt_tokens.saturating_add(input),
                        completion_tokens: prev.completion_tokens.saturating_add(output),
                        total_tokens: prev.total_tokens.saturating_add(input.saturating_add(output)),
                        cache_read_input_tokens: Some(
                            match prev.cache_read_input_tokens {
                                Some(c) => c,
                                None => 0,
                            }.saturating_add(cache_read),
                        ),
                        cache_creation_input_tokens: Some(
                            match prev.cache_creation_input_tokens {
                                Some(c) => c,
                                None => 0,
                            }.saturating_add(cache_write),
                        ),
                    };
                }
            }
            assert(emits_of(out@) =~= Seq::<PiEmit>::empty());
            return (out, PiProgress::Continue);
        }
        if opt_str_eq(kind, "agent_settled") {
            if self.thinking_open {
                self.thinking_open = false;
                out.push(PiOutput::ReasoningPartEnd);
                assert(emits_of(out@) =~= seq![PiEmit::ReasoningPartEnd]);
            } else {
                assert(emits_of(out@) =~= Seq::<PiEmit>::empty());
            }
            return (out, PiProgress::Finished);
        }
        assert(emits_of(out@) =~= Seq::<PiEmit>::empty());
        (out, PiProgress::Continue)
    }

    /// What the finished turn returns: the content, the reasoning when not
    /// blank, the usage when pi reported any (estimated otherwise), and `pi` as
    /// the provider when pi named none.
    pub fn into_result(self) -> (r: ChatResult)
        ensures
            r.content == self.content,
            r.reasoning == (if trim(self.reasoning@).len() == 0 { None } else { Some(self.reasoning) }),
            r.usage == (if self.usage_seen { Some(self.usage) } else { None }),
            r.usage_estimated == !self.usage_seen,
            r.tool_calls@.len() == 0,
            match self.provider_id {
                Some(p) => r.provider_id == Some(p),
                None => r.provider_id matches Some(p) && p@ == "pi"@,
            },
            r.model == self.model,
    {
        let reasoning = if trim_str(self.reasoning.as_str()).len() == 0 {
            None
        } else {
            Some(self.reasoning)
        };
        let provider_id = match self.provider_id {
            Some(p) => Some(p),
            None => Some("pi".to_string()),
        };
        ChatResult {
            content: self.content,
            reasoning,
            usage: if self.usage_seen {
                Some(self.usage)
            } else {
                None
            },
            usage_estimated: !self.usage_seen,
            tool_calls: Vec::new(),
            provider_id,
            model: self.model,
        }
    }
}

} // verus!

verus! {

// ---------------------------------------------------------------- images and settings

/// The turn timeout when `GQY_PI_TURN_TIMEOUT` does not say otherwise.
pub const DEFAULT_TURN_TIMEOUT_SECS: u64 = 1800;

/// Seconds a turn may take: the `GQY_PI_TURN_TIMEOUT` value when it reads as
/// a number (after trimming), else the default.
pub fn turn_timeout_secs(env_value: Option<&str>) -> (r: u64)
    ensures
        r as nat == match env_value {
            Some(v) => match crate::numbers::parse_unsigned(trim(v@), u64::MAX as nat) {
                Some(n) => n,
                None => DEFAULT_TURN_TIMEOUT_SECS as nat,
            },
            None => DEFAULT_TURN_TIMEOUT_SECS as nat,
        },
{
    match env_value {
        Some(v) => match crate::numbers::parse_unsigned_chars(trim_str(v).as_slice(), u64::MAX) {
            Some(n) => n,
            None => DEFAULT_TURN_TIMEOUT_SECS,
        },
        None => DEFAULT_TURN_TIMEOUT_SECS,
    }
}

/// `Path::extension` of a path.
pub open spec fn path_extension(p: Seq<char>) -> Option<Seq<char>> {
    match crate::paths::file_name(p) {
        Some(n) => crate::paths::extension_of(n),
        None => None,
    }
}

/// An image's MIME type by its extension (any ASCII case); PNG when unknown.
pub open spec fn mime_of(ext: Seq<char>) -> Seq<char> {
    let e = crate::text::ascii_lower_seq(ext);
    if e == "jpg"@ || e == "jpeg"@ {
        "image/jpeg"@
    } else if e == "gif"@ {
        "image/gif"@
    } else if e == "webp"@ {
        "image/webp"@
    } else if e == "bmp"@ {
        "image/bmp"@
    } else {
        "image/png"@
    }
}

pub fn image_mime(path: &str) -> (r: &'static str)
    ensures
        r@ == mime_of(match path_extension(path@) {
            Some(e) => e,
            None => seq![],
        }),
{
    let p = chars_of(path);
    let ext: Vec<char> = match crate::paths::file_name_of(p.as_slice()) {
        Some(n) => match crate::paths::extension_of_name(n.as_slice()) {
            Some(e) => e,
            None => Vec::new(),
        },
        None => Vec::new(),
    };
    let e = crate::text::ascii_lower_chars(ext.as_slice());
    if str_is(e.as_slice(), "jpg") || str_is(e.as_slice(), "jpeg") {
        "image/jpeg"
    } else if str_is(e.as_slice(), "gif") {
        "image/gif"
    } else if str_is(e.as_slice(), "webp") {
        "image/webp"
    } else if str_is(e.as_slice(), "bmp") {
        "image/bmp"
    } else {
        "image/png"
    }
}

/// Where an image of a turn comes from.
#[derive(Debug)]
pub enum ImageSource {
    /// A `data:` URL: its base64 data and MIME type.
    Inline { data: String, mime: String },
    /// A `file://` URL: this file must be read.
    FileUrl(String),
    /// A bare path: read when it is a file, skipped otherwise.
    Path(String),
    /// Anything else (a web URL, a malformed data URL): the text goes alone.
    Skip,
}

/// How a turn's image URL reaches the agent base.
pub fn image_source(url: &str) -> (r: ImageSource)
    ensures
        ({
            let u = url@;
            if crate::text::starts_with(u, "data:"@) {
                let rest = u.skip(5);
                if crate::text::has_char(rest, ',') {
                    let i = choose|i: int| 0 <= i < rest.len() && rest[i] == ',' && forall|j: int| 0 <= j < i ==> rest[j] != ',';
                    let header = rest.take(i);
                    r matches ImageSource::Inline { data, mime } && data@ == rest.skip(i + 1)
                        && mime@ == crate::text::split_char(header, ';')[0]
                } else {
                    r is Skip
                }
            } else if crate::text::starts_with(u, "file://"@) {
                r matches ImageSource::FileUrl(p) && p@ == u.skip(7)
            } else {
                r matches ImageSource::Path(p) && p@ == u
            }
        }),
{
    let u = chars_of(url);
    proof {
        reveal_strlit("data:");
        reveal_strlit("file://");
    }
    if crate::text::has_prefix_str(u.as_slice(), "data:") {
        let rest = crate::text::slice_chars(u.as_slice(), 5, u.len());
        assert(rest@ =~= url@.skip(5));
        match crate::text::find_char(rest.as_slice(), ',') {
            Some(i) => {
                proof {
                    let c = choose|k: int| 0 <= k < rest@.len() && rest@[k] == ',' && forall|j: int| 0 <= j < k ==> rest@[j] != ',';
                    assert(!(c < i as int));
                    assert(!(c > i as int));
                }
                let header = crate::text::slice_chars(rest.as_slice(), 0, i);
                let data = crate::text::slice_chars(rest.as_slice(), i + 1, rest.len());
                assert(data@ =~= rest@.skip(i + 1));
                let pieces = crate::text::split_on_char(header.as_slice(), ';');
                proof {
                    crate::text::lemma_split_char_nonempty(header@, ';');
                }
                ImageSource::Inline { data: string_of(data.as_slice()), mime: string_of(pieces[0].as_slice()) }
            },
            None => ImageSource::Skip,
        }
    } else if crate::text::has_prefix_str(u.as_slice(), "file://") {
        let rest = crate::text::slice_chars(u.as_slice(), 7, u.len());
        assert(rest@ =~= url@.skip(7));
        ImageSource::FileUrl(string_of(rest.as_slice()))
    } else {
        ImageSource::Path(url.to_string())
    }
}

/// An image as the agent base takes it: `{"type": "image", "data", "mimeType"}`.
pub open spec fn rpc_image(r: JsonValue, data: Seq<char>, mime: Seq<char>) -> bool {
    r is Object && r->Object_0@.len() == 3 && r->Object_0@[0].0@ == "type"@ && r->Object_0@[0].1 is String
        && r->Object_0@[0].1->String_0@ == "image"@ && r->Object_0@[1].0@ == "data"@
        && r->Object_0@[1].1 is String && r->Object_0@[1].1->String_0@ == data
        && r->Object_0@[2].0@ == "mimeType"@ && r->Object_0@[2].1 is String
        && r->Object_0@[2].1->String_0@ == mime
}

pub fn inline_image(data: &str, mime: &str) -> (r: JsonValue)
    ensures
        rpc_image(r, data@, mime@),
{
    let mut es: Vec<(String, JsonValue)> = Vec::new();
    es.push(("type".to_string(), JsonValue::String("image".to_string())));
    es.push(("data".to_string(), JsonValue::String(data.to_string())));
    es.push(("mimeType".to_string(), JsonValue::String(mime.to_string())));
    JsonValue::Object(es)
}

/// A read image file for the agent base: its bytes in base64, its MIME type by
/// its extension.
pub fn encoded_image(path: &str, bytes: &[u8]) -> (r: JsonValue)
    requires
        bytes@.len() <= 3 * (usize::MAX / 4),
    ensures
        rpc_image(
            r,
            crate::qq_outbox::base64_standard(bytes@),
            mime_of(match path_extension(path@) {
                Some(e) => e,
                None => seq![],
            }),
        ),
{
    let data = crate::qq_outbox::base64_encode(bytes);
    inline_image(data.as_str(), image_mime(path))
}

/// The tools a subagent's agent base may not have: those that start further
/// agents or research.
pub open spec fn recursive_tool(name: Option<Seq<char>>) -> bool {
    match name {
        Some(n) => n == "task"@ || n == "deep_research"@ || n == "spawn_agent"@ || n == "talk_to_agent"@
            || n == "list_agents"@ || n == "kill_agent"@,
        None => false,
    }
}

/// Which entries of the bridge's tool list a subagent keeps (by each entry's
/// `name`); none when nothing would be dropped, so the full list is used.
pub fn subagent_tool_mask(names: &[Option<String>]) -> (r: Option<Vec<bool>>)
    ensures
        match r {
            Some(keep) => keep@.len() == names@.len() && (exists|i: int| 0 <= i < names@.len() && recursive_tool(
                #[trigger] crate::import_manage::opt_view(names@[i]),
            )) && forall|i: int| 0 <= i < names@.len() ==> keep@[i] == !recursive_tool(
                #[trigger] crate::import_manage::opt_view(names@[i]),
            ),
            None => forall|i: int| 0 <= i < names@.len() ==> !recursive_tool(
                #[trigger] crate::import_manage::opt_view(names@[i]),
            ),
        },
{
    let mut keep: Vec<bool> = Vec::new();
    let mut dropped = false;
    let mut i: usize = 0;
    while i < names.len()
        invariant
            i <= names.len(),
            keep@.len() == i,
            forall|k: int| 0 <= k < i ==> keep@[k] == !recursive_tool(
                #[trigger] crate::import_manage::opt_view(names@[k]),
            ),
            dropped == exists|k: int| 0 <= k < i && recursive_tool(
                #[trigger] crate::import_manage::opt_view(names@[k]),
            ),
        decreases names.len() - i,
    {
        let rec = match &names[i] {
            Some(n) => {
                let c = chars_of(n.as_str());
                let s = c.as_slice();
                str_is(s, "task") || str_is(s, "deep_research") || str_is(s, "spawn_agent") || str_is(
                    s,
                    "talk_to_agent",
                ) || str_is(s, "list_agents") || str_is(s, "kill_agent")
            },
            None => false,
        };
        proof {
            assert(rec == recursive_tool(crate::import_manage::opt_view(names@[i as int])));
            if !rec {
                assert forall|k: int| 0 <= k < i + 1 && recursive_tool(
                    #[trigger] crate::import_manage::opt_view(names@[k]),
                ) implies k < i by {}
            }
        }
        keep.push(!rec);
        if rec {
            dropped = true;
        }
        i += 1;
    }
    if dropped {
        Some(keep)
    } else {
        None
    }
}

/// The agent base's tool-bridge extension: only in agent-base mode; the
/// `GQY_PI_EXTENSION` file when it exists, else `pi-bridge.ts` of the system
/// scripts when it exists.
pub fn bridge_extension(
    tool_api_set: bool,
    override_path: Option<&str>,
    override_is_file: bool,
    system_scripts_dir: &str,
    bundled_is_file: bool,
) -> (r: Option<String>)
    ensures
        match r {
            Some(p) => tool_api_set && match override_path {
                Some(o) => if override_is_file {
                    p@ == o@
                } else {
                    bundled_is_file && p@ == crate::paths::join_spec(system_scripts_dir@, "pi-bridge.ts"@)
                },
                None => bundled_is_file && p@ == crate::paths::join_spec(system_scripts_dir@, "pi-bridge.ts"@),
            },
            None => !tool_api_set || (!(override_path is Some && override_is_file) && !bundled_is_file),
        },
{
    if !tool_api_set {
        return None;
    }
    match override_path {
        Some(o) => if override_is_file {
            return Some(o.to_string());
        },
        None => {},
    }
    if bundled_is_file {
        Some(crate::paths::join_path(system_scripts_dir, "pi-bridge.ts"))
    } else {
        None
    }
}

} // verus!
