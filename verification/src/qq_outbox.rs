//! The QQ bridge's outboxes. The tools the bridge gives its agent (tell the
//! owner something, send the current chat an image or a file) do not hold the
//! connection: they append a JSON line to an outbox file, and the bridge sends
//! what is queued after the turn. This module decides what the tools queue and
//! answer, and what the bridge takes out and sends.
use vstd::prelude::*;
use crate::json::{as_str, get, json_as_str, json_get, JsonNumber, JsonValue};
use crate::paths::{file_name, file_name_of, join_path, join_spec, GqyPaths};
use crate::text::{chars_of, extend_chars, extend_str, str_is, string_of, trim, trim_str};

verus! {

/// `<state>/qq-outbox.jsonl`: messages for the owner.
pub fn outbox_file(paths: &GqyPaths) -> (r: String)
    ensures
        r@ == join_spec(paths.state_dir@, "qq-outbox.jsonl"@),
{
    join_path(paths.state_dir.as_str(), "qq-outbox.jsonl")
}

/// `<state>/qq-media-outbox.jsonl`: images and files for a conversation.
pub fn media_outbox_file(paths: &GqyPaths) -> (r: String)
    ensures
        r@ == join_spec(paths.state_dir@, "qq-media-outbox.jsonl"@),
{
    join_path(paths.state_dir.as_str(), "qq-media-outbox.jsonl")
}

/// The trimmed text of a string argument; empty when absent or not a string.
pub open spec fn text_arg(args: JsonValue, key: Seq<char>) -> Seq<char> {
    match as_str(get(args, key)) {
        Some(s) => trim(s),
        None => seq![],
    }
}

/// Reads a string argument as the tools do.
pub fn requested_text(args: &JsonValue, key: &str) -> (r: String)
    ensures
        r@ == text_arg(*args, key@),
{
    match json_as_str(json_get(args, key)) {
        Some(s) => string_of(trim_str(s).as_slice()),
        None => String::new(),
    }
}

pub open spec fn int_number(ts: i64) -> JsonValue {
    if ts >= 0 {
        JsonValue::Number(JsonNumber::PosInt(ts as u64))
    } else {
        JsonValue::Number(JsonNumber::NegInt(ts))
    }
}

fn int_value(ts: i64) -> (r: JsonValue)
    ensures
        r == int_number(ts),
{
    if ts >= 0 {
        JsonValue::Number(JsonNumber::PosInt(ts as u64))
    } else {
        JsonValue::Number(JsonNumber::NegInt(ts))
    }
}

/// A member whose value is a string.
pub open spec fn str_entry(e: (String, JsonValue), key: Seq<char>, text: Seq<char>) -> bool {
    e.0@ == key && e.1 is String && e.1->String_0@ == text
}

fn str_member(key: &str, text: &str) -> (r: (String, JsonValue))
    ensures
        str_entry(r, key@, text@),
{
    (key.to_string(), JsonValue::String(text.to_string()))
}

fn prefixed(prefix: &str, text: &str) -> (r: String)
    ensures
        r@ == prefix@ + text@,
{
    let mut m = chars_of(prefix);
    extend_str(&mut m, text);
    string_of(m.as_slice())
}

fn message_with(prefix: &str, text: &str, suffix: &str) -> (r: String)
    ensures
        r@ == prefix@ + text@ + suffix@,
{
    let mut m = chars_of(prefix);
    extend_str(&mut m, text);
    extend_str(&mut m, suffix);
    string_of(m.as_slice())
}

// ---------------------------------------------------------------- notify_owner

/// What `notify_owner` does with its `message` argument: an empty message is
/// not queued; otherwise `{"ts", "message"}` is, and the tool says so.
pub fn notify_owner(args: &JsonValue, now: i64) -> (r: (Option<JsonValue>, String))
    ensures
        ({
            let m = text_arg(*args, "message"@);
            if m.len() == 0 {
                r.0 is None && r.1@ == "转告内容为空，没有发送。"@
            } else {
                &&& r.0 matches Some(e) && e is Object && e->Object_0@.len() == 2
                    && e->Object_0@[0].0@ == "ts"@ && e->Object_0@[0].1 == int_number(now)
                    && str_entry(e->Object_0@[1], "message"@, m)
                &&& r.1@ == "已把内容写入转告队列，稍后私信发给主人。内容："@ + m
            }
        }),
{
    let message = requested_text(args, "message");
    let m = chars_of(message.as_str());
    if m.len() == 0 {
        return (None, "转告内容为空，没有发送。".to_string());
    }
    let mut es: Vec<(String, JsonValue)> = Vec::new();
    es.push(("ts".to_string(), int_value(now)));
    es.push(str_member("message", message.as_str()));
    let reply = prefixed("已把内容写入转告队列，稍后私信发给主人。内容：", message.as_str());
    proof {
        assert(reply@ =~= "已把内容写入转告队列，稍后私信发给主人。内容："@ + message@);
    }
    (Some(JsonValue::Object(es)), reply)
}

// ---------------------------------------------------------------- qq_send_image

/// What `qq_send_image` does with the trimmed `image_path` argument and
/// whether a file is there: nothing for an empty or missing path; otherwise
/// `{"ts", "conversation_id", "image_path"}` is queued.
pub fn queue_image(conversation_id: &str, image_path: &str, is_file: bool, now: i64) -> (r: (Option<JsonValue>, String))
    ensures
        image_path@.len() == 0 ==> r.0 is None && r.1@ == "图片路径为空，没有发送。"@,
        image_path@.len() > 0 && !is_file ==> r.0 is None && r.1@ == "图片不存在："@ + image_path@
            + "（请先用真实存在的路径）。"@,
        image_path@.len() > 0 && is_file ==> ({
            &&& r.0 matches Some(e) && e is Object && e->Object_0@.len() == 3
                && e->Object_0@[0].0@ == "ts"@ && e->Object_0@[0].1 == int_number(now)
                && str_entry(e->Object_0@[1], "conversation_id"@, conversation_id@)
                && str_entry(e->Object_0@[2], "image_path"@, image_path@)
            &&& r.1@ == "已把图片排入发送队列，稍后发给对方。路径："@ + image_path@
        }),
{
    if chars_of(image_path).len() == 0 {
        return (None, "图片路径为空，没有发送。".to_string());
    }
    if !is_file {
        return (None, message_with("图片不存在：", image_path, "（请先用真实存在的路径）。"));
    }
    let mut es: Vec<(String, JsonValue)> = Vec::new();
    es.push(("ts".to_string(), int_value(now)));
    es.push(str_member("conversation_id", conversation_id));
    es.push(str_member("image_path", image_path));
    let reply = prefixed("已把图片排入发送队列，稍后发给对方。路径：", image_path);
    proof {
        assert(reply@ =~= "已把图片排入发送队列，稍后发给对方。路径："@ + image_path@);
    }
    (Some(JsonValue::Object(es)), reply)
}

// ---------------------------------------------------------------- qq_send_file

/// The name a queued file is sent under: the trimmed `name` argument when not
/// blank, else the path's file name, else `file`.
pub open spec fn send_name(args: JsonValue, file_path: Seq<char>) -> Seq<char> {
    let n = text_arg(args, "name"@);
    if n.len() > 0 {
        n
    } else {
        match file_name(file_path) {
            Some(f) => f,
            None => "file"@,
        }
    }
}

/// What `qq_send_file` does with its arguments (the trimmed `file_path`) and
/// whether a file is there: nothing for an empty or missing path; otherwise
/// `{"ts", "conversation_id", "kind": "file", "file_path", "name"}` is queued.
pub fn queue_file(args: &JsonValue, conversation_id: &str, file_path: &str, is_file: bool, now: i64) -> (r: (Option<JsonValue>, String))
    ensures
        file_path@.len() == 0 ==> r.0 is None && r.1@ == "文件路径为空，没有发送。"@,
        file_path@.len() > 0 && !is_file ==> r.0 is None && r.1@ == "文件不存在："@ + file_path@
            + "（请先用真实存在的路径）。"@,
        file_path@.len() > 0 && is_file ==> ({
            &&& r.0 matches Some(e) && e is Object && e->Object_0@.len() == 5
                && e->Object_0@[0].0@ == "ts"@ && e->Object_0@[0].1 == int_number(now)
                && str_entry(e->Object_0@[1], "conversation_id"@, conversation_id@)
                && str_entry(e->Object_0@[2], "kind"@, "file"@)
                && str_entry(e->Object_0@[3], "file_path"@, file_path@)
                && str_entry(e->Object_0@[4], "name"@, send_name(*args, file_path@))
            &&& r.1@ == "已把文件排入发送队列，稍后发给对方。路径："@ + file_path@
        }),
{
    let fp = chars_of(file_path);
    if fp.len() == 0 {
        return (None, "文件路径为空，没有发送。".to_string());
    }
    if !is_file {
        return (None, message_with("文件不存在：", file_path, "（请先用真实存在的路径）。"));
    }
    let asked = requested_text(args, "name");
    let name: String = if chars_of(asked.as_str()).len() > 0 {
        asked
    } else {
        match file_name_of(fp.as_slice()) {
            Some(f) => string_of(f.as_slice()),
            None => "file".to_string(),
        }
    };
    let mut es: Vec<(String, JsonValue)> = Vec::new();
    es.push(("ts".to_string(), int_value(now)));
    es.push(str_member("conversation_id", conversation_id));
    es.push(str_member("kind", "file"));
    es.push(str_member("file_path", file_path));
    es.push(str_member("name", name.as_str()));
    let reply = prefixed("已把文件排入发送队列，稍后发给对方。路径：", file_path);
    proof {
        assert(reply@ =~= "已把文件排入发送队列，稍后发给对方。路径："@ + file_path@);
    }
    (Some(JsonValue::Object(es)), reply)
}

// ---------------------------------------------------------------- draining

/// The message of an owner-outbox line, when the line is JSON with a string
/// `message` that is not blank.
pub open spec fn owner_message(line: Option<JsonValue>) -> Option<Seq<char>> {
    match line {
        Some(v) => match as_str(get(v, "message"@)) {
            Some(m) => if trim(m).len() > 0 {
                Some(m)
            } else {
                None
            },
            None => None,
        },
        None => None,
    }
}

/// The messages of the owner outbox, in order, from its lines as parsed (none
/// for a line that is not JSON).
pub open spec fn owner_messages(lines: Seq<Option<JsonValue>>) -> Seq<Seq<char>>
    decreases lines.len(),
{
    if lines.len() == 0 {
        seq![]
    } else {
        let rest = owner_messages(lines.drop_last());
        match owner_message(lines.last()) {
            Some(m) => rest.push(m),
            None => rest,
        }
    }
}

pub open spec fn strs(v: Seq<String>) -> Seq<Seq<char>> {
    v.map_values(|s: String| s@)
}

pub fn drain_outbox_messages(lines: &[Option<JsonValue>]) -> (r: Vec<String>)
    ensures
        strs(r@) == owner_messages(lines@),
{
    let mut out: Vec<String> = Vec::new();
    let mut i: usize = 0;
    while i < lines.len()
        invariant
            i <= lines.len(),
            strs(out@) == owner_messages(lines@.take(i as int)),
        decreases lines.len() - i,
    {
        proof {
            assert(lines@.take(i + 1).drop_last() =~= lines@.take(i as int));
        }
        match &lines[i] {
            Some(v) => match json_as_str(json_get(v, "message")) {
                Some(m) => {
                    if trim_str(m).len() > 0 {
                        let ghost o = out@;
                        out.push(m.to_string());
                        proof {
                            assert(strs(out@) =~= strs(o).push(m@));
                        }
                    }
                },
                None => {},
            },
            None => {},
        }
        i += 1;
    }
    assert(lines@.take(lines.len() as int) =~= lines@);
    out
}

/// A queued image or file for the current conversation.
#[derive(Debug, Clone)]
pub struct MediaItem {
    /// A file (`kind` is `file`) rather than an image.
    pub is_file: bool,
    pub path: String,
    /// The name a file is sent under.
    pub name: String,
}

/// Whether a media line is queued for this conversation.
pub open spec fn for_conversation(line: Option<JsonValue>, conversation_id: Seq<char>) -> bool {
    line matches Some(v) && as_str(get(v, "conversation_id"@)) == Some(conversation_id)
}

/// Whether a queued entry is a file.
pub open spec fn is_file_kind(v: JsonValue) -> bool {
    as_str(get(v, "kind"@)) == Some("file"@)
}

/// The item a queued entry sends, when it names its path.
pub open spec fn media_item(v: JsonValue) -> Option<(bool, Seq<char>, Seq<char>)> {
    let file = is_file_kind(v);
    match as_str(get(v, if file { "file_path"@ } else { "image_path"@ })) {
        Some(p) => Some((
            file,
            p,
            match as_str(get(v, "name"@)) {
                Some(n) => n,
                None => "file"@,
            },
        )),
        None => None,
    }
}

pub open spec fn media_items(lines: Seq<Option<JsonValue>>, conversation_id: Seq<char>) -> Seq<(bool, Seq<char>, Seq<char>)>
    decreases lines.len(),
{
    if lines.len() == 0 {
        seq![]
    } else {
        let rest = media_items(lines.drop_last(), conversation_id);
        if for_conversation(lines.last(), conversation_id) {
            match media_item(lines.last()->0) {
                Some(it) => rest.push(it),
                None => rest,
            }
        } else {
            rest
        }
    }
}

/// The lines that stay queued after a send: those that parse and are for
/// another conversation (by index).
pub open spec fn kept_lines(lines: Seq<Option<JsonValue>>, conversation_id: Seq<char>) -> Seq<int>
    decreases lines.len(),
{
    if lines.len() == 0 {
        seq![]
    } else {
        let rest = kept_lines(lines.drop_last(), conversation_id);
        if lines.last() is Some && !for_conversation(lines.last(), conversation_id) {
            rest.push(lines.len() - 1)
        } else {
            rest
        }
    }
}

pub open spec fn items_view(v: Seq<MediaItem>) -> Seq<(bool, Seq<char>, Seq<char>)> {
    v.map_values(|m: MediaItem| (m.is_file, m.path@, m.name@))
}

pub open spec fn any_for(lines: Seq<Option<JsonValue>>, conversation_id: Seq<char>) -> bool {
    exists|i: int| 0 <= i < lines.len() && for_conversation(#[trigger] lines[i], conversation_id)
}

/// What the bridge takes out of the media outbox for a conversation: nothing
/// when no line is for it (the file is left alone); otherwise the items to
/// send, in order, and the lines to write back.
pub fn media_plan(lines: &[Option<JsonValue>], conversation_id: &str) -> (r: Option<(Vec<MediaItem>, Vec<usize>)>)
    ensures
        match r {
            None => !any_for(lines@, conversation_id@),
            Some((items, keep)) => any_for(lines@, conversation_id@)
                && items_view(items@) == media_items(lines@, conversation_id@)
                && keep@.map_values(|k: usize| k as int) == kept_lines(lines@, conversation_id@),
        },
{
    let mut items: Vec<MediaItem> = Vec::new();
    let mut keep: Vec<usize> = Vec::new();
    let mut any = false;
    let mut i: usize = 0;
    while i < lines.len()
        invariant
            i <= lines.len(),
            items_view(items@) == media_items(lines@.take(i as int), conversation_id@),
            keep@.map_values(|k: usize| k as int) == kept_lines(lines@.take(i as int), conversation_id@),
            any == any_for(lines@.take(i as int), conversation_id@),
        decreases lines.len() - i,
    {
        let ghost prev = lines@.take(i as int);
        let ghost next = lines@.take(i + 1);
        proof {
            assert(next.drop_last() =~= prev);
            assert(next.last() == lines@[i as int]);
        }
        let mine = match &lines[i] {
            Some(v) => match json_as_str(json_get(v, "conversation_id")) {
                Some(c) => crate::text::seq_eq(chars_of(c).as_slice(), chars_of(conversation_id).as_slice()),
                None => false,
            },
            None => false,
        };
        proof {
            if any_for(next, conversation_id@) && !mine {
                let j = choose|j: int| 0 <= j < next.len() && for_conversation(#[trigger] next[j], conversation_id@);
                assert(j < i as int);
                assert(prev[j] == next[j]);
            }
            if mine {
                assert(for_conversation(next[i as int], conversation_id@));
            }
            if any_for(prev, conversation_id@) {
                let j = choose|j: int| 0 <= j < prev.len() && for_conversation(#[trigger] prev[j], conversation_id@);
                assert(next[j] == prev[j]);
            }
        }
        if mine {
            any = true;
            match &lines[i] {
                Some(v) => {
                    let file = match json_as_str(json_get(v, "kind")) {
                        Some(k) => str_is(chars_of(k).as_slice(), "file"),
                        None => false,
                    };
                    let key = if file { "file_path" } else { "image_path" };
                    match json_as_str(json_get(v, key)) {
                        Some(p) => {
                            let name = match json_as_str(json_get(v, "name")) {
                                Some(n) => n.to_string(),
                                None => "file".to_string(),
                            };
                            let ghost o = items@;
                            items.push(MediaItem { is_file: file, path: p.to_string(), name });
                            proof {
                                assert(items_view(items@) =~= items_view(o).push(
                                    (items@.last().is_file, items@.last().path@, items@.last().name@),
                                ));
                            }
                        },
                        None => {},
                    }
                },
                None => {},
            }
        } else if lines[i].is_some() {
            let ghost o = keep@;
            keep.push(i);
            proof {
                assert(keep@.map_values(|k: usize| k as int) =~= o.map_values(|k: usize| k as int).push(
                    i as int,
                ));
            }
        }
        i += 1;
    }
    assert(lines@.take(lines.len() as int) =~= lines@);
    if any {
        Some((items, keep))
    } else {
        None
    }
}

/// The largest media the bridge sends: 50 MiB for a file, 20 MiB for an image.
pub fn media_cap(is_file: bool) -> (r: usize)
    ensures
        r == if is_file { 52428800usize } else { 20971520usize },
{
    if is_file {
        50 * 1024 * 1024
    } else {
        20 * 1024 * 1024
    }
}

/// The character the standard Base64 alphabet gives a 6-bit value: `A`-`Z`,
/// `a`-`z`, `0`-`9`, `+`, `/`.
pub open spec fn b64_char(v: int) -> char {
    if v < 26 {
        (65 + v) as char
    } else if v < 52 {
        (97 + v - 26) as char
    } else if v < 62 {
        (48 + v - 52) as char
    } else if v == 62 {
        '+'
    } else {
        '/'
    }
}

/// Standard Base64 with padding: each group of three bytes, read as 24 bits,
/// becomes four characters of six bits each; a last group of one or two
/// bytes is read with zero bits after it and padded with `=` to four.
pub open spec fn base64_standard(bytes: Seq<u8>) -> Seq<char>
    decreases bytes.len(),
{
    if bytes.len() == 0 {
        seq![]
    } else if bytes.len() == 1 {
        let b0 = bytes[0] as int;
        seq![b64_char(b0 / 4), b64_char((b0 % 4) * 16), '=', '=']
    } else if bytes.len() == 2 {
        let b0 = bytes[0] as int;
        let b1 = bytes[1] as int;
        seq![b64_char(b0 / 4), b64_char((b0 % 4) * 16 + b1 / 16), b64_char((b1 % 16) * 4), '=']
    } else {
        let b0 = bytes[0] as int;
        let b1 = bytes[1] as int;
        let b2 = bytes[2] as int;
        seq![
            b64_char(b0 / 4),
            b64_char((b0 % 4) * 16 + b1 / 16),
            b64_char((b1 % 16) * 4 + b2 / 64),
            b64_char(b2 % 64),
        ] + base64_standard(bytes.skip(3))
    }
}

/// The encoding has four characters for each started group of three bytes.
pub proof fn lemma_base64_length(bytes: Seq<u8>)
    ensures
        base64_standard(bytes).len() == 4 * ((bytes.len() + 2) / 3),
    decreases bytes.len(),
{
    if bytes.len() >= 3 {
        lemma_base64_length(bytes.skip(3));
    }
}

/// `base64::Engine::encode` with `general_purpose::STANDARD`: standard Base64
/// with padding, as `base64_standard` states it. The crate panics when the
/// output size (four characters per started group of three bytes) overflows.
#[verifier::external_body]
pub(crate) fn base64_encode(bytes: &[u8]) -> (r: String)
    requires
        bytes@.len() <= 3 * (usize::MAX / 4),
    ensures
        r@ == base64_standard(bytes@),
{
    base64::Engine::encode(&base64::engine::general_purpose::STANDARD, bytes)
}

/// The `file` field of an outgoing media segment.
pub open spec fn base64_uri(bytes: Seq<u8>) -> Seq<char> {
    "base64://"@ + base64_standard(bytes)
}

/// The API call that sends one media item to the conversation: to the group
/// for a group chat (group 0 when the event named none), else privately to the
/// sender, with one image or file segment holding the bytes.
pub fn media_send(item: &MediaItem, bytes: &[u8], message_type: &str, group_id: Option<i64>, user_id: i64) -> (r: (&'static str, JsonValue))
    requires
        bytes@.len() <= 3 * (usize::MAX / 4),
    ensures
        ({
            let group = message_type@ == "group"@;
            let (action, params) = r;
            &&& action@ == if group { "send_group_msg"@ } else { "send_private_msg"@ }
            &&& params is Object && params->Object_0@.len() == 2
            &&& params->Object_0@[0].0@ == if group { "group_id"@ } else { "user_id"@ }
            &&& params->Object_0@[0].1 == int_number(
                if group {
                    match group_id {
                        Some(g) => g,
                        None => 0,
                    }
                } else {
                    user_id
                },
            )
            &&& params->Object_0@[1].0@ == "message"@
            &&& params->Object_0@[1].1 matches JsonValue::Array(segs) && segs@.len() == 1 && {
                let seg = segs@[0];
                &&& seg is Object && seg->Object_0@.len() == 2
                &&& str_entry(seg->Object_0@[0], "type"@, if item.is_file { "file"@ } else { "image"@ })
                &&& seg->Object_0@[1].0@ == "data"@
                &&& seg->Object_0@[1].1 matches JsonValue::Object(d) && if item.is_file {
                    d@.len() == 2 && str_entry(d@[0], "name"@, item.name@) && str_entry(
                        d@[1],
                        "file"@,
                        base64_uri(bytes@),
                    )
                } else {
                    d@.len() == 1 && str_entry(d@[0], "file"@, base64_uri(bytes@))
                }
            }
        }),
{
    let encoded = base64_encode(bytes);
    let uri = prefixed("base64://", encoded.as_str());
    proof {
        assert(uri@ =~= base64_uri(bytes@));
    }
    let mut data: Vec<(String, JsonValue)> = Vec::new();
    if item.is_file {
        data.push(str_member("name", item.name.as_str()));
    }
    data.push(("file".to_string(), JsonValue::String(uri)));
    let mut seg: Vec<(String, JsonValue)> = Vec::new();
    seg.push(str_member("type", if item.is_file { "file" } else { "image" }));
    seg.push(("data".to_string(), JsonValue::Object(data)));
    let mut segs: Vec<JsonValue> = Vec::new();
    segs.push(JsonValue::Object(seg));
    let group = str_is(chars_of(message_type).as_slice(), "group");
    let mut params: Vec<(String, JsonValue)> = Vec::new();
    if group {
        let g = match group_id {
            Some(g) => g,
            None => 0,
        };
        params.push(("group_id".to_string(), int_value(g)));
    } else {
        params.push(("user_id".to_string(), int_value(user_id)));
    }
    params.push(("message".to_string(), JsonValue::Array(segs)));
    (if group { "send_group_msg" } else { "send_private_msg" }, JsonValue::Object(params))
}

} // verus!
