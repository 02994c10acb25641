//! The QQ bridge's answers to events other than a chat turn: friend and group
//! requests, notices, and the context a message brings along (a quoted
//! message, voice messages, files). The bridge makes the API calls, downloads
//! and transcriptions; these functions decide what to ask for and what to say.
use vstd::prelude::*;
use crate::json::{
    as_i64, as_str, get, get_opt, json_as_i64, json_as_str, json_get, json_get_opt, JsonNumber,
    JsonValue,
};
use crate::numbers::{i64_decimal, signed_decimal};
use crate::qq_outbox::{int_number, str_entry};
use crate::text::{
    chars_of, extend_chars, extend_str, join_parts, join_with, str_is, string_of, trim, trim_str,
};

verus! {

fn int_value(n: i64) -> (r: JsonValue)
    ensures
        r == int_number(n),
{
    if n >= 0 {
        JsonValue::Number(JsonNumber::PosInt(n as u64))
    } else {
        JsonValue::Number(JsonNumber::NegInt(n))
    }
}

fn str_value(key: &str, text: &str) -> (r: (String, JsonValue))
    ensures
        str_entry(r, key@, text@),
{
    (key.to_string(), JsonValue::String(text.to_string()))
}

/// An integer field of an event, 0 when absent.
pub open spec fn int_field(v: JsonValue, key: Seq<char>) -> int {
    match as_i64(get(v, key)) {
        Some(n) => n,
        None => 0,
    }
}

fn int_field_exec(v: &JsonValue, key: &str) -> (r: i64)
    ensures
        r as int == int_field(*v, key@),
{
    match json_as_i64(json_get(v, key)) {
        Some(n) => n,
        None => 0,
    }
}

/// A string field of an event, empty when absent.
pub open spec fn str_field(v: JsonValue, key: Seq<char>) -> Seq<char> {
    match as_str(get(v, key)) {
        Some(s) => s,
        None => seq![],
    }
}

fn str_field_exec(v: &JsonValue, key: &str) -> (r: Vec<char>)
    ensures
        r@ == str_field(*v, key@),
{
    match json_as_str(json_get(v, key)) {
        Some(s) => chars_of(s),
        None => Vec::new(),
    }
}

// ---------------------------------------------------------------- owner notes

/// A line for the owner outbox: the trimmed message with its time, none when
/// the message is blank.
pub fn owner_note(message: &str, now: i64) -> (r: Option<JsonValue>)
    ensures
        match r {
            None => trim(message@).len() == 0,
            Some(e) => trim(message@).len() > 0 && e is Object && e->Object_0@.len() == 2
                && e->Object_0@[0].0@ == "ts"@ && e->Object_0@[0].1 == int_number(now)
                && str_entry(e->Object_0@[1], "message"@, trim(message@)),
        },
{
    let t = trim_str(message);
    if t.len() == 0 {
        return None;
    }
    let mut es: Vec<(String, JsonValue)> = Vec::new();
    es.push(("ts".to_string(), int_value(now)));
    es.push(("message".to_string(), JsonValue::String(string_of(t.as_slice()))));
    Some(JsonValue::Object(es))
}

// ---------------------------------------------------------------- requests

/// What the bridge does with a friend or group request.
#[derive(Debug)]
pub enum RequestAction {
    Ignore,
    /// Approve it with this API call.
    Approve { action: &'static str, params: JsonValue },
    /// Leave it to the owner, who is told this.
    TellOwner(String),
}

/// The request's flag, trimmed.
pub open spec fn request_flag(v: JsonValue) -> Seq<char> {
    trim(str_field(v, "flag"@))
}

/// ` (remark: …)` when the request carries a comment.
pub open spec fn remark(comment: Seq<char>) -> Seq<char> {
    if comment.len() == 0 {
        seq![]
    } else {
        "（备注："@ + comment + "）"@
    }
}

pub open spec fn friend_request_note(v: JsonValue) -> Seq<char> {
    "【QQ 好友申请】QQ "@ + signed_decimal(int_field(v, "user_id"@)) + " 请求加好友"@ + remark(
        str_field(v, "comment"@),
    ) + "，待你处理（NapCat 侧审批）。"@
}

pub open spec fn group_request_note(v: JsonValue) -> Seq<char> {
    "【QQ 加群申请】QQ "@ + signed_decimal(int_field(v, "user_id"@)) + " 申请加入群 "@ + str_field(
        v,
        "group_name"@,
    ) + "（群号 "@ + signed_decimal(int_field(v, "group_id"@)) + "）"@ + remark(
        str_field(v, "comment"@),
    ) + "，待你处理。"@
}

/// The sender of a request (0 when it names none): the caller looks up whether
/// this is the owner.
pub fn request_sender(value: &JsonValue) -> (r: i64)
    ensures
        r as int == int_field(*value, "user_id"@),
{
    int_field_exec(value, "user_id")
}

fn remark_exec(comment: &[char]) -> (r: Vec<char>)
    ensures
        r@ == remark(comment@),
{
    if comment.len() == 0 {
        Vec::new()
    } else {
        let mut m = chars_of("（备注：");
        extend_chars(&mut m, comment);
        extend_str(&mut m, "）");
        m
    }
}

/// A friend or group request. Without a sender or a flag it is ignored. The
/// owner's requests are approved (a friend request with the remark `主人`, a
/// group invitation as such); anyone else's are passed on to the owner.
pub fn add_request_action(value: &JsonValue, is_owner: bool) -> (r: RequestAction)
    ensures
        ({
            let kind = str_field(*value, "request_type"@);
            let flag = request_flag(*value);
            if int_field(*value, "user_id"@) == 0 || flag.len() == 0 {
                r is Ignore
            } else if kind == "friend"@ {
                if is_owner {
                    r matches RequestAction::Approve { action, params } && action@
                        == "set_friend_add_request"@ && params is Object && params->Object_0@.len()
                        == 3 && str_entry(params->Object_0@[0], "flag"@, flag)
                        && params->Object_0@[1].0@ == "approve"@ && params->Object_0@[1].1
                        == JsonValue::Bool(true) && str_entry(params->Object_0@[2], "remark"@, "主人"@)
                } else {
                    r matches RequestAction::TellOwner(m) && m@ == friend_request_note(*value)
                }
            } else if kind == "group"@ {
                if is_owner {
                    r matches RequestAction::Approve { action, params } && action@
                        == "set_group_add_request"@ && params is Object && params->Object_0@.len()
                        == 3 && str_entry(params->Object_0@[0], "flag"@, flag) && str_entry(
                        params->Object_0@[1],
                        "sub_type"@,
                        "invite"@,
                    ) && params->Object_0@[2].0@ == "approve"@ && params->Object_0@[2].1
                        == JsonValue::Bool(true)
                } else {
                    r matches RequestAction::TellOwner(m) && m@ == group_request_note(*value)
                }
            } else {
                r is Ignore
            }
        }),
{
    let kind = str_field_exec(value, "request_type");
    let user_id = int_field_exec(value, "user_id");
    let flag_raw = str_field_exec(value, "flag");
    let flag = crate::text::trim_chars(flag_raw.as_slice());
    let comment = str_field_exec(value, "comment");
    if user_id == 0 || flag.len() == 0 {
        return RequestAction::Ignore;
    }
    let flag_s = string_of(flag.as_slice());
    if str_is(kind.as_slice(), "friend") {
        if is_owner {
            let mut ps: Vec<(String, JsonValue)> = Vec::new();
            ps.push(str_value("flag", flag_s.as_str()));
            ps.push(("approve".to_string(), JsonValue::Bool(true)));
            ps.push(str_value("remark", "主人"));
            RequestAction::Approve { action: "set_friend_add_request", params: JsonValue::Object(ps) }
        } else {
            let mut m = chars_of("【QQ 好友申请】QQ ");
            extend_chars(&mut m, i64_decimal(user_id).as_slice());
            extend_str(&mut m, " 请求加好友");
            extend_chars(&mut m, remark_exec(comment.as_slice()).as_slice());
            extend_str(&mut m, "，待你处理（NapCat 侧审批）。");
            RequestAction::TellOwner(string_of(m.as_slice()))
        }
    } else if str_is(kind.as_slice(), "group") {
        if is_owner {
            let mut ps: Vec<(String, JsonValue)> = Vec::new();
            ps.push(str_value("flag", flag_s.as_str()));
            ps.push(str_value("sub_type", "invite"));
            ps.push(("approve".to_string(), JsonValue::Bool(true)));
            RequestAction::Approve { action: "set_group_add_request", params: JsonValue::Object(ps) }
        } else {
            let group_id = int_field_exec(value, "group_id");
            let mut m = chars_of("【QQ 加群申请】QQ ");
            extend_chars(&mut m, i64_decimal(user_id).as_slice());
            extend_str(&mut m, " 申请加入群 ");
            extend_chars(&mut m, str_field_exec(value, "group_name").as_slice());
            extend_str(&mut m, "（群号 ");
            extend_chars(&mut m, i64_decimal(group_id).as_slice());
            extend_str(&mut m, "）");
            extend_chars(&mut m, remark_exec(comment.as_slice()).as_slice());
            extend_str(&mut m, "，待你处理。");
            RequestAction::TellOwner(string_of(m.as_slice()))
        }
    } else {
        RequestAction::Ignore
    }
}

// ---------------------------------------------------------------- notices

/// What the bridge does with a notice.
#[derive(Debug)]
pub enum NoticeAction {
    Ignore,
    /// Greet a new member in the group with this message.
    Welcome { group_id: i64, message: JsonValue },
    /// Tell the owner this.
    TellOwner(String),
}

/// How a recalled message's sender is named: by the cached nickname when
/// there is one.
pub open spec fn recall_who(user_id: int, nickname: Option<Seq<char>>) -> Seq<char> {
    match nickname {
        Some(n) => n + "（QQ "@ + signed_decimal(user_id) + "）"@,
        None => "QQ "@ + signed_decimal(user_id),
    }
}

pub open spec fn recall_note(v: JsonValue, nickname: Option<Seq<char>>, group_name: Option<Seq<char>>) -> Seq<char> {
    let scope = if str_field(v, "notice_type"@) == "group_recall"@ {
        "群 "@ + match group_name {
            Some(g) => g,
            None => seq![],
        } + "（群号 "@ + signed_decimal(int_field(v, "group_id"@)) + "）"@
    } else {
        "私聊"@
    };
    "【消息撤回】"@ + recall_who(int_field(v, "user_id"@), nickname) + " 在 "@ + scope
        + " 撤了一条消息。"@
}

/// A message segment `{"type": "text", "data": {"text": …}}`.
pub open spec fn text_segment(seg: JsonValue, text: Seq<char>) -> bool {
    &&& seg is Object
    &&& seg->Object_0@.len() == 2
    &&& str_entry(seg->Object_0@[0], "type"@, "text"@)
    &&& seg->Object_0@[1].0@ == "data"@
    &&& seg->Object_0@[1].1 is Object
    &&& seg->Object_0@[1].1->Object_0@.len() == 1
    &&& str_entry(seg->Object_0@[1].1->Object_0@[0], "text"@, text)
}

pub open spec fn opt_str(o: Option<&str>) -> Option<Seq<char>> {
    match o {
        Some(s) => Some(s@),
        None => None,
    }
}

/// A notice. A new group member is welcomed (when the notice names the group
/// and the member); a recalled message is reported to the owner, with the
/// names the bridge has cached for the sender and the group; other notices
/// are ignored.
pub fn notice_action(value: &JsonValue, nickname: Option<&str>, group_name: Option<&str>) -> (r: NoticeAction)
    ensures
        ({
            let kind = str_field(*value, "notice_type"@);
            let gid = int_field(*value, "group_id"@);
            let uid = int_field(*value, "user_id"@);
            if kind == "group_increase"@ {
                if gid == 0 || uid == 0 {
                    r is Ignore
                } else {
                    r matches NoticeAction::Welcome { group_id, message } && group_id == gid
                        && message is Array && message->Array_0@.len() == 1 && text_segment(
                        message->Array_0@[0],
                        "欢迎新群友！我是顾清影，需要帮忙 @ 我。"@,
                    )
                }
            } else if kind == "group_recall"@ || kind == "friend_recall"@ {
                r matches NoticeAction::TellOwner(m) && m@ == recall_note(
                    *value,
                    opt_str(nickname),
                    opt_str(group_name),
                )
            } else {
                r is Ignore
            }
        }),
{
    let kind = str_field_exec(value, "notice_type");
    let group_id = int_field_exec(value, "group_id");
    let user_id = int_field_exec(value, "user_id");
    if str_is(kind.as_slice(), "group_increase") {
        if group_id == 0 || user_id == 0 {
            return NoticeAction::Ignore;
        }
        let mut data: Vec<(String, JsonValue)> = Vec::new();
        data.push(str_value("text", "欢迎新群友！我是顾清影，需要帮忙 @ 我。"));
        let mut seg: Vec<(String, JsonValue)> = Vec::new();
        seg.push(str_value("type", "text"));
        seg.push(("data".to_string(), JsonValue::Object(data)));
        let mut segs: Vec<JsonValue> = Vec::new();
        segs.push(JsonValue::Object(seg));
        NoticeAction::Welcome { group_id, message: JsonValue::Array(segs) }
    } else if str_is(kind.as_slice(), "group_recall") || str_is(kind.as_slice(), "friend_recall") {
        let mut who: Vec<char> = Vec::new();
        match nickname {
            Some(n) => {
                extend_str(&mut who, n);
                extend_str(&mut who, "（QQ ");
                extend_chars(&mut who, i64_decimal(user_id).as_slice());
                extend_str(&mut who, "）");
            },
            None => {
                extend_str(&mut who, "QQ ");
                extend_chars(&mut who, i64_decimal(user_id).as_slice());
            },
        }
        let mut scope: Vec<char> = Vec::new();
        if str_is(kind.as_slice(), "group_recall") {
            extend_str(&mut scope, "群 ");
            match group_name {
                Some(g) => extend_str(&mut scope, g),
                None => {},
            }
            extend_str(&mut scope, "（群号 ");
            extend_chars(&mut scope, i64_decimal(group_id).as_slice());
            extend_str(&mut scope, "）");
        } else {
            extend_str(&mut scope, "私聊");
        }
        let mut m = chars_of("【消息撤回】");
        extend_chars(&mut m, who.as_slice());
        extend_str(&mut m, " 在 ");
        extend_chars(&mut m, scope.as_slice());
        extend_str(&mut m, " 撤了一条消息。");
        proof {
            assert(who@ =~= recall_who(user_id as int, opt_str(nickname)));
        }
        NoticeAction::TellOwner(string_of(m.as_slice()))
    } else {
        NoticeAction::Ignore
    }
}

} // verus!

verus! {

// ---------------------------------------------------------------- quoted messages

/// The message a reply quotes, when there is one to look up: a positive id
/// other than the message's own.
pub fn quote_lookup(inbound: &crate::qq_inbound::InboundText) -> (r: Option<i64>)
    ensures
        r == match inbound.reply_to_message_id {
            Some(id) => if id > 0 && id != inbound.message_id {
                Some(id)
            } else {
                None
            },
            None => None,
        },
{
    match inbound.reply_to_message_id {
        Some(id) => if id > 0 && id != inbound.message_id {
            Some(id)
        } else {
            None
        },
        None => None,
    }
}

/// The text of a text segment.
pub open spec fn segment_text(seg: JsonValue) -> Option<Seq<char>> {
    if as_str(get(seg, "type"@)) == Some("text"@) {
        as_str(get_opt(get(seg, "data"@), "text"@))
    } else {
        None
    }
}

/// The URL of an image segment, when it has a non-empty one.
pub open spec fn segment_image(seg: JsonValue) -> Option<Seq<char>> {
    if as_str(get(seg, "type"@)) == Some("image"@) {
        match as_str(get_opt(get(seg, "data"@), "url"@)) {
            Some(u) => if u.len() > 0 {
                Some(u)
            } else {
                None
            },
            None => None,
        }
    } else {
        None
    }
}

pub open spec fn segment_texts(segs: Seq<JsonValue>) -> Seq<Seq<char>>
    decreases segs.len(),
{
    if segs.len() == 0 {
        seq![]
    } else {
        let rest = segment_texts(segs.drop_last());
        match segment_text(segs.last()) {
            Some(t) => rest.push(t),
            None => rest,
        }
    }
}

pub open spec fn segment_images(segs: Seq<JsonValue>) -> Seq<Seq<char>>
    decreases segs.len(),
{
    if segs.len() == 0 {
        seq![]
    } else {
        let rest = segment_images(segs.drop_last());
        match segment_image(segs.last()) {
            Some(u) => rest.push(u),
            None => rest,
        }
    }
}

/// The quoted message in a `get_msg` reply.
pub open spec fn quoted_message(info: JsonValue) -> Option<JsonValue> {
    get_opt(get(info, "data"@), "message"@)
}

/// Its text: the text segments joined with spaces, or the raw string.
pub open spec fn quoted_text(info: JsonValue) -> Seq<char> {
    match quoted_message(info) {
        Some(JsonValue::Array(segs)) => join_with(segment_texts(segs@), " "@),
        Some(JsonValue::String(raw)) => raw@,
        _ => seq![],
    }
}

pub open spec fn quoted_images(info: JsonValue) -> Seq<Seq<char>> {
    match quoted_message(info) {
        Some(JsonValue::Array(segs)) => segment_images(segs@),
        _ => seq![],
    }
}

/// Who wrote the quoted message: its sender's number, or `对方`.
pub open spec fn quoted_sender(info: JsonValue) -> Seq<char> {
    match as_i64(get_opt(get(info, "data"@), "user_id"@)) {
        Some(n) => signed_decimal(n),
        None => "对方"@,
    }
}

pub open spec fn image_line(url: Seq<char>) -> Seq<char> {
    "[引用消息里有一张图片，可调用「分析图片」查看："@ + url + "]"@
}

/// The lines a quote adds to the turn: its text (when not blank) and one per
/// image.
pub open spec fn quote_lines(info: JsonValue) -> Seq<Seq<char>> {
    let text = quoted_text(info);
    let first = if trim(text).len() > 0 {
        seq!["[引用了 "@ + quoted_sender(info) + " 的消息："@ + text + "]"@]
    } else {
        seq![]
    };
    first + quoted_images(info).map_values(|u: Seq<char>| image_line(u))
}

/// Lines as context: a line break before them, one between them; nothing
/// when there are none.
pub open spec fn context_of(lines: Seq<Seq<char>>, sep: Seq<char>) -> Seq<char> {
    if lines.len() == 0 {
        seq![]
    } else {
        "\n"@ + join_with(lines, sep)
    }
}

fn context_exec(lines: &[Vec<char>], sep: &str) -> (r: String)
    ensures
        r@ == context_of(lines@.map_values(|p: Vec<char>| p@), sep@),
{
    if lines.len() == 0 {
        return String::new();
    }
    let mut out = chars_of("\n");
    let j = join_parts(lines, sep);
    extend_chars(&mut out, j.as_slice());
    string_of(out.as_slice())
}

/// What a quoted message adds to the turn, from the `get_msg` reply.
pub fn quoted_context(info: &JsonValue) -> (r: String)
    ensures
        r@ == context_of(quote_lines(*info), "\n"@),
{
    let msg = json_get_opt(json_get(info, "data"), "message");
    let mut texts: Vec<Vec<char>> = Vec::new();
    let mut images: Vec<Vec<char>> = Vec::new();
    let ghost tv = texts@.map_values(|p: Vec<char>| p@);
    let text: Vec<char> = match msg {
        Some(JsonValue::Array(segs)) => {
            let mut i: usize = 0;
            while i < segs.len()
                invariant
                    i <= segs.len(),
                    texts@.map_values(|p: Vec<char>| p@) == segment_texts(segs@.take(i as int)),
                    images@.map_values(|p: Vec<char>| image_line(p@)) == segment_images(
                        segs@.take(i as int),
                    ).map_values(|u: Seq<char>| image_line(u)),
                decreases segs.len() - i,
            {
                let seg = &segs[i];
                proof {
                    assert(segs@.take(i + 1).drop_last() =~= segs@.take(i as int));
                    assert(segs@.take(i + 1).last() == *seg);
                }
                let kind = json_as_str(json_get(seg, "type"));
                let is_text = match kind {
                    Some(k) => str_is(chars_of(k).as_slice(), "text"),
                    None => false,
                };
                let is_image = match kind {
                    Some(k) => str_is(chars_of(k).as_slice(), "image"),
                    None => false,
                };
                if is_text {
                    match json_as_str(json_get_opt(json_get(seg, "data"), "text")) {
                        Some(t) => {
                            let ghost o = texts@;
                            texts.push(chars_of(t));
                            proof {
                                assert(texts@.map_values(|p: Vec<char>| p@) =~= o.map_values(
                                    |p: Vec<char>| p@,
                                ).push(t@));
                            }
                        },
                        None => {},
                    }
                }
                if is_image {
                    match json_as_str(json_get_opt(json_get(seg, "data"), "url")) {
                        Some(u) => {
                            let uc = chars_of(u);
                            if uc.len() > 0 {
                                let ghost o = images@;
                                images.push(uc);
                                proof {
                                    assert(images@.map_values(|p: Vec<char>| image_line(p@))
                                        =~= o.map_values(|p: Vec<char>| image_line(p@)).push(
                                        image_line(u@),
                                    ));
                                }
                            }
                        },
                        None => {},
                    }
                }
                proof {
                    let ss = segs@.take(i + 1);
                    assert(segment_images(ss).map_values(|u: Seq<char>| image_line(u)) =~= match segment_image(*seg) {
                        Some(u) => segment_images(segs@.take(i as int)).map_values(|u: Seq<char>| image_line(u)).push(image_line(u)),
                        None => segment_images(segs@.take(i as int)).map_values(|u: Seq<char>| image_line(u)),
                    });
                }
                i += 1;
            }
            assert(segs@.take(segs.len() as int) =~= segs@);
            join_parts(texts.as_slice(), " ")
        },
        Some(JsonValue::String(raw)) => {
            assert(images@.map_values(|p: Vec<char>| image_line(p@)) =~= Seq::<Seq<char>>::empty());
            chars_of(raw.as_str())
        },
        _ => {
            assert(images@.map_values(|p: Vec<char>| image_line(p@)) =~= Seq::<Seq<char>>::empty());
            Vec::new()
        },
    };
    proof {
        assert(text@ == quoted_text(*info));
        assert(images@.map_values(|p: Vec<char>| image_line(p@)) == quoted_images(*info).map_values(
            |u: Seq<char>| image_line(u),
        ));
    }
    let sender: Vec<char> = match json_as_i64(json_get_opt(json_get(info, "data"), "user_id")) {
        Some(n) => i64_decimal(n),
        None => chars_of("对方"),
    };
    let mut lines: Vec<Vec<char>> = Vec::new();
    if trim_str(string_of(text.as_slice()).as_str()).len() > 0 {
        let mut l = chars_of("[引用了 ");
        extend_chars(&mut l, sender.as_slice());
        extend_str(&mut l, " 的消息：");
        extend_chars(&mut l, text.as_slice());
        extend_str(&mut l, "]");
        lines.push(l);
    }
    let ghost head = lines@.map_values(|p: Vec<char>| p@);
    let mut k: usize = 0;
    while k < images.len()
        invariant
            k <= images.len(),
            lines@.map_values(|p: Vec<char>| p@) == head + images@.take(k as int).map_values(
                |p: Vec<char>| image_line(p@),
            ),
        decreases images.len() - k,
    {
        let mut l = chars_of("[引用消息里有一张图片，可调用「分析图片」查看：");
        extend_chars(&mut l, images[k].as_slice());
        extend_str(&mut l, "]");
        let ghost o = lines@;
        lines.push(l);
        proof {
            assert(images@.take(k + 1).map_values(|p: Vec<char>| image_line(p@)) =~= images@.take(
                k as int,
            ).map_values(|p: Vec<char>| image_line(p@)).push(image_line(images@[k as int]@)));
            assert(lines@.map_values(|p: Vec<char>| p@) =~= o.map_values(|p: Vec<char>| p@).push(
                image_line(images@[k as int]@),
            ));
        }
        k += 1;
    }
    proof {
        assert(images@.take(images.len() as int) =~= images@);
        assert(lines@.map_values(|p: Vec<char>| p@) =~= quote_lines(*info));
    }
    context_exec(lines.as_slice(), "\n")
}

} // verus!

verus! {

// ---------------------------------------------------------------- voices and files

/// Lines as context, joined by `sep`.
pub fn lines_context(lines: &[String], sep: &str) -> (r: String)
    ensures
        r@ == context_of(lines@.map_values(|s: String| s@), sep@),
{
    let mut v: Vec<Vec<char>> = Vec::new();
    let mut i: usize = 0;
    while i < lines.len()
        invariant
            i <= lines.len(),
            v@.map_values(|p: Vec<char>| p@) == lines@.take(i as int).map_values(|s: String| s@),
        decreases lines.len() - i,
    {
        let ghost o = v@;
        v.push(chars_of(lines[i].as_str()));
        proof {
            assert(v@.map_values(|p: Vec<char>| p@) =~= o.map_values(|p: Vec<char>| p@).push(
                lines@[i as int]@,
            ));
            assert(lines@.take(i + 1).map_values(|s: String| s@) =~= lines@.take(i as int).map_values(
                |s: String| s@,
            ).push(lines@[i as int]@));
        }
        i += 1;
    }
    assert(lines@.take(lines.len() as int) =~= lines@);
    context_exec(v.as_slice(), sep)
}

/// Where a voice message's audio comes from.
#[derive(Debug)]
pub enum MediaSource {
    /// Download it from this URL.
    Url(String),
    /// Ask the client for the URL with this API call.
    Lookup { action: &'static str, params: JsonValue },
    /// Nothing to fetch.
    Skip,
}

/// A voice message: its URL when given, else a `get_record` lookup of its
/// file, else nothing.
pub fn voice_source(url: &str, file: &str) -> (r: MediaSource)
    ensures
        url@.len() > 0 ==> (r matches MediaSource::Url(u) && u@ == url@),
        url@.len() == 0 && file@.len() > 0 ==> (r matches MediaSource::Lookup { action, params }
            && action@ == "get_record"@ && params is Object && params->Object_0@.len() == 1
            && str_entry(params->Object_0@[0], "file"@, file@)),
        url@.len() == 0 && file@.len() == 0 ==> r is Skip,
{
    if chars_of(url).len() > 0 {
        MediaSource::Url(url.to_string())
    } else if chars_of(file).len() > 0 {
        let mut ps: Vec<(String, JsonValue)> = Vec::new();
        ps.push(str_value("file", file));
        MediaSource::Lookup { action: "get_record", params: JsonValue::Object(ps) }
    } else {
        MediaSource::Skip
    }
}

/// A string field of an API reply, which names a URL.
pub fn reply_field(info: &JsonValue, key: &str) -> (r: Option<String>)
    ensures
        match r {
            Some(s) => as_str(get(*info, key@)) == Some(s@),
            None => as_str(get(*info, key@)) is None,
        },
{
    match json_as_str(json_get(info, key)) {
        Some(s) => Some(s.to_string()),
        None => None,
    }
}

/// The largest voice message the bridge downloads: 20 MiB.
pub const VOICE_MAX_BYTES: usize = 20971520;

/// The largest file the bridge downloads: 50 MiB.
pub const FILE_MAX_BYTES: usize = 52428800;

/// Where a downloaded voice message is kept: `voice_<now>.silk`.
pub fn voice_file_name(now: i64) -> (r: String)
    ensures
        r@ == "voice_"@ + signed_decimal(now as int) + ".silk"@,
{
    let mut m = chars_of("voice_");
    extend_chars(&mut m, i64_decimal(now).as_slice());
    extend_str(&mut m, ".silk");
    string_of(m.as_slice())
}

/// The line a voice message adds: its transcript when there is one that is
/// not blank.
pub fn voice_note(transcript: Option<&str>) -> (r: String)
    ensures
        r@ == match transcript {
            Some(t) => if trim(t@).len() > 0 {
                "[对方发来语音："@ + t@ + "]"@
            } else {
                "[对方发来一条语音，暂无法转写。]"@
            },
            None => "[对方发来一条语音，暂无法转写。]"@,
        },
{
    match transcript {
        Some(t) => {
            if trim_str(t).len() > 0 {
                let mut m = chars_of("[对方发来语音：");
                extend_str(&mut m, t);
                extend_str(&mut m, "]");
                string_of(m.as_slice())
            } else {
                "[对方发来一条语音，暂无法转写。]".to_string()
            }
        },
        None => "[对方发来一条语音，暂无法转写。]".to_string(),
    }
}

pub open spec fn download_view(d: (String, String, Option<String>)) -> (Seq<char>, Seq<char>, Option<Seq<char>>) {
    (d.0@, d.1@, match d.2 {
        Some(s) => Some(s@),
        None => None,
    })
}

/// What a message asks the bridge to download: its files (name, URL, file id),
/// then its videos (named `video`, with their file as the id when there is one).
pub open spec fn downloads(files: Seq<(String, String, Option<String>)>, videos: Seq<(String, String)>) -> Seq<(Seq<char>, Seq<char>, Option<Seq<char>>)> {
    files.map_values(|d: (String, String, Option<String>)| download_view(d)) + videos.map_values(
        |v: (String, String)| ("video"@, v.0@, if v.1@.len() == 0 {
            None
        } else {
            Some(v.1@)
        }),
    )
}

fn clone_opt(o: &Option<String>) -> (r: Option<String>)
    ensures
        match (r, *o) {
            (Some(a), Some(b)) => a@ == b@,
            (None, None) => true,
            _ => false,
        },
{
    match o {
        Some(s) => Some(s.clone()),
        None => None,
    }
}

pub fn inbound_downloads(inbound: &crate::qq_inbound::InboundText) -> (r: Vec<(String, String, Option<String>)>)
    ensures
        r@.map_values(|d: (String, String, Option<String>)| download_view(d)) == downloads(
            inbound.files@,
            inbound.videos@,
        ),
{
    let mut out: Vec<(String, String, Option<String>)> = Vec::new();
    let files = &inbound.files;
    let videos = &inbound.videos;
    let mut i: usize = 0;
    while i < files.len()
        invariant
            i <= files.len(),
            out@.map_values(|d: (String, String, Option<String>)| download_view(d)) == files@.take(
                i as int,
            ).map_values(|d: (String, String, Option<String>)| download_view(d)),
        decreases files.len() - i,
    {
        let f = &files[i];
        let ghost o = out@;
        out.push((f.0.clone(), f.1.clone(), clone_opt(&f.2)));
        proof {
            assert(out@.map_values(|d: (String, String, Option<String>)| download_view(d)) =~= o.map_values(
                |d: (String, String, Option<String>)| download_view(d),
            ).push(download_view(files@[i as int])));
            assert(files@.take(i + 1).map_values(|d: (String, String, Option<String>)| download_view(d))
                =~= files@.take(i as int).map_values(
                |d: (String, String, Option<String>)| download_view(d),
            ).push(download_view(files@[i as int])));
        }
        i += 1;
    }
    assert(files@.take(files.len() as int) =~= files@);
    let ghost head = out@.map_values(|d: (String, String, Option<String>)| download_view(d));
    let ghost vv = videos@.map_values(
        |v: (String, String)| ("video"@, v.0@, if v.1@.len() == 0 {
            None
        } else {
            Some(v.1@)
        }),
    );
    let mut j: usize = 0;
    while j < videos.len()
        invariant
            j <= videos.len(),
            vv == videos@.map_values(
                |v: (String, String)| ("video"@, v.0@, if v.1@.len() == 0 {
                    None
                } else {
                    Some(v.1@)
                }),
            ),
            out@.map_values(|d: (String, String, Option<String>)| download_view(d)) == head
                + vv.take(j as int),
        decreases videos.len() - j,
    {
        let v = &videos[j];
        let id = if chars_of(v.1.as_str()).len() == 0 {
            None
        } else {
            Some(v.1.clone())
        };
        let ghost o = out@;
        out.push(("video".to_string(), v.0.clone(), id));
        proof {
            assert(out@.map_values(|d: (String, String, Option<String>)| download_view(d)) =~= o.map_values(
                |d: (String, String, Option<String>)| download_view(d),
            ).push(vv[j as int]));
            assert(vv.take(j + 1) =~= vv.take(j as int).push(vv[j as int]));
        }
        j += 1;
    }
    assert(vv.take(videos.len() as int) =~= vv);
    out
}

/// The API call that asks for a file's URL by its id: the group's file for a
/// group chat (group 0 when the event named none), else a private file.
pub fn file_url_lookup(message_type: &str, group_id: Option<i64>, file_id: &str) -> (r: (&'static str, JsonValue))
    ensures
        message_type@ == "group"@ ==> r.0@ == "get_group_file_url"@ && r.1 is Object
            && r.1->Object_0@.len() == 2 && r.1->Object_0@[0].0@ == "group_id"@
            && r.1->Object_0@[0].1 == int_number(
            match group_id {
                Some(g) => g,
                None => 0,
            },
        ) && str_entry(r.1->Object_0@[1], "file_id"@, file_id@),
        message_type@ != "group"@ ==> r.0@ == "get_private_file_url"@ && r.1 is Object
            && r.1->Object_0@.len() == 1 && str_entry(r.1->Object_0@[0], "file_id"@, file_id@),
{
    let mut ps: Vec<(String, JsonValue)> = Vec::new();
    if str_is(chars_of(message_type).as_slice(), "group") {
        let g = match group_id {
            Some(g) => g,
            None => 0,
        };
        ps.push(("group_id".to_string(), int_value(g)));
        ps.push(str_value("file_id", file_id));
        ("get_group_file_url", JsonValue::Object(ps))
    } else {
        ps.push(str_value("file_id", file_id));
        ("get_private_file_url", JsonValue::Object(ps))
    }
}

/// A character kept in a saved file's name; others become `_`.
pub open spec fn name_char(c: char) -> char {
    if crate::text::is_ascii_alphanumeric(c) || c == '.' || c == '-' || c == '_' {
        c
    } else {
        '_'
    }
}

/// A received file's name made safe to save: no path separators or other
/// special characters; `file.bin` when nothing is left.
pub open spec fn safe_name(name: Seq<char>) -> Seq<char> {
    let s = name.map_values(|c: char| name_char(c));
    if trim(s).len() == 0 {
        "file.bin"@
    } else {
        s
    }
}

pub fn safe_file_name(name: &str) -> (r: String)
    ensures
        r@ == safe_name(name@),
{
    let c = chars_of(name);
    let mut out: Vec<char> = Vec::new();
    let mut i: usize = 0;
    while i < c.len()
        invariant
            i <= c.len(),
            c@ == name@,
            out@ == name@.take(i as int).map_values(|c: char| name_char(c)),
        decreases c.len() - i,
    {
        let ch = c[i];
        let keep = crate::text::char_is_ascii_alphanumeric(ch) || ch == '.' || ch == '-' || ch == '_';
        out.push(if keep { ch } else { '_' });
        proof {
            assert(name@.take(i + 1).map_values(|c: char| name_char(c)) =~= name@.take(i as int).map_values(
                |c: char| name_char(c),
            ).push(name_char(ch)));
        }
        i += 1;
    }
    assert(name@.take(c.len() as int) =~= name@);
    if crate::text::is_blank(out.as_slice()) {
        "file.bin".to_string()
    } else {
        string_of(out.as_slice())
    }
}

/// Where a received file is saved: `<now>_<safe name>`.
pub fn incoming_file_name(now: i64, name: &str) -> (r: String)
    ensures
        r@ == signed_decimal(now as int) + "_"@ + safe_name(name@),
{
    let mut m = i64_decimal(now);
    extend_str(&mut m, "_");
    extend_str(&mut m, safe_file_name(name).as_str());
    string_of(m.as_slice())
}

/// What saved files add to the turn: one line naming their paths.
pub fn files_context(saved: &[String]) -> (r: String)
    ensures
        r@ == if saved@.len() == 0 {
            seq![]
        } else {
            "\n[对方发来了文件，可读取查看："@ + join_with(saved@.map_values(|s: String| s@), " "@) + "]"@
        },
{
    if saved.len() == 0 {
        return String::new();
    }
    let mut v: Vec<Vec<char>> = Vec::new();
    let mut i: usize = 0;
    while i < saved.len()
        invariant
            i <= saved.len(),
            v@.map_values(|p: Vec<char>| p@) == saved@.take(i as int).map_values(|s: String| s@),
        decreases saved.len() - i,
    {
        let ghost o = v@;
        v.push(chars_of(saved[i].as_str()));
        proof {
            assert(v@.map_values(|p: Vec<char>| p@) =~= o.map_values(|p: Vec<char>| p@).push(
                saved@[i as int]@,
            ));
            assert(saved@.take(i + 1).map_values(|s: String| s@) =~= saved@.take(i as int).map_values(
                |s: String| s@,
            ).push(saved@[i as int]@));
        }
        i += 1;
    }
    assert(saved@.take(saved.len() as int) =~= saved@);
    let mut m = chars_of("\n[对方发来了文件，可读取查看：");
    extend_chars(&mut m, join_parts(v.as_slice(), " ").as_slice());
    extend_str(&mut m, "]");
    string_of(m.as_slice())
}

} // verus!
