//! Reading a OneBot message event from NapCat: who sent it, where, its text,
//! whether it calls the bot, and the images, files, voice and video it carries.
use vstd::prelude::*;
use crate::json::{
    as_i64, as_str, as_u64, deref_opt, get, get_opt, json_as_i64, json_as_str, json_as_u64,
    json_get, json_get_opt, JsonValue,
};
use crate::numbers::{decimal, parse_i64, parse_i64_chars, u64_decimal};
use crate::provider::{opt_string_view, strings_view};
use crate::text::{
    chars_of, contains, extend_chars, extend_str, find, first_index, is_first_occurrence,
    join_with, lemma_first_index, slice_chars, split_char, split_on_char, starts_with, str_is,
    string_of, trim, trim_chars, has_prefix_str,
};

verus! {

/// A message event as the bridge reads it.
#[derive(Debug, Clone)]
pub struct InboundText {
    pub user_id: i64,
    /// `private` or `group`.
    pub message_type: String,
    pub group_id: Option<i64>,
    pub text: String,
    /// An `at` segment names the bot (or everyone).
    pub mentioned_bot: bool,
    pub message_id: i64,
    /// Images that came with a URL.
    pub image_urls: Vec<String>,
    /// Images that came only as a cache file name.
    pub image_files: Vec<String>,
    /// Files: name, URL (may be empty), file id.
    pub files: Vec<(String, String, Option<String>)>,
    /// The message this one replies to.
    pub reply_to_message_id: Option<i64>,
    /// Voice messages: URL and file name (either may be empty).
    pub voices: Vec<(String, String)>,
    /// Videos: URL and file name (either may be empty).
    pub videos: Vec<(String, String)>,
}

// ---------------------------------------------------------------- CQ-coded text

/// The URL of a `[CQ:image,...]` code: the first `url=` field of its body.
pub open spec fn url_field(fields: Seq<Seq<char>>) -> Option<Seq<char>>
    decreases fields.len(),
{
    if fields.len() == 0 {
        None
    } else if starts_with(fields[0], "url="@) {
        Some(fields[0].skip(4))
    } else {
        url_field(fields.drop_first())
    }
}

/// CQ-coded text from the cursor on: each `[CQ:image,...]` code is cut out and
/// its non-empty URL collected, in order.
pub open spec fn cq_scan(s: Seq<char>, cursor: int) -> (Seq<char>, Seq<Seq<char>>)
    decreases s.len(),
{
    if 0 <= cursor <= s.len() && contains(s.skip(cursor), "[CQ:image,"@) {
        let abs = cursor + first_index(s.skip(cursor), "[CQ:image,"@);
        if 0 <= abs <= s.len() && contains(s.skip(abs), "]"@) {
            let end = first_index(s.skip(abs), "]"@);
            let inner = s.subrange(abs + 10, abs + end);
            let found = match url_field(split_char(inner, ',')) {
                Some(u) => if u.len() > 0 { seq![u] } else { seq![] },
                None => seq![],
            };
            let next = s.take(abs) + s.skip(abs + end + 1);
            if next.len() < s.len() {
                let (c, urls) = cq_scan(next, abs);
                (c, found + urls)
            } else {
                (s, seq![])
            }
        } else {
            (s, seq![])
        }
    } else {
        (s, seq![])
    }
}

fn url_field_exec(fields: &Vec<Vec<char>>) -> (r: Option<Vec<char>>)
    ensures
        match r {
            Some(u) => url_field(fields@.map_values(|f: Vec<char>| f@)) == Some(u@),
            None => url_field(fields@.map_values(|f: Vec<char>| f@)) is None,
        },
{
    let ghost fv = fields@.map_values(|f: Vec<char>| f@);
    let mut i: usize = 0;
    assert(fv.skip(0) =~= fv);
    while i < fields.len()
        invariant
            i <= fields.len(),
            fv == fields@.map_values(|f: Vec<char>| f@),
            url_field(fv) == url_field(fv.skip(i as int)),
        decreases fields.len() - i,
    {
        proof {
            assert(fv.skip(i as int)[0] == fields@[i as int]@);
            assert(fv.skip(i as int).drop_first() =~= fv.skip(i + 1));
            reveal_strlit("url=");
        }
        if has_prefix_str(fields[i].as_slice(), "url=") {
            let u = slice_chars(fields[i].as_slice(), 4, fields[i].len());
            assert(u@ =~= fields@[i as int]@.skip(4));
            return Some(u);
        }
        i += 1;
    }
    None
}

fn cq_scan_exec(raw: &[char]) -> (r: (Vec<char>, Vec<String>))
    ensures
        (r.0@, strings_view(r.1@)) == cq_scan(raw@, 0),
{
    let mut cleaned: Vec<char> = slice_chars(raw, 0, raw.len());
    assert(cleaned@ =~= raw@);
    let mut cursor: usize = 0;
    let mut urls: Vec<String> = Vec::new();
    let open = chars_of("[CQ:image,");
    let close = chars_of("]");
    proof {
        reveal_strlit("[CQ:image,");
        reveal_strlit("]");
    }
    assert(cq_scan(raw@, 0).1 =~= strings_view(urls@) + cq_scan(cleaned@, 0).1);
    loop
        invariant
            cursor <= cleaned.len(),
            open@ == "[CQ:image,"@,
            close@ == "]"@,
            open@.len() == 10,
            close@.len() == 1,
            close@[0] == ']',
            forall|k: int| 0 <= k < 10 ==> open@[k] != ']',
            ({
                let (c, us) = cq_scan(cleaned@, cursor as int);
                &&& cq_scan(raw@, 0).0 == c
                &&& cq_scan(raw@, 0).1 == strings_view(urls@) + us
            }),
        ensures
            cq_scan(raw@, 0) == (cleaned@, strings_view(urls@)),
        decreases cleaned.len(),
    {
        let rest = slice_chars(cleaned.as_slice(), cursor, cleaned.len());
        assert(rest@ =~= cleaned@.skip(cursor as int));
        let start = match find(rest.as_slice(), open.as_slice()) {
            Some(i) => i,
            None => {
                proof {
                    assert(strings_view(urls@) + Seq::<Seq<char>>::empty() =~= strings_view(urls@));
                }
                break;
            },
        };
        proof {
            lemma_first_index(rest@, open@, start as int);
        }
        let abs = cursor + start;
        let tail = slice_chars(cleaned.as_slice(), abs, cleaned.len());
        assert(tail@ =~= cleaned@.skip(abs as int));
        let end = match find(tail.as_slice(), close.as_slice()) {
            Some(i) => i,
            None => {
                proof {
                    assert(strings_view(urls@) + Seq::<Seq<char>>::empty() =~= strings_view(urls@));
                }
                break;
            },
        };
        proof {
            lemma_first_index(tail@, close@, end as int);
            assert(rest@.subrange(start as int, start + 10) == open@);
            assert(cleaned@.subrange(abs as int, abs + 10) =~= open@);
            assert(tail@.subrange(end as int, end + 1) == close@);
            assert(tail@[end as int] == tail@.subrange(end as int, end + 1)[0]);
            assert(tail@[end as int] == ']');
            if end < 10 {
                assert(cleaned@[abs + end] == cleaned@.subrange(abs as int, abs + 10)[end as int]);
                assert(cleaned@[abs + end] == open@[end as int]);
            }
        }
        let inner = slice_chars(cleaned.as_slice(), abs + 10, abs + end);
        let fields = split_on_char(inner.as_slice(), ',');
        proof {
            assert(fields@.map_values(|f: Vec<char>| f@) =~= split_char(inner@, ','));
        }
        let ghost before = strings_view(urls@);
        match url_field_exec(&fields) {
            Some(u) => {
                if u.len() > 0 {
                    urls.push(string_of(u.as_slice()));
                    assert(strings_view(urls@) =~= before + seq![u@]);
                } else {
                    assert(strings_view(urls@) =~= before + Seq::<Seq<char>>::empty());
                }
            },
            None => {
                assert(strings_view(urls@) =~= before + Seq::<Seq<char>>::empty());
            },
        }
        let mut next = slice_chars(cleaned.as_slice(), 0, abs);
        let after = slice_chars(cleaned.as_slice(), abs + end + 1, cleaned.len());
        extend_chars(&mut next, after.as_slice());
        proof {
            assert(next@ =~= cleaned@.take(abs as int) + cleaned@.skip(abs + end + 1));
            let found = match url_field(split_char(inner@, ',')) {
                Some(u) => if u.len() > 0 { seq![u] } else { seq![] },
                None => seq![],
            };
            assert(strings_view(urls@) == before + found);
            let (c, us) = cq_scan(next@, abs as int);
            assert(cq_scan(cleaned@, cursor as int) == (c, found + us));
            assert(before + (found + us) =~= (before + found) + us);
        }
        cleaned = next;
        cursor = abs;
    }
    (cleaned, urls)
}

// ---------------------------------------------------------------- message segments

/// What the segments of a message have yielded so far.
pub struct SegmentsSoFar {
    pub parts: Seq<Seq<char>>,
    pub mentioned: bool,
    pub image_urls: Seq<Seq<char>>,
    pub image_files: Seq<Seq<char>>,
    pub files: Seq<(Seq<char>, Seq<char>, Option<Seq<char>>)>,
    pub reply: Option<int>,
    pub voices: Seq<(Seq<char>, Seq<char>)>,
    pub videos: Seq<(Seq<char>, Seq<char>)>,
}

pub open spec fn str_or_empty(v: Option<JsonValue>) -> Seq<char> {
    match as_str(v) {
        Some(s) => s,
        None => seq![],
    }
}

/// One segment: `text` adds its text; `at` marks a mention of everyone (adding
/// `[全体]`) or of the bot; `face` adds `[表情<id>]`; `emoji` adds its code or
/// text; `reply` records the quoted message; `image`, `video`, `record` and
/// `file` are collected; anything else is skipped.
pub open spec fn segment_step(st: SegmentsSoFar, seg: JsonValue, self_id: int) -> SegmentsSoFar {
    let ty = as_str(get(seg, "type"@));
    let data = get(seg, "data"@);
    if ty == Some("text"@) {
        match as_str(get_opt(data, "text"@)) {
            Some(t) => SegmentsSoFar { parts: st.parts.push(t), ..st },
            None => st,
        }
    } else if ty == Some("at"@) {
        let q = str_or_empty(get_opt(data, "qq"@));
        if q == "all"@ {
            SegmentsSoFar { mentioned: true, parts: st.parts.push("[全体]"@), ..st }
        } else if parse_i64(q) == Some(self_id) {
            SegmentsSoFar { mentioned: true, ..st }
        } else {
            st
        }
    } else if ty == Some("face"@) {
        let id = match as_u64(get_opt(data, "id"@)) {
            Some(u) => u,
            None => 0,
        };
        SegmentsSoFar { parts: st.parts.push("[表情"@ + decimal(id) + "]"@), ..st }
    } else if ty == Some("emoji"@) {
        match as_str(get_opt(data, "q"@)) {
            Some(q) => SegmentsSoFar { parts: st.parts.push(q), ..st },
            None => match as_str(get_opt(data, "text"@)) {
                Some(t) => SegmentsSoFar { parts: st.parts.push(t), ..st },
                None => st,
            },
        }
    } else if ty == Some("reply"@) {
        if data is Some {
            SegmentsSoFar { reply: as_i64(get_opt(data, "id"@)), ..st }
        } else {
            st
        }
    } else if ty == Some("image"@) {
        match as_str(get_opt(data, "url"@)) {
            Some(u) => if u.len() > 0 {
                SegmentsSoFar { image_urls: st.image_urls.push(u), ..st }
            } else {
                st
            },
            None => match as_str(get_opt(data, "file"@)) {
                Some(f) => if f.len() > 0 {
                    SegmentsSoFar { image_files: st.image_files.push(f), ..st }
                } else {
                    st
                },
                None => st,
            },
        }
    } else if ty == Some("video"@) {
        if data is Some {
            SegmentsSoFar {
                videos: st.videos.push(
                    (str_or_empty(get_opt(data, "url"@)), str_or_empty(get_opt(data, "file"@))),
                ),
                ..st
            }
        } else {
            st
        }
    } else if ty == Some("record"@) {
        if data is Some {
            SegmentsSoFar {
                voices: st.voices.push(
                    (str_or_empty(get_opt(data, "url"@)), str_or_empty(get_opt(data, "file"@))),
                ),
                ..st
            }
        } else {
            st
        }
    } else if ty == Some("file"@) {
        if data is Some {
            SegmentsSoFar {
                files: st.files.push(
                    (
                        str_or_empty(get_opt(data, "name"@)),
                        str_or_empty(get_opt(data, "url"@)),
                        as_str(get_opt(data, "file_id"@)),
                    ),
                ),
                ..st
            }
        } else {
            st
        }
    } else {
        st
    }
}

pub open spec fn no_segments() -> SegmentsSoFar {
    SegmentsSoFar {
        parts: seq![],
        mentioned: false,
        image_urls: seq![],
        image_files: seq![],
        files: seq![],
        reply: None,
        voices: seq![],
        videos: seq![],
    }
}

pub open spec fn segments_fold(segs: Seq<JsonValue>, self_id: int) -> SegmentsSoFar
    decreases segs.len(),
{
    if segs.len() == 0 {
        no_segments()
    } else {
        segment_step(segments_fold(segs.drop_last(), self_id), segs.last(), self_id)
    }
}

/// Whether a segment is an `at` whose `qq` names everyone (`all`) or the bot's
/// own id.
pub open spec fn at_bot(seg: JsonValue, self_id: int) -> bool {
    let q = str_or_empty(get_opt(get(seg, "data"@), "qq"@));
    &&& as_str(get(seg, "type"@)) == Some("at"@)
    &&& (q == "all"@ || parse_i64(q) == Some(self_id))
}

proof fn lemma_step_mentioned(st: SegmentsSoFar, seg: JsonValue, self_id: int)
    ensures
        segment_step(st, seg, self_id).mentioned == (st.mentioned || at_bot(seg, self_id)),
{
    reveal_strlit("text");
    reveal_strlit("at");
    assert("text"@ != "at"@) by {
        assert("text"@.len() != "at"@.len());
    }
}

/// A list of segments mentions the bot exactly when one of them is an `at` of
/// everyone or of the bot's own id: an `at` of anyone else, or any other
/// segment, mentions nobody.
pub proof fn lemma_mentioned_iff_at_bot(segs: Seq<JsonValue>, self_id: int)
    ensures
        segments_fold(segs, self_id).mentioned <==> exists|i: int|
            0 <= i < segs.len() && #[trigger] at_bot(segs[i], self_id),
    decreases segs.len(),
{
    if segs.len() > 0 {
        let front = segs.drop_last();
        lemma_mentioned_iff_at_bot(front, self_id);
        let st = segments_fold(front, self_id);
        lemma_step_mentioned(st, segs.last(), self_id);
        if segments_fold(segs, self_id).mentioned {
            if st.mentioned {
                let i = choose|i: int| 0 <= i < front.len() && #[trigger] at_bot(front[i], self_id);
                assert(segs[i] == front[i]);
            } else {
                assert(at_bot(segs[segs.len() - 1], self_id));
            }
        } else {
            assert forall|i: int| 0 <= i < segs.len() implies !#[trigger] at_bot(segs[i], self_id) by {
                if i < segs.len() - 1 {
                    assert(segs[i] == front[i]);
                }
            }
        }
    }
}

pub open spec fn pairs_view(v: Seq<(String, String)>) -> Seq<(Seq<char>, Seq<char>)> {
    v.map_values(|p: (String, String)| (p.0@, p.1@))
}

pub open spec fn files_view(v: Seq<(String, String, Option<String>)>) -> Seq<(Seq<char>, Seq<char>, Option<Seq<char>>)> {
    v.map_values(|f: (String, String, Option<String>)| (f.0@, f.1@, opt_string_view(f.2)))
}

fn str_or_empty_exec(v: Option<&JsonValue>) -> (r: String)
    ensures
        r@ == str_or_empty(deref_opt(v)),
{
    match json_as_str(v) {
        Some(s) => s.to_string(),
        None => String::new(),
    }
}

/// The inbound message as plain values.
pub struct InboundView {
    pub user_id: int,
    pub message_type: Seq<char>,
    pub group_id: Option<int>,
    pub text: Seq<char>,
    pub mentioned_bot: bool,
    pub message_id: int,
    pub image_urls: Seq<Seq<char>>,
    pub image_files: Seq<Seq<char>>,
    pub files: Seq<(Seq<char>, Seq<char>, Option<Seq<char>>)>,
    pub reply_to_message_id: Option<int>,
    pub voices: Seq<(Seq<char>, Seq<char>)>,
    pub videos: Seq<(Seq<char>, Seq<char>)>,
}

pub open spec fn inbound_view(m: InboundText) -> InboundView {
    InboundView {
        user_id: m.user_id as int,
        message_type: m.message_type@,
        group_id: match m.group_id {
            Some(g) => Some(g as int),
            None => None,
        },
        text: m.text@,
        mentioned_bot: m.mentioned_bot,
        message_id: m.message_id as int,
        image_urls: strings_view(m.image_urls@),
        image_files: strings_view(m.image_files@),
        files: files_view(m.files@),
        reply_to_message_id: match m.reply_to_message_id {
            Some(r) => Some(r as int),
            None => None,
        },
        voices: pairs_view(m.voices@),
        videos: pairs_view(m.videos@),
    }
}

/// A message event read as `parse_inbound` reads it: sender and message type
/// are required; a CQ-coded string gives its text with image codes cut out (and
/// their URLs collected); segments are read as `segment_step` says and their
/// texts joined by spaces; the trimmed text is kept, and an event with no text,
/// no mention and nothing attached is dropped.
pub open spec fn parsed_inbound(v: JsonValue, self_id: int) -> Option<InboundView> {
    let user_id = as_i64(get(v, "user_id"@));
    let message_type = as_str(get(v, "message_type"@));
    let message = get(v, "message"@);
    if user_id is None || message_type is None {
        None
    } else {
        let st = match message {
            Some(JsonValue::String(raw)) => {
                let (cleaned, urls) = cq_scan(raw@, 0);
                Some((cleaned, SegmentsSoFar { image_urls: urls, ..no_segments() }))
            },
            Some(JsonValue::Array(segs)) => {
                let f = segments_fold(segs@, self_id);
                Some((join_with(f.parts, " "@), f))
            },
            _ => None,
        };
        match st {
            None => None,
            Some((raw_text, f)) => {
                let text = trim(raw_text);
                if text.len() == 0 && !f.mentioned && f.image_urls.len() == 0 && f.image_files.len()
                    == 0 && f.files.len() == 0 && f.voices.len() == 0 && f.videos.len() == 0 {
                    None
                } else {
                    Some(
                        InboundView {
                            user_id: user_id->0,
                            message_type: message_type->0,
                            group_id: as_i64(get(v, "group_id"@)),
                            text,
                            mentioned_bot: f.mentioned,
                            message_id: match as_i64(get(v, "message_id"@)) {
                                Some(m) => m,
                                None => 0,
                            },
                            image_urls: f.image_urls,
                            image_files: f.image_files,
                            files: f.files,
                            reply_to_message_id: f.reply,
                            voices: f.voices,
                            videos: f.videos,
                        },
                    )
                }
            },
        }
    }
}

pub fn parse_inbound(value: &JsonValue, self_id: i64) -> (r: Option<InboundText>)
    ensures
        match r {
            Some(m) => parsed_inbound(*value, self_id as int) == Some(inbound_view(m)),
            None => parsed_inbound(*value, self_id as int) is None,
        },
        r matches Some(m) ==> {
            &&& as_i64(get(*value, "user_id"@)) == Some(m.user_id as int)
            &&& as_str(get(*value, "message_type"@)) == Some(m.message_type@)
            &&& as_i64(get(*value, "group_id"@)) == inbound_view(m).group_id
        },
        as_i64(get(*value, "user_id"@)) is None || as_str(get(*value, "message_type"@)) is None
            ==> r is None,
        r matches Some(m) ==> match get(*value, "message"@) {
            Some(JsonValue::Array(segs)) => m.mentioned_bot <==> exists|i: int|
                0 <= i < segs@.len() && #[trigger] at_bot(segs@[i], self_id as int),
            _ => !m.mentioned_bot,
        },
        ({
            let msg = get(*value, "message"@);
            &&& as_i64(get(*value, "user_id"@)) is Some
            &&& as_str(get(*value, "message_type"@)) is Some
            &&& msg matches Some(JsonValue::Array(segs)) && exists|i: int|
                0 <= i < segs@.len() && #[trigger] at_bot(segs@[i], self_id as int)
        }) ==> (r is Some && r->0.mentioned_bot),
{
    let user_id = match json_as_i64(json_get(value, "user_id")) {
        Some(u) => u,
        None => { return None; },
    };
    let message_type = match json_as_str(json_get(value, "message_type")) {
        Some(t) => t.to_string(),
        None => { return None; },
    };
    let group_id = json_as_i64(json_get(value, "group_id"));
    let message_id = match json_as_i64(json_get(value, "message_id")) {
        Some(m) => m,
        None => 0,
    };
    let mut parts: Vec<String> = Vec::new();
    let mut mentioned = false;
    let mut image_urls: Vec<String> = Vec::new();
    let mut image_files: Vec<String> = Vec::new();
    let mut files: Vec<(String, String, Option<String>)> = Vec::new();
    let mut reply: Option<i64> = None;
    let mut voices: Vec<(String, String)> = Vec::new();
    let mut videos: Vec<(String, String)> = Vec::new();
    let ghost mut fold: SegmentsSoFar = no_segments();
    let raw_text: Vec<char> = match json_get(value, "message") {
        Some(JsonValue::String(raw)) => {
            let r = chars_of(raw.as_str());
            let (cleaned, urls) = cq_scan_exec(r.as_slice());
            image_urls = urls;
            proof {
                fold = SegmentsSoFar { image_urls: cq_scan(raw@, 0).1, ..no_segments() };
                assert(files_view(files@) =~= fold.files);
                assert(pairs_view(voices@) =~= fold.voices);
                assert(pairs_view(videos@) =~= fold.videos);
                assert(strings_view(image_files@) =~= fold.image_files);
            }
            cleaned
        },
        Some(JsonValue::Array(segs)) => {
            let mut i: usize = 0;
            while i < segs.len()
                invariant
                    i <= segs.len(),
                    strings_view(parts@) == segments_fold(segs@.take(i as int), self_id as int).parts,
                    mentioned == segments_fold(segs@.take(i as int), self_id as int).mentioned,
                    strings_view(image_urls@) == segments_fold(segs@.take(i as int), self_id as int).image_urls,
                    strings_view(image_files@) == segments_fold(segs@.take(i as int), self_id as int).image_files,
                    files_view(files@) == segments_fold(segs@.take(i as int), self_id as int).files,
                    (match reply {
                        Some(r) => Some(r as int),
                        None => None,
                    }) == segments_fold(segs@.take(i as int), self_id as int).reply,
                    pairs_view(voices@) == segments_fold(segs@.take(i as int), self_id as int).voices,
                    pairs_view(videos@) == segments_fold(segs@.take(i as int), self_id as int).videos,
                decreases segs.len() - i,
            {
                proof {
                    assert(segs@.take(i + 1).drop_last() =~= segs@.take(i as int));
                    assert(segs@.take(i + 1).last() == segs@[i as int]);
                }
                let seg = &segs[i];
                let ty = json_as_str(json_get(seg, "type"));
                let data = json_get(seg, "data");
                let tyc: Vec<char> = match ty {
                    Some(t) => chars_of(t),
                    None => Vec::new(),
                };
                let has_ty = ty.is_some();
                let ghost before_parts = strings_view(parts@);
                let ghost before_urls = strings_view(image_urls@);
                let ghost before_files = strings_view(image_files@);
                let ghost before_f = files_view(files@);
                let ghost before_v = pairs_view(voices@);
                let ghost before_vd = pairs_view(videos@);
                if has_ty && str_is(tyc.as_slice(), "text") {
                    match json_as_str(json_get_opt(data, "text")) {
                        Some(t) => {
                            parts.push(t.to_string());
                            assert(strings_view(parts@) =~= before_parts.push(t@));
                        },
                        None => {},
                    }
                } else if has_ty && str_is(tyc.as_slice(), "at") {
                    let q = str_or_empty_exec(json_get_opt(data, "qq"));
                    let qc = chars_of(q.as_str());
                    if str_is(qc.as_slice(), "all") {
                        mentioned = true;
                        parts.push("[全体]".to_string());
                        assert(strings_view(parts@) =~= before_parts.push("[全体]"@));
                    } else {
                        match parse_i64_chars(qc.as_slice()) {
                            Some(t) => {
                                if t == self_id {
                                    mentioned = true;
                                }
                            },
                            None => {},
                        }
                    }
                } else if has_ty && str_is(tyc.as_slice(), "face") {
                    let id = match json_as_u64(json_get_opt(data, "id")) {
                        Some(u) => u,
                        None => 0,
                    };
                    let mut t = chars_of("[表情");
                    let d = u64_decimal(id);
                    extend_chars(&mut t, d.as_slice());
                    extend_str(&mut t, "]");
                    parts.push(string_of(t.as_slice()));
                    assert(strings_view(parts@) =~= before_parts.push(t@));
                } else if has_ty && str_is(tyc.as_slice(), "emoji") {
                    match json_as_str(json_get_opt(data, "q")) {
                        Some(q) => {
                            parts.push(q.to_string());
                            assert(strings_view(parts@) =~= before_parts.push(q@));
                        },
                        None => match json_as_str(json_get_opt(data, "text")) {
                            Some(t) => {
                                parts.push(t.to_string());
                                assert(strings_view(parts@) =~= before_parts.push(t@));
                            },
                            None => {},
                        },
                    }
                } else if has_ty && str_is(tyc.as_slice(), "reply") {
                    if data.is_some() {
                        reply = json_as_i64(json_get_opt(data, "id"));
                    }
                } else if has_ty && str_is(tyc.as_slice(), "image") {
                    match json_as_str(json_get_opt(data, "url")) {
                        Some(u) => {
                            if chars_of(u).len() > 0 {
                                image_urls.push(u.to_string());
                                assert(strings_view(image_urls@) =~= before_urls.push(u@));
                            }
                        },
                        None => match json_as_str(json_get_opt(data, "file")) {
                            Some(f) => {
                                if chars_of(f).len() > 0 {
                                    image_files.push(f.to_string());
                                    assert(strings_view(image_files@) =~= before_files.push(f@));
                                }
                            },
                            None => {},
                        },
                    }
                } else if has_ty && str_is(tyc.as_slice(), "video") {
                    if data.is_some() {
                        let u = str_or_empty_exec(json_get_opt(data, "url"));
                        let f = str_or_empty_exec(json_get_opt(data, "file"));
                        let ghost pair = (u@, f@);
                        videos.push((u, f));
                        assert(pairs_view(videos@) =~= before_vd.push(pair));
                    }
                } else if has_ty && str_is(tyc.as_slice(), "record") {
                    if data.is_some() {
                        let u = str_or_empty_exec(json_get_opt(data, "url"));
                        let f = str_or_empty_exec(json_get_opt(data, "file"));
                        let ghost pair = (u@, f@);
                        voices.push((u, f));
                        assert(pairs_view(voices@) =~= before_v.push(pair));
                    }
                } else if has_ty && str_is(tyc.as_slice(), "file") {
                    if data.is_some() {
                        let name = str_or_empty_exec(json_get_opt(data, "name"));
                        let u = str_or_empty_exec(json_get_opt(data, "url"));
                        let id: Option<String> = match json_as_str(json_get_opt(data, "file_id")) {
                            Some(s) => Some(s.to_string()),
                            None => None,
                        };
                        let ghost triple = (name@, u@, opt_string_view(id));
                        files.push((name, u, id));
                        assert(files_view(files@) =~= before_f.push(triple));
                    }
                }
                proof {
                    assert(strings_view(parts@) == segments_fold(segs@.take(i + 1), self_id as int).parts);
                }
                i += 1;
            }
            assert(segs@.take(segs.len() as int) =~= segs@);
            let mut joined: Vec<char> = Vec::new();
            if parts.len() > 0 {
                extend_str(&mut joined, parts[0].as_str());
                let ghost pv = strings_view(parts@);
                assert(pv.take(1) =~= seq![parts@[0]@]);
                let mut k: usize = 1;
                while k < parts.len()
                    invariant
                        1 <= k <= parts.len(),
                        pv == strings_view(parts@),
                        joined@ == join_with(pv.take(k as int), " "@),
                    decreases parts.len() - k,
                {
                    extend_str(&mut joined, " ");
                    extend_str(&mut joined, parts[k].as_str());
                    proof {
                        assert(pv.take(k + 1).drop_last() =~= pv.take(k as int));
                        assert(pv.take(k + 1).last() == parts@[k as int]@);
                    }
                    k += 1;
                }
                assert(pv.take(parts.len() as int) =~= pv);
            } else {
                assert(strings_view(parts@) =~= Seq::<Seq<char>>::empty());
            }
            proof {
                fold = segments_fold(segs@, self_id as int);
                lemma_mentioned_iff_at_bot(segs@, self_id as int);
            }
            joined
        },
        _ => { return None; },
    };
    assert(strings_view(image_urls@) == fold.image_urls);
    assert(mentioned == fold.mentioned);
    assert(files_view(files@) == fold.files);
    let text = trim_chars(raw_text.as_slice());
    if text.len() == 0 && !mentioned && image_urls.len() == 0 && image_files.len() == 0
        && files.len() == 0 && voices.len() == 0 && videos.len() == 0 {
        return None;
    }
    Some(
        InboundText {
            user_id,
            message_type,
            group_id,
            text: string_of(text.as_slice()),
            mentioned_bot: mentioned,
            message_id,
            image_urls,
            image_files,
            files,
            reply_to_message_id: reply,
            voices,
            videos,
        },
    )
}

} // verus!
