//! Speech: the arguments given to the system voice, the request sent to the
//! cloned-voice service, the voices the system lists, and what the `speak`
//! and `listen_audio` tools answer. Running the programs is the caller's.
use vstd::prelude::*;
use vstd::utf8::encode_utf8;
use crate::json::{as_bool, as_str, get, json_as_bool, json_as_str, json_get, JsonNumber, JsonValue};
use crate::local_tools::opt_view;
use crate::memory_tools::text_member;
use crate::text::{
    chars_of, extend_str, is_ascii_alphanumeric, lines, lines_of, split_whitespace_chars, split_ws,
    string_of, trim, trim_str,
};

verus! {

pub open spec fn strings_view(v: Seq<String>) -> Seq<Seq<char>> {
    v.map_values(|s: String| s@)
}

/// The system voice's arguments: `-v <voice>` when a voice is named, `-o
/// <file>` when the speech goes to a file, then the text, trimmed.
pub open spec fn say_args_spec(text: Seq<char>, voice: Option<Seq<char>>, output: Option<Seq<char>>) -> Seq<Seq<char>> {
    (match voice {
        Some(v) => if trim(v).len() > 0 {
            seq!["-v"@, v]
        } else {
            seq![]
        },
        None => seq![],
    }) + (match output {
        Some(o) => seq!["-o"@, o],
        None => seq![],
    }) + seq![trim(text)]
}

/// The arguments of `say` for a text; a blank text is refused.
pub fn say_args(text: &str, voice: Option<&str>, output: Option<&str>) -> (r: Result<Vec<String>, &'static str>)
    ensures
        match r {
            Ok(a) => trim(text@).len() > 0 && strings_view(a@) == say_args_spec(text@, opt_view(voice), opt_view(output)),
            Err(m) => trim(text@).len() == 0 && m@ == "text is required"@,
        },
{
    let t = trim_str(text);
    if t.len() == 0 {
        return Err("text is required");
    }
    let mut a: Vec<String> = Vec::new();
    if let Some(v) = voice {
        if trim_str(v).len() > 0 {
            a.push("-v".to_string());
            a.push(v.to_string());
        }
    }
    let ghost first = strings_view(a@);
    if let Some(o) = output {
        a.push("-o".to_string());
        a.push(o.to_string());
    }
    let ghost second = strings_view(a@);
    a.push(string_of(t.as_slice()));
    proof {
        let vpart: Seq<Seq<char>> = match opt_view(voice) {
            Some(v) => if trim(v).len() > 0 {
                seq!["-v"@, v]
            } else {
                seq![]
            },
            None => seq![],
        };
        let opart: Seq<Seq<char>> = match opt_view(output) {
            Some(o) => seq!["-o"@, o],
            None => seq![],
        };
        assert(first =~= vpart);
        assert(second =~= vpart + opart);
        assert(strings_view(a@) =~= vpart + opart + seq![trim(text@)]);
    }
    Ok(a)
}

/// An ASCII byte that stands for itself in a request address.
pub open spec fn unreserved_byte(b: u8) -> bool {
    (0x30 <= b <= 0x39) || (0x41 <= b <= 0x5a) || (0x61 <= b <= 0x7a) || b == 0x2d || b == 0x5f || b
        == 0x2e || b == 0x7e
}

/// An upper-case hexadecimal digit.
pub open spec fn hex_digit(d: u8) -> char {
    if d < 10 {
        ((0x30 + d) as u8) as char
    } else {
        ((0x41 + d - 10) as u8) as char
    }
}

/// How one byte of the text is written in the address: letters, digits and
/// `-_.~` as they are, a space as `+`, any other byte as `%XX`.
pub open spec fn encoded_byte(b: u8) -> Seq<char> {
    if unreserved_byte(b) {
        seq![b as char]
    } else if b == 0x20 {
        seq!['+']
    } else {
        seq!['%', hex_digit(b / 16), hex_digit(b % 16)]
    }
}

/// The text's UTF-8 bytes as written in the address.
pub open spec fn url_encoded(bytes: Seq<u8>) -> Seq<char>
    decreases bytes.len(),
{
    if bytes.len() == 0 {
        seq![]
    } else {
        url_encoded(bytes.drop_last()) + encoded_byte(bytes.last())
    }
}

fn hex_char(d: u8) -> (c: char)
    requires
        d < 16,
    ensures
        c == hex_digit(d),
{
    if d < 10 {
        (0x30 + d) as char
    } else {
        (0x41 + d - 10) as char
    }
}

/// The service the cloned voice is asked at, unless another is set.
pub open spec fn tts_base(base: Option<Seq<char>>) -> Seq<char> {
    match base {
        Some(b) => b,
        None => "http://127.0.0.1:8091"@,
    }
}

/// The request that asks the cloned-voice service to read a text: the trimmed
/// text, encoded, after `/tts?text=`; a blank text is refused.
pub fn tts_url(text: &str, base: Option<&str>) -> (r: Result<String, &'static str>)
    ensures
        match r {
            Ok(u) => trim(text@).len() > 0 && u@ == tts_base(opt_view(base)) + "/tts?text="@ + url_encoded(
                encode_utf8(trim(text@)),
            ),
            Err(m) => trim(text@).len() == 0 && m@ == "text is required"@,
        },
{
    let t = trim_str(text);
    if t.len() == 0 {
        return Err("text is required");
    }
    let trimmed = string_of(t.as_slice());
    let bytes = trimmed.as_str().as_bytes();
    let mut out = chars_of(match base {
        Some(b) => b,
        None => "http://127.0.0.1:8091",
    });
    extend_str(&mut out, "/tts?text=");
    let ghost head = out@;
    let mut i: usize = 0;
    while i < bytes.len()
        invariant
            i <= bytes@.len(),
            out@ == head + url_encoded(bytes@.take(i as int)),
        decreases bytes.len() - i,
    {
        let b = bytes[i];
        let ghost before = out@;
        if (0x30 <= b && b <= 0x39) || (0x41 <= b && b <= 0x5a) || (0x61 <= b && b <= 0x7a) || b == 0x2d || b
            == 0x5f || b == 0x2e || b == 0x7e {
            out.push(b as char);
        } else if b == 0x20 {
            out.push('+');
        } else {
            out.push('%');
            out.push(hex_char(b / 16));
            out.push(hex_char(b % 16));
        }
        proof {
            assert(bytes@.take(i + 1).drop_last() =~= bytes@.take(i as int));
            assert(out@ =~= before + encoded_byte(b));
        }
        i += 1;
    }
    assert(bytes@.take(bytes@.len() as int) =~= bytes@);
    Ok(string_of(out.as_slice()))
}

/// The first word of each line that has one.
pub open spec fn first_words(ls: Seq<Seq<char>>) -> Seq<Seq<char>>
    decreases ls.len(),
{
    if ls.len() == 0 {
        seq![]
    } else {
        let prev = first_words(ls.drop_last());
        let w = split_ws(ls.last());
        if w.len() > 0 {
            prev.push(w[0])
        } else {
            prev
        }
    }
}

/// The voices in the listing `say -v '?'` prints: the first word of each line.
pub fn voice_names(listing: &str) -> (r: Vec<String>)
    ensures
        strings_view(r@) == first_words(lines(listing@)),
{
    let ls = lines_of(chars_of(listing).as_slice());
    let ghost lv = lines(listing@);
    let mut out: Vec<String> = Vec::new();
    let mut i: usize = 0;
    while i < ls.len()
        invariant
            i <= ls@.len(),
            ls@.len() == lv.len(),
            forall|k: int| 0 <= k < ls@.len() ==> #[trigger] ls@[k]@ == lv[k],
            strings_view(out@) == first_words(lv.take(i as int)),
        decreases ls.len() - i,
    {
        let words = split_whitespace_chars(ls[i].as_slice());
        proof {
            assert(lv.take(i + 1).drop_last() =~= lv.take(i as int));
            assert(lv.take(i + 1).last() == ls@[i as int]@);
        }
        if words.len() > 0 {
            let ghost before = out@;
            out.push(string_of(words[0].as_slice()));
            assert(strings_view(out@) =~= strings_view(before).push(words@[0]@));
        }
        i += 1;
    }
    assert(lv.take(ls@.len() as int) =~= lv);
    out
}

/// What the speech recognizer's answer yields: its text when it reports
/// success, else the error it reports.
pub open spec fn transcript_spec(parsed: JsonValue) -> Result<Seq<char>, Seq<char>> {
    if as_bool(get(parsed, "ok"@)) != Some(true) {
        Err("speech recognition failed: "@ + match as_str(get(parsed, "error"@)) {
            Some(e) => e,
            None => "unknown error"@,
        })
    } else {
        match as_str(get(parsed, "text"@)) {
            Some(t) => Ok(t),
            None => Err("speech-tool returned no text"@),
        }
    }
}

pub fn transcript(parsed: &JsonValue) -> (r: Result<String, String>)
    ensures
        match r {
            Ok(t) => transcript_spec(*parsed) == Ok::<Seq<char>, Seq<char>>(t@),
            Err(m) => transcript_spec(*parsed) == Err::<Seq<char>, Seq<char>>(m@),
        },
{
    if json_as_bool(json_get(parsed, "ok")) != Some(true) {
        let mut m = chars_of("speech recognition failed: ");
        extend_str(&mut m, match json_as_str(json_get(parsed, "error")) {
            Some(e) => e,
            None => "unknown error",
        });
        return Err(string_of(m.as_slice()));
    }
    match json_as_str(json_get(parsed, "text")) {
        Some(t) => Ok(t.to_string()),
        None => Err("speech-tool returned no text".to_string()),
    }
}

/// A tool's failure answer.
pub open spec fn failure_reply(r: JsonValue, error: Seq<char>) -> bool {
    r is Object && r->Object_0@.len() == 2 && r->Object_0@[0].0@ == "ok"@ && r->Object_0@[0].1
        == JsonValue::Bool(false) && text_member(r->Object_0@[1], "error"@, error)
}

fn failure(error: &str) -> (r: JsonValue)
    ensures
        failure_reply(r, error@),
{
    let mut es: Vec<(String, JsonValue)> = Vec::new();
    es.push(("ok".to_string(), JsonValue::Bool(false)));
    es.push(("error".to_string(), JsonValue::String(error.to_string())));
    JsonValue::Object(es)
}

/// The text the `speak` tool reads: its `text` argument, trimmed; a blank
/// one is answered at once.
pub fn speak_request(args: &JsonValue) -> (r: Result<String, JsonValue>)
    ensures
        match r {
            Ok(t) => t@ == match as_str(get(*args, "text"@)) {
                Some(v) => trim(v),
                None => seq![],
            } && t@.len() > 0,
            Err(reply) => match as_str(get(*args, "text"@)) {
                Some(v) => trim(v),
                None => seq![],
            }.len() == 0 && failure_reply(reply, "text is required"@),
        },
{
    let t = match json_as_str(json_get(args, "text")) {
        Some(v) => trim_str(v),
        None => Vec::new(),
    };
    if t.len() == 0 {
        return Err(failure("text is required"));
    }
    Ok(string_of(t.as_slice()))
}

/// What `speak` answers: the number of bytes read (the UTF-8 length of the
/// text), or the error of the voice.
pub fn speak_reply(text: &str, outcome: Result<(), String>) -> (r: JsonValue)
    ensures
        match outcome {
            Ok(()) => r is Object && r->Object_0@.len() == 2 && r->Object_0@[0].0@ == "ok"@
                && r->Object_0@[0].1 == JsonValue::Bool(true) && r->Object_0@[1].0@ == "spoken"@
                && r->Object_0@[1].1 == JsonValue::Number(JsonNumber::PosInt(text.len() as u64)),
            Err(e) => failure_reply(r, e@),
        },
{
    match outcome {
        Ok(()) => {
            let mut es: Vec<(String, JsonValue)> = Vec::new();
            es.push(("ok".to_string(), JsonValue::Bool(true)));
            es.push(("spoken".to_string(), JsonValue::Number(JsonNumber::PosInt(text.len() as u64))));
            JsonValue::Object(es)
        },
        Err(e) => failure(e.as_str()),
    }
}

/// The file and locale `listen_audio` recognizes: the `audio` argument,
/// trimmed (required), and `locale`, `zh-Hans` unless given.
pub fn listen_request(args: &JsonValue) -> (r: Result<(String, String), JsonValue>)
    ensures
        match r {
            Ok((audio, locale)) => audio@ == match as_str(get(*args, "audio"@)) {
                Some(v) => trim(v),
                None => seq![],
            } && audio@.len() > 0 && locale@ == match as_str(get(*args, "locale"@)) {
                Some(l) => l,
                None => "zh-Hans"@,
            },
            Err(reply) => match as_str(get(*args, "audio"@)) {
                Some(v) => trim(v),
                None => seq![],
            }.len() == 0 && failure_reply(reply, "audio path is required"@),
        },
{
    let a = match json_as_str(json_get(args, "audio")) {
        Some(v) => trim_str(v),
        None => Vec::new(),
    };
    if a.len() == 0 {
        return Err(failure("audio path is required"));
    }
    let locale = match json_as_str(json_get(args, "locale")) {
        Some(l) => l.to_string(),
        None => "zh-Hans".to_string(),
    };
    Ok((string_of(a.as_slice()), locale))
}

/// The advice given when recognition fails.
pub const LISTEN_HINT: &'static str = "STT 需要带 bundle 身份的应用授权（macOS 语音识别是 TCC 敏感权限，裸脚本无法自动授权）。CLI 下建议用 macOS 系统听写（快捷键 fn 双击或 系统设置 → 键盘 → 听写）。";

/// What `listen_audio` answers: the text and locale, or the error with the
/// advice on permissions.
pub fn listen_reply(locale: &str, outcome: Result<String, String>) -> (r: JsonValue)
    ensures
        r is Object,
        match outcome {
            Ok(t) => r->Object_0@.len() == 3 && r->Object_0@[0].0@ == "ok"@ && r->Object_0@[0].1
                == JsonValue::Bool(true) && text_member(r->Object_0@[1], "text"@, t@) && text_member(
                r->Object_0@[2],
                "locale"@,
                locale@,
            ),
            Err(e) => r->Object_0@.len() == 3 && r->Object_0@[0].0@ == "ok"@ && r->Object_0@[0].1
                == JsonValue::Bool(false) && text_member(r->Object_0@[1], "error"@, e@) && text_member(
                r->Object_0@[2],
                "hint"@,
                LISTEN_HINT@,
            ),
        },
{
    let mut es: Vec<(String, JsonValue)> = Vec::new();
    match outcome {
        Ok(t) => {
            es.push(("ok".to_string(), JsonValue::Bool(true)));
            es.push(("text".to_string(), JsonValue::String(t)));
            es.push(("locale".to_string(), JsonValue::String(locale.to_string())));
        },
        Err(e) => {
            es.push(("ok".to_string(), JsonValue::Bool(false)));
            es.push(("error".to_string(), JsonValue::String(e)));
            es.push(("hint".to_string(), JsonValue::String(LISTEN_HINT.to_string())));
        },
    }
    JsonValue::Object(es)
}

} // verus!
