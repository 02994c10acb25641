use gqy::json::{JsonNumber, JsonValue};
use gqy::memory_tools::{history_reply, search_request, truncate_chars, HistoryHit};
use gqy::speech::{
    listen_reply, listen_request, say_args, speak_reply, speak_request, transcript, tts_url,
    voice_names, LISTEN_HINT,
};

fn s(text: &str) -> JsonValue {
    JsonValue::String(text.to_string())
}

fn obj(members: Vec<(&str, JsonValue)>) -> JsonValue {
    JsonValue::Object(members.into_iter().map(|(k, v)| (k.to_string(), v)).collect())
}

fn member<'a>(v: &'a JsonValue, key: &str) -> Option<&'a JsonValue> {
    match v {
        JsonValue::Object(es) => es.iter().find(|(k, _)| k == key).map(|(_, v)| v),
        _ => None,
    }
}

#[test]
fn rejects_empty_text() {
    assert_eq!(say_args("   ", None, None).unwrap_err(), "text is required");
    assert_eq!(tts_url("", None).unwrap_err(), "text is required");
}

#[test]
fn say_arguments_follow_voice_and_output() {
    assert_eq!(say_args(" hi ", None, None).unwrap(), vec!["hi"]);
    assert_eq!(say_args("hi", Some("Tingting"), Some("/tmp/a.aiff")).unwrap(), vec!["-v", "Tingting", "-o", "/tmp/a.aiff", "hi"]);
    assert_eq!(say_args("hi", Some("  "), None).unwrap(), vec!["hi"]);
}

#[test]
fn tts_request_encodes_text() {
    assert_eq!(tts_url(" a b-c ", None).unwrap(), "http://127.0.0.1:8091/tts?text=a+b-c");
    assert_eq!(tts_url("你好/", Some("http://h:1")).unwrap(), "http://h:1/tts?text=%E4%BD%A0%E5%A5%BD%2F");
}

#[test]
fn voices_are_first_words_of_lines() {
    let listing = "Albert              en_US    # Hello! My name is Albert.\nTingting   zh_CN    # 你好\n\n";
    assert_eq!(voice_names(listing), vec!["Albert", "Tingting"]);
}

#[test]
fn recognizer_answers_are_read() {
    let ok = obj(vec![("ok", JsonValue::Bool(true)), ("text", s("你好"))]);
    assert_eq!(transcript(&ok).unwrap(), "你好");
    let failed = obj(vec![("ok", JsonValue::Bool(false)), ("error", s("denied"))]);
    assert_eq!(transcript(&failed).unwrap_err(), "speech recognition failed: denied");
    assert_eq!(transcript(&obj(vec![])).unwrap_err(), "speech recognition failed: unknown error");
    let empty = obj(vec![("ok", JsonValue::Bool(true))]);
    assert_eq!(transcript(&empty).unwrap_err(), "speech-tool returned no text");
}

#[test]
fn speech_tools_answer() {
    let text = speak_request(&obj(vec![("text", s(" 早安 "))])).unwrap();
    assert_eq!(text, "早安");
    let reply = speak_reply(&text, Ok(()));
    assert!(matches!(member(&reply, "spoken"), Some(JsonValue::Number(JsonNumber::PosInt(6)))));
    let refused = speak_request(&obj(vec![])).unwrap_err();
    assert!(matches!(member(&refused, "error"), Some(JsonValue::String(e)) if e == "text is required"));
    let (audio, locale) = listen_request(&obj(vec![("audio", s(" /a.m4a "))])).unwrap();
    assert_eq!((audio.as_str(), locale.as_str()), ("/a.m4a", "zh-Hans"));
    assert!(listen_request(&obj(vec![("audio", s(""))])).is_err());
    let reply = listen_reply("en-US", Err("no".to_string()));
    assert!(matches!(member(&reply, "hint"), Some(JsonValue::String(h)) if h == LISTEN_HINT));
    let reply = listen_reply("en-US", Ok("hello".to_string()));
    assert!(matches!(member(&reply, "locale"), Some(JsonValue::String(l)) if l == "en-US"));
}

#[test]
fn chat_history_results_are_cut() {
    assert_eq!(truncate_chars("abcdef", 6), "abcdef");
    assert_eq!(truncate_chars("abcdefg", 6), "abc...");
    assert_eq!(truncate_chars("abcdefg", 2), "...");
    let (query, limit) = search_request(&obj(vec![("query", s(" 旅行 ")), ("max_results", JsonValue::Number(JsonNumber::PosInt(99)))]), true).unwrap();
    assert_eq!((query.as_str(), limit), ("旅行", 50));
    let hit = HistoryHit {
        timestamp: "2024-05-01 10:00".to_string(),
        user_content: "x".repeat(300),
        assistant_content: "好".repeat(10),
    };
    let reply = history_reply(&query, &[hit]);
    match member(&reply, "results") {
        Some(JsonValue::Array(items)) => {
            assert_eq!(items.len(), 1);
            match member(&items[0], "user") {
                Some(JsonValue::String(u)) => assert_eq!(u.chars().count(), 240),
                other => panic!("user: {other:?}"),
            }
        },
        other => panic!("results: {other:?}"),
    }
}
