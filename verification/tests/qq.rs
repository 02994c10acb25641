use gqy::json::{JsonNumber, JsonValue};
use gqy::qq::{connection_authorized, first_line, matches_trigger_keywords, split_reply, RateLimiter};
use gqy::qq_inbound::parse_inbound;
use gqy::qq_turn::{message_fate, AdminRoute, MessageFate};
use gqy::qq_view::{list_reply, read_reply, view_request, ConversationSummary, StoredTurn, ViewRequest};

fn s(text: &str) -> JsonValue {
    JsonValue::String(text.to_string())
}

fn n(value: i64) -> JsonValue {
    if value < 0 {
        JsonValue::Number(JsonNumber::NegInt(value))
    } else {
        JsonValue::Number(JsonNumber::PosInt(value as u64))
    }
}

fn obj(members: Vec<(&str, JsonValue)>) -> JsonValue {
    JsonValue::Object(members.into_iter().map(|(k, v)| (k.to_string(), v)).collect())
}

fn seg(kind: &str, data: Vec<(&str, JsonValue)>) -> JsonValue {
    obj(vec![("type", s(kind)), ("data", obj(data))])
}

fn event(message_type: &str, user_id: i64, group_id: Option<i64>, message: JsonValue) -> JsonValue {
    let mut members = vec![("message_type", s(message_type)), ("user_id", n(user_id))];
    if let Some(g) = group_id {
        members.push(("group_id", n(g)));
    }
    members.push(("message", message));
    obj(members)
}

#[test]
fn parse_inbound_extracts_text_segments() {
    let value = event(
        "group",
        10001,
        Some(20002),
        JsonValue::Array(vec![
            seg("at", vec![("qq", s("123456"))]),
            seg("text", vec![("text", s("你好 "))]),
            seg("image", vec![("file", s("a.png"))]),
            seg("text", vec![("text", s("清影"))]),
        ]),
    );
    let inbound = parse_inbound(&value, 123456).unwrap();
    assert_eq!(inbound.user_id, 10001);
    assert_eq!(inbound.message_type, "group");
    assert_eq!(inbound.group_id, Some(20002));
    assert_eq!(inbound.text, "你好  清影");
    assert!(inbound.mentioned_bot);
}

#[test]
fn parse_inbound_accepts_plain_string_and_skips_empty() {
    let value = event("private", 1, None, s("直接文本"));
    let inbound = parse_inbound(&value, 0).unwrap();
    assert_eq!(inbound.text, "直接文本");
    assert!(!inbound.mentioned_bot);
    let empty = event("private", 1, None, JsonValue::Array(vec![seg("image", vec![])]));
    assert!(parse_inbound(&empty, 0).is_none());
    let only_at = event("group", 1, None, JsonValue::Array(vec![seg("at", vec![("qq", s("9"))])]));
    let inbound = parse_inbound(&only_at, 9).unwrap();
    assert!(inbound.mentioned_bot);
    assert_eq!(inbound.text, "");
}

#[test]
fn parse_inbound_collects_image_urls() {
    let value = event(
        "private",
        7,
        None,
        JsonValue::Array(vec![
            seg("text", vec![("text", s("看看这张图"))]),
            seg("image", vec![("file", s("abc.jpg")), ("url", s("https://example.com/a.jpg"))]),
            seg("image", vec![("file", s("def.jpg"))]),
        ]),
    );
    let inbound = parse_inbound(&value, 0).unwrap();
    assert_eq!(inbound.text, "看看这张图");
    assert_eq!(inbound.image_urls, vec!["https://example.com/a.jpg"]);
    assert_eq!(inbound.image_files, vec!["def.jpg"]);
    let only_image = event(
        "private",
        7,
        None,
        JsonValue::Array(vec![seg("image", vec![("url", s("https://example.com/b.jpg"))])]),
    );
    let inbound = parse_inbound(&only_image, 0).unwrap();
    assert_eq!(inbound.text, "");
    assert_eq!(inbound.image_urls.len(), 1);
}

#[test]
fn parse_inbound_collects_files() {
    let value = event(
        "group",
        7,
        Some(8),
        JsonValue::Array(vec![
            seg("text", vec![("text", s("文件在这"))]),
            seg(
                "file",
                vec![
                    ("name", s("报告.pdf")),
                    ("url", s("https://example.com/r.pdf")),
                    ("file_id", s("abc123")),
                ],
            ),
            seg("file", vec![("name", s("无url文件.bin")), ("file_id", s("xyz789"))]),
        ]),
    );
    let inbound = parse_inbound(&value, 0).unwrap();
    assert_eq!(inbound.files.len(), 2);
    assert_eq!(
        inbound.files[0],
        ("报告.pdf".to_string(), "https://example.com/r.pdf".to_string(), Some("abc123".to_string()))
    );
    assert_eq!(inbound.files[1].0, "无url文件.bin");
    assert_eq!(inbound.files[1].2, Some("xyz789".to_string()));
    assert_eq!(inbound.text, "文件在这");
}

#[test]
fn parse_inbound_captures_reply_to() {
    let value = event(
        "group",
        7,
        Some(8),
        JsonValue::Array(vec![
            seg("reply", vec![("id", n(424242))]),
            seg("text", vec![("text", s("对，就是这样"))]),
        ]),
    );
    let inbound = parse_inbound(&value, 0).unwrap();
    assert_eq!(inbound.reply_to_message_id, Some(424242));
    assert_eq!(inbound.text, "对，就是这样");
}

#[test]
fn parse_inbound_handles_face_and_emoji() {
    let value = event(
        "private",
        7,
        None,
        JsonValue::Array(vec![
            seg("face", vec![("id", n(21))]),
            seg("emoji", vec![("q", s("😄"))]),
            seg("text", vec![("text", s(" 哈哈"))]),
        ]),
    );
    let inbound = parse_inbound(&value, 0).unwrap();
    assert_eq!(inbound.text, "[表情21] 😄  哈哈");
}

#[test]
fn parse_inbound_collects_videos() {
    let value = event(
        "group",
        7,
        Some(8),
        JsonValue::Array(vec![
            seg("video", vec![("file", s("v.mp4")), ("url", s("https://example.com/v.mp4"))]),
            seg("video", vec![("file", s("v2.mp4"))]),
        ]),
    );
    let inbound = parse_inbound(&value, 0).unwrap();
    assert_eq!(inbound.videos.len(), 2);
    assert_eq!(inbound.videos[0], ("https://example.com/v.mp4".to_string(), "v.mp4".to_string()));
    assert_eq!(inbound.videos[1].1, "v2.mp4");
}

#[test]
fn parse_inbound_extracts_cq_image_urls() {
    let value = event(
        "private",
        7,
        None,
        s("看这个 [CQ:image,file=a.jpg,url=https://example.com/a.png] 怎么样"),
    );
    let inbound = parse_inbound(&value, 0).unwrap();
    assert_eq!(inbound.image_urls, vec!["https://example.com/a.png"]);
    assert_eq!(inbound.text, "看这个  怎么样");
}

#[test]
fn parse_inbound_handles_at_all() {
    let value = event(
        "group",
        7,
        Some(8),
        JsonValue::Array(vec![
            seg("at", vec![("qq", s("all"))]),
            seg("text", vec![("text", s(" 通知"))]),
        ]),
    );
    let inbound = parse_inbound(&value, 0).unwrap();
    assert!(inbound.mentioned_bot, "@all should count as mention");
    assert_eq!(inbound.text, "[全体]  通知");
}

#[test]
fn parse_inbound_needs_a_sender() {
    let value = obj(vec![("message_type", s("private")), ("message", s("hi"))]);
    assert!(parse_inbound(&value, 0).is_none());
}

#[test]
fn split_reply_obeys_max_chars() {
    let long = "字".repeat(100);
    let chunks = split_reply(&long, 30);
    assert_eq!(chunks.len(), 4);
    assert!(chunks.iter().all(|c| c.chars().count() <= 30));
    assert_eq!(split_reply(&long, 0).len(), 1);
    assert_eq!(split_reply("你好", 30), vec!["你好".to_string()]);
}

#[test]
fn split_reply_keeps_every_character() {
    let text = "第一段内容\n\n第二段内容比较长一些\n第三段";
    let chunks = split_reply(text, 8);
    assert!(chunks.iter().all(|c| c.chars().count() <= 8));
    let joined: String = chunks.concat();
    let squeezed: String = text.chars().filter(|c| !c.is_whitespace()).collect();
    let joined_squeezed: String = joined.chars().filter(|c| !c.is_whitespace()).collect();
    assert_eq!(joined_squeezed, squeezed);
}

#[test]
fn rate_limiter_enforces_window() {
    let mut limiter = RateLimiter::new(2, 600);
    assert!(limiter.allow(42, 1000));
    assert!(limiter.allow(42, 1005));
    assert!(!limiter.allow(42, 1010));
    assert!(limiter.allow(7, 1010));
    assert!(limiter.allow(42, 1700));
    let mut unlimited = RateLimiter::new(0, 60);
    for _ in 0..100 {
        assert!(unlimited.allow(1, 1000));
    }
}

#[test]
fn connection_authorized_checks_loopback_without_token() {
    assert!(connection_authorized(None, "", true));
    assert!(!connection_authorized(None, "", false));
    assert!(connection_authorized(Some("Bearer sekrit"), "sekrit", true));
    assert!(!connection_authorized(Some("Bearer sekrit"), "other", true));
    assert!(!connection_authorized(None, "sekrit", true));
}

#[test]
fn first_line_strips_sender_context() {
    assert_eq!(first_line("[QQ 私聊] 发消息的人 老朋友（QQ 555111）。\n你好呀"), "你好呀");
    assert_eq!(first_line("[QQ 群聊] 群「夜猫子之家」（群号 777），发消息的人 A。\n在吗"), "在吗");
    assert_eq!(first_line("普通消息"), "普通消息");
    assert_eq!(first_line("第一行\n第二行"), "第一行");
}

#[test]
fn trigger_keywords_match_as_substrings() {
    let keywords = vec!["Hello".to_string(), String::new()];
    assert!(matches_trigger_keywords(&keywords, "oh Hello there"));
    assert!(!matches_trigger_keywords(&keywords, "oh HELLO there"));
    assert!(!matches_trigger_keywords(&keywords, "goodbye"));
    assert!(!matches_trigger_keywords(&[], "hello"));
}

#[test]
fn conversation_view_lists_and_reads() {
    let args = JsonValue::Object(vec![
        ("action".to_string(), JsonValue::String(" read ".to_string())),
        ("conversation_id".to_string(), JsonValue::String("qq-p-42".to_string())),
        ("limit".to_string(), JsonValue::Number(JsonNumber::PosInt(0))),
    ]);
    match view_request(&args) {
        ViewRequest::Read { conversation_id, limit } => {
            assert_eq!(conversation_id, "qq-p-42");
            assert_eq!(limit, 1);
        },
        ViewRequest::List => panic!("read expected"),
    }
    assert!(matches!(view_request(&JsonValue::Object(vec![])), ViewRequest::List));
    let turns = vec![
        StoredTurn {
            user_timestamp: "09:00".to_string(),
            user_content: "早".to_string(),
            assistant_content: String::new(),
            token_total: 0,
        },
        StoredTurn {
            user_timestamp: " 10:00 ".to_string(),
            user_content: "[QQ 私聊 42]。\n在吗\n还有".to_string(),
            assistant_content: "在呢".to_string(),
            token_total: 12,
        },
    ];
    assert_eq!(
        read_reply("qq-p-42", &turns, 1),
        "会话 qq-p-42（共 2 轮，显示最近 1 轮）\n[用户 10:00] 在吗\n[清影] 在呢（12 tokens）"
    );
    assert_eq!(read_reply("qq-p-42", &[], 5), "会话 qq-p-42 暂无记录。");
    assert!(read_reply("", &turns, 5).starts_with("请提供 conversation_id"));
    let summaries = vec![ConversationSummary {
        conversation_id: "qq-g-7".to_string(),
        turn_count: 3,
        timestamp: Some("2024-01-01".to_string()),
        snippet: "你好".to_string(),
    }];
    assert_eq!(
        list_reply(&summaries),
        "QQ 平台共 1 个会话：\n- 群聊 7（id: qq-g-7，3 轮，最近 2024-01-01）\n  你好\n读取某会话内容：action=read + conversation_id=<id>。"
    );
}

#[test]
fn message_checks_come_in_order() {
    assert_eq!(message_fate(Some(AdminRoute::Stop), false, false, true, true, false, false), MessageFate::Stop);
    assert_eq!(message_fate(Some(AdminRoute::Command), true, false, true, true, false, false), MessageFate::AdminCommand);
    assert_eq!(message_fate(Some(AdminRoute::Command), false, false, true, true, true, true), MessageFate::NotAddressed);
    assert_eq!(message_fate(None, false, true, true, false, false, false), MessageFate::Muted);
    assert_eq!(message_fate(None, false, true, false, false, false, true), MessageFate::RateLimited);
    assert_eq!(message_fate(None, false, true, false, true, false, false), MessageFate::Busy);
    assert_eq!(message_fate(None, false, true, false, false, true, true), MessageFate::Proceed);
}
