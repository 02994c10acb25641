use gqy::json::{JsonNumber, JsonValue};
use gqy::llm::Usage;
use gqy::usage::{
    add_auxiliary_usage, add_usage, clear_last_usage, daily_counts, model_counts, period_counts,
    snapshot, usage_details, usage_record, UsageRecord, UsageState,
};
use gqy::usage::{history_records, period_starts, record_of, HISTORY_LINE_CAP};

fn usage(prompt: u64, completion: u64, total: u64) -> Usage {
    Usage {
        prompt_tokens: prompt,
        completion_tokens: completion,
        total_tokens: total,
        ..Default::default()
    }
}

#[test]
fn records_and_clears_last_usage() {
    let state = add_usage(UsageState::new(), &usage(10, 5, 15));
    let usage_snapshot = snapshot(&state);
    assert_eq!(usage_snapshot.last_usage.unwrap().total_tokens, 15);
    assert_eq!(usage_snapshot.last_conversation_usage.unwrap().prompt_tokens, 10);

    let state = clear_last_usage(state);
    let usage_snapshot = snapshot(&state);
    assert_eq!(usage_snapshot.total_tokens, 15);
    assert!(usage_snapshot.last_usage.is_none());
    assert!(usage_snapshot.last_conversation_usage.is_none());
}

#[test]
fn auxiliary_usage_does_not_replace_conversation_usage() {
    let state = add_usage(UsageState::new(), &usage(100, 20, 120));
    let state = add_auxiliary_usage(state, &usage(5, 2, 7));
    let snapshot = snapshot(&state);
    assert_eq!(snapshot.total_tokens, 127);
    assert_eq!(snapshot.last_usage.unwrap().prompt_tokens, 5);
    assert_eq!(snapshot.last_conversation_usage.unwrap().prompt_tokens, 100);
}

#[test]
fn total_tokens_falls_back_to_prompt_plus_completion() {
    let state = add_usage(UsageState::new(), &usage(7, 3, 0));
    let snapshot = snapshot(&state);
    assert_eq!(snapshot.total_tokens, 10);
}

#[test]
fn only_auxiliary_usage_still_shows_as_last_conversation() {
    let state = add_auxiliary_usage(UsageState::new(), &usage(4, 1, 5));
    let snap = snapshot(&state);
    assert_eq!(snap.requests, 1);
    assert_eq!(snap.last_conversation_usage.unwrap().total_tokens, 5);
}

fn history() -> (Vec<UsageRecord>, Vec<i64>, i64) {
    let today: i64 = 20_000;
    let mut records = Vec::new();
    let mut days = Vec::new();
    for (day, provider, model, prompt, completion) in [
        (today, "deepseek", "deepseek-chat", 100, 50),
        (today, "deepseek", "deepseek-reasoner", 200, 300),
        (today - 1, "openai", "gpt-4o", 1000, 500),
    ] {
        records.push(usage_record(&usage(prompt, completion, prompt + completion), provider, model, false, day * 86_400));
        days.push(day);
    }
    (records, days, today)
}

#[test]
fn usage_stats_aggregates_daily_and_per_model() {
    let (records, days, today) = history();
    let stats = period_counts(&records, &days, today, today - 3, today - 10);
    assert_eq!(stats.total.requests, 3);
    assert_eq!(stats.total.total_tokens, 2150);
    assert_eq!(stats.today.requests, 2);
    assert_eq!(stats.today.total_tokens, 650);
    assert!(stats.this_week.total_tokens >= 650);
    assert!(stats.this_month.total_tokens >= 650);

    let daily = daily_counts(&records, &days, today);
    assert_eq!(daily.len(), 365);
    assert_eq!(daily.last().unwrap().counts.total_tokens, 650);
    assert_eq!(daily.last().unwrap().counts.requests, 2);
    assert_eq!(daily[364 - 1].counts.total_tokens, 1500);

    let models = model_counts(&records);
    assert_eq!(models.len(), 3);
    assert_eq!(models[0].model, "gpt-4o");
    assert_eq!(models[0].counts.total_tokens, 1500);
    assert_eq!(models[1].model, "deepseek-reasoner");
    assert_eq!(models[2].model, "deepseek-chat");
}

#[test]
fn periods_cover_only_their_days() {
    let (records, days, today) = history();
    let stats = period_counts(&records, &days, today, today, today);
    assert_eq!(stats.this_week.requests, 2);
    assert_eq!(stats.this_month.prompt_tokens, 300);
    assert_eq!(stats.total.completion_tokens, 850);
    let daily = daily_counts(&records, &days, today);
    assert_eq!(daily[0].day, today - 364);
    assert_eq!(daily[0].counts.requests, 0);
}

#[test]
fn model_counts_group_lines_without_names() {
    let mut records = Vec::new();
    records.push(usage_record(&usage(1, 1, 2), "", "", true, 10));
    records.push(usage_record(&usage(3, 3, 6), "p", "m", false, 11));
    let mut cached = usage_record(&usage(5, 5, 10), "", "", false, 12);
    cached.cache_read = Some(7);
    records.push(cached);
    let models = model_counts(&records);
    assert_eq!(models.len(), 2);
    assert_eq!((models[0].provider_id.as_str(), models[0].model.as_str()), ("unknown", "(未标注)"));
    assert_eq!(models[0].counts.requests, 2);
    assert_eq!(models[0].counts.total_tokens, 12);
    assert_eq!(models[0].cache_read, 7);
    assert_eq!(models[1].counts.total_tokens, 6);
    assert_eq!(model_counts(&[]).len(), 0);
}

#[test]
fn usage_details_list_newest_first() {
    let (records, _, _) = history();
    let details = usage_details(&records, 2);
    assert_eq!(details.len(), 2);
    assert_eq!(details[0].model, "gpt-4o");
    assert_eq!(details[1].model, "deepseek-reasoner");
    assert_eq!(usage_details(&records, 10).len(), 3);
}

#[test]
fn model_requests_add_up_to_the_total() {
    let (mut records, mut days, today) = history();
    records.push(usage_record(&usage(1, 1, 2), "deepseek", "deepseek-chat", true, 0));
    days.push(today - 400);
    let models = model_counts(&records);
    let sum: u64 = models.iter().map(|m| m.counts.requests).sum();
    let stats = period_counts(&records, &days, today, today, today);
    assert_eq!(sum, stats.total.requests);
    assert_eq!(sum, 4);
}

#[test]
fn periods_nest_within_each_other() {
    let (records, days, today) = history();
    let stats = period_counts(&records, &days, today, today - 1, today - 5);
    assert!(stats.today.requests <= stats.this_week.requests);
    assert!(stats.this_week.requests <= stats.this_month.requests);
    assert!(stats.this_month.requests <= stats.total.requests);
    assert_eq!(stats.this_week.requests, 3);
}

fn line(members: Vec<(&str, JsonValue)>) -> Option<JsonValue> {
    Some(JsonValue::Object(members.into_iter().map(|(k, v)| (k.to_string(), v)).collect()))
}

#[test]
fn history_lines_are_read_like_the_stored_records() {
    let lines = vec![
        line(vec![
            ("ts", JsonValue::Number(JsonNumber::PosInt(100))),
            ("provider", JsonValue::String("deepseek".to_string())),
            ("total", JsonValue::Number(JsonNumber::PosInt(9))),
            ("cache_read", JsonValue::Null),
        ]),
        None,
        line(vec![("prompt", JsonValue::String("many".to_string()))]),
        Some(JsonValue::Array(vec![])),
        line(vec![("aux", JsonValue::Bool(true)), ("cache_read", JsonValue::Number(JsonNumber::PosInt(3)))]),
    ];
    let records = history_records(&lines);
    assert_eq!(records.len(), 2);
    assert_eq!((records[0].ts, records[0].provider.as_str(), records[0].total, records[0].cache_read), (100, "deepseek", 9, None));
    assert_eq!((records[1].aux, records[1].cache_read, records[1].model.as_str()), (true, Some(3), ""));
    assert!(record_of(&JsonValue::Bool(true)).is_none());
    assert_eq!(HISTORY_LINE_CAP, 200_000);
    assert_eq!(period_starts(1000, 3, 10), (997, 991));
}
