use gqy::alarm::{
    alarm_log_file, alarms_file, cancel, cleanup_dead, parse_alarm_seconds, remove, upsert,
    update_status, AlarmRecord, AlarmStatus, AlarmTimeError,
};
use gqy::paths::GqyPaths;

fn record(id: &str, pid: Option<u32>) -> AlarmRecord {
    AlarmRecord {
        id: id.to_string(),
        label: "test".to_string(),
        time: "30s".to_string(),
        audio_file: None,
        due_at: 123,
        pid,
        status: AlarmStatus::Scheduled,
        repeat_seconds: 0,
        max_rings: 0,
    }
}

#[test]
fn parses_alarm_durations() {
    assert_eq!(parse_alarm_seconds("30s").unwrap(), 30);
    assert_eq!(parse_alarm_seconds("10m").unwrap(), 600);
    assert_eq!(parse_alarm_seconds("1h 2m 3s").unwrap(), 3723);
    assert!(parse_alarm_seconds("0s").is_err());
}

#[test]
fn alarm_durations_report_each_error() {
    assert_eq!(parse_alarm_seconds("0s"), Err(AlarmTimeError::Zero));
    assert_eq!(parse_alarm_seconds("xs"), Err(AlarmTimeError::InvalidNumber));
    assert_eq!(parse_alarm_seconds("5d"), Err(AlarmTimeError::InvalidUnit));
    assert_eq!(parse_alarm_seconds("s"), Err(AlarmTimeError::InvalidTime));
    assert_eq!(parse_alarm_seconds("25:00"), Err(AlarmTimeError::InvalidClock));
}

#[test]
fn alarm_log_uses_cache_directory() {
    let paths = GqyPaths::from_isolated_home("/tmp/gqy-alarm-home", "/usr/share/gqy", "/usr/share/gqy/scripts");
    assert_eq!(alarm_log_file(&paths), format!("{}/logs/alarm.log", paths.cache_dir));
    assert_eq!(alarms_file(&paths), format!("{}/alarms.json", paths.state_dir));
}

#[test]
fn saves_updates_and_removes_alarm_records() {
    let mut records = Vec::new();
    upsert(&mut records, record("alarm-test", None));
    assert_eq!(records.len(), 1);
    update_status(&mut records, "alarm-test", AlarmStatus::Ringing);
    assert_eq!(records[0].status, AlarmStatus::Ringing);
    assert!(remove(&mut records, "alarm-test").is_some());
    assert!(records.is_empty());
}

#[test]
fn upsert_replaces_a_record_with_the_same_id() {
    let mut records = Vec::new();
    upsert(&mut records, record("a", None));
    upsert(&mut records, record("b", None));
    let mut again = record("a", Some(7));
    again.label = "again".to_string();
    upsert(&mut records, again);
    assert_eq!(records.len(), 2);
    assert_eq!(records.iter().filter(|r| r.id == "a").count(), 1);
    let a = records.iter().find(|r| r.id == "a").unwrap();
    assert_eq!(a.label, "again");
}

#[test]
fn cleanup_dead_keeps_records_with_live_workers_only() {
    let records = vec![record("alarm-dead", Some(999999)), record("alarm-live", Some(1))];
    let kept = cleanup_dead(records, &[false, true]);
    assert_eq!(kept.len(), 1);
    assert_eq!(kept[0].id, "alarm-live");
}

#[test]
fn cancel_removes_the_record_and_names_its_worker() {
    let mut records = vec![record("x", Some(42))];
    let (removed, pid) = cancel(&mut records, "x", None);
    assert!(removed);
    assert_eq!(pid, Some(42));
    assert!(records.is_empty());
    let (removed, pid) = cancel(&mut records, "x", None);
    assert!(!removed);
    assert_eq!(pid, None);
}

#[test]
fn alarm_times_are_checked_before_reading() {
    assert!(gqy::alarm::alarm_time_readable("1h 30m"));
    assert!(gqy::alarm::alarm_time_readable("07:30"));
    assert!(gqy::alarm::alarm_time_readable("ten minutes"));
    assert!(!gqy::alarm::alarm_time_readable("5分"));
    assert!(gqy::alarm::alarm_time_readable("99999999999999999999h"));
    assert!(!gqy::alarm::alarm_time_readable("5124095576030432h"));
    assert!(!gqy::alarm::alarm_time_readable("18446744073709551615s 1s"));
}
