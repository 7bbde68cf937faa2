use syla::level::LogLevel;
use syla::log_parser::LogEntry;
use syla::log_streamer::{
    format_entry, log_file_path, select_entries, should_display, start_marker, LogFormat,
    LogStreamConfig, LogStreamer,
};

fn entry(service: &str, level: LogLevel, message: &str) -> LogEntry {
    LogEntry {
        timestamp_millis: 0,
        service: service.to_string(),
        level,
        message: message.to_string(),
        fields: Vec::new(),
        raw: message.to_string(),
    }
}

#[test]
fn min_level_filter_keeps_exactly_warn_and_error_in_order() {
    let entries = vec![
        entry("a", LogLevel::Info, "m1"),
        entry("a", LogLevel::Warn, "m2"),
        entry("a", LogLevel::Debug, "m3"),
        entry("a", LogLevel::Error, "m4"),
        entry("a", LogLevel::Warn, "m5"),
        entry("a", LogLevel::Trace, "m6"),
    ];
    let config = LogStreamConfig { level_filter: Some(LogLevel::Warn), lines: None, ..Default::default() };
    let selected = select_entries(&entries, &config);
    let messages: Vec<&str> = selected.iter().map(|e| e.message.as_str()).collect();
    assert_eq!(messages, vec!["m2", "m4", "m5"]);
}

#[test]
fn tail_keeps_the_last_two_of_five_matches_in_order() {
    let entries = vec![
        entry("a", LogLevel::Warn, "m1"),
        entry("a", LogLevel::Warn, "m2"),
        entry("a", LogLevel::Info, "skip"),
        entry("a", LogLevel::Warn, "m3"),
        entry("a", LogLevel::Warn, "m4"),
        entry("a", LogLevel::Warn, "m5"),
    ];
    let config = LogStreamConfig {
        level_filter: Some(LogLevel::Warn),
        lines: Some(2),
        ..Default::default()
    };
    let selected = select_entries(&entries, &config);
    let messages: Vec<&str> = selected.iter().map(|e| e.message.as_str()).collect();
    assert_eq!(messages, vec!["m4", "m5"]);
}

#[test]
fn service_filter_is_substring_containment() {
    let config = LogStreamConfig {
        service_filter: Some("api".to_string()),
        ..Default::default()
    };
    assert!(should_display(&entry("core-api-gateway", LogLevel::Info, "m"), &config));
    assert!(!should_display(&entry("worker", LogLevel::Info, "m"), &config));
}

#[test]
fn pattern_filter_is_a_regular_expression_match() {
    let config = LogStreamConfig {
        pattern_filter: Some("bo+m".to_string()),
        ..Default::default()
    };
    assert!(should_display(&entry("a", LogLevel::Info, "it went booom"), &config));
    assert!(!should_display(&entry("a", LogLevel::Info, "bm only"), &config));
    // an invalid pattern matches nothing
    let bad = LogStreamConfig { pattern_filter: Some("(".to_string()), ..Default::default() };
    assert!(!should_display(&entry("a", LogLevel::Info, "("), &bad));
}

#[test]
fn all_filters_must_pass_together() {
    let config = LogStreamConfig {
        level_filter: Some(LogLevel::Warn),
        service_filter: Some("api".to_string()),
        pattern_filter: Some("disk".to_string()),
        ..Default::default()
    };
    assert!(should_display(&entry("api", LogLevel::Error, "disk full"), &config));
    assert!(!should_display(&entry("api", LogLevel::Info, "disk full"), &config));
    assert!(!should_display(&entry("db", LogLevel::Error, "disk full"), &config));
    assert!(!should_display(&entry("api", LogLevel::Error, "memory low"), &config));
}

#[test]
fn raw_format_shows_the_original_line() {
    let e = entry("svc", LogLevel::Info, "as it came");
    assert_eq!(format_entry(&e, LogFormat::Raw), "as it came");
}

#[test]
fn json_format_is_exact() {
    let mut e = entry("svc", LogLevel::Warn, "hi \"there\"\n");
    e.fields.push(("extra".to_string(), "y".to_string(), true));
    e.fields.push(("count".to_string(), "3".to_string(), false));
    let rendered = format_entry(&e, LogFormat::Json);
    assert_eq!(
        rendered,
        "{\"timestamp_millis\":0,\"service\":\"svc\",\"level\":\"WARN\",\
         \"message\":\"hi \\\"there\\\"\\n\",\"fields\":{\"extra\":\"y\",\"count\":3},\
         \"raw\":\"hi \\\"there\\\"\\n\"}",
    );
}

#[test]
fn pretty_format_shows_time_level_service_message() {
    let mut e = entry("svc", LogLevel::Info, "hello");
    e.timestamp_millis = 1_704_067_200_000 + 3_723_456;  // 01:02:03.456 into the day
    let rendered = format_entry(&e, LogFormat::Pretty);
    assert_eq!(rendered, "01:02:03.456 INFO  svc hello");
}

#[test]
fn pretty_format_appends_fields_on_a_second_line() {
    let mut e = entry("svc", LogLevel::Warn, "msg");
    e.fields.push(("k".to_string(), "v".to_string(), true));
    e.fields.push(("n".to_string(), "7".to_string(), false));
    let rendered = format_entry(&e, LogFormat::Pretty);
    assert_eq!(rendered, "00:00:00.000 WARN  svc msg\n  k=\"v\" n=7");
}

#[test]
fn negative_timestamp_renders_as_midnight_and_signed_json() {
    let mut e = entry("svc", LogLevel::Info, "m");
    e.timestamp_millis = -5;
    assert!(format_entry(&e, LogFormat::Pretty).starts_with("00:00:00.000 "));
    assert!(format_entry(&e, LogFormat::Json).starts_with("{\"timestamp_millis\":-5,"));
}

#[test]
fn streamer_buffers_filters_and_renders() {
    let mut s = LogStreamer::new();
    s.push_entry(entry("a", LogLevel::Info, "one"));
    s.push_entry(entry("a", LogLevel::Error, "two"));
    s.push_entry(entry("a", LogLevel::Warn, "three"));
    let config = LogStreamConfig {
        level_filter: Some(LogLevel::Warn),
        format: LogFormat::Raw,
        ..Default::default()
    };
    let lines = s.stream(&config);
    assert_eq!(lines, vec!["two".to_string(), "three".to_string()]);
    // the buffer was drained
    let again = s.stream(&config);
    assert!(again.is_empty());
}

#[test]
fn add_log_file_replaces_a_service_watcher() {
    let mut s = LogStreamer::new();
    s.add_log_file("svc".to_string(), "/tmp/a.log".to_string(), false);
    s.add_log_file("other".to_string(), "/tmp/b.log".to_string(), true);
    s.add_log_file("svc".to_string(), "/tmp/c.log".to_string(), true);
    assert_eq!(s.watchers.len(), 2);
    assert_eq!(s.watchers[0].1, "/tmp/c.log");
    s.stop();
    assert!(s.watchers.is_empty());
}

#[test]
fn default_stream_config() {
    let c = LogStreamConfig::default();
    assert!(!c.follow);
    assert_eq!(c.lines, Some(100));
    assert!(c.level_filter.is_none());
    assert!(c.service_filter.is_none());
    assert!(c.pattern_filter.is_none());
    assert!(matches!(c.format, LogFormat::Pretty));
    assert_eq!(c.buffer_size, 8192);
}

#[test]
fn start_marker_is_stamped_with_the_clock() {
    assert_eq!(
        start_marker("svc", 0),
        "1970-01-01 00:00:00 [INFO] Service 'svc' started",
    );
    assert_eq!(
        start_marker("api", 1_704_067_200_000 + 3_600_000),
        "2024-01-01 01:00:00 [INFO] Service 'api' started",
    );
    // an instant outside the calendar range falls back to the epoch
    assert_eq!(
        start_marker("svc", -1),
        "1970-01-01 00:00:00 [INFO] Service 'svc' started",
    );
}

#[test]
fn log_file_path_is_dir_slash_service_dot_log() {
    assert_eq!(log_file_path("api", "/tmp/.logs"), "/tmp/.logs/api.log");
}

#[test]
fn follow_mode_stream_returns_the_whole_filtered_backlog() {
    let mut s = LogStreamer::new();
    s.push_entry(entry("a", LogLevel::Warn, "w1"));
    s.push_entry(entry("a", LogLevel::Info, "skip"));
    s.push_entry(entry("a", LogLevel::Warn, "w2"));
    s.push_entry(entry("a", LogLevel::Warn, "w3"));
    let config = LogStreamConfig {
        follow: true,
        lines: Some(1),  // ignored by a follower: it wants the whole backlog
        level_filter: Some(LogLevel::Warn),
        format: LogFormat::Raw,
        ..Default::default()
    };
    let lines = s.stream(&config);
    assert_eq!(lines, vec!["w1".to_string(), "w2".to_string(), "w3".to_string()]);
}
