use syla::level::LogLevel;
use syla::log_parser::parse_line;
use syla::log_watcher::{drain_lines, LogWatcher};

#[test]
fn json_line_round_trip() {
    let entry = parse_line("{\"level\":\"warn\",\"message\":\"x\",\"extra\":\"y\"}", "svc", 42)
        .expect("a JSON object line yields a record");
    assert_eq!(entry.level, LogLevel::Warn);
    assert_eq!(entry.message, "x");
    assert_eq!(entry.service, "svc");
    assert_eq!(
        entry.fields,
        vec![("extra".to_string(), "y".to_string(), true)],
    );
    // no timestamp key: the caller's clock is used
    assert_eq!(entry.timestamp_millis, 42);
    assert_eq!(entry.raw, "{\"level\":\"warn\",\"message\":\"x\",\"extra\":\"y\"}");
}

#[test]
fn json_non_string_field_keeps_its_json_text() {
    let entry = parse_line("{\"msg\":\"hi\",\"count\":3,\"ok\":true}", "svc", 0).unwrap();
    assert_eq!(entry.message, "hi");
    // serde_json's object map iterates keys in sorted order
    assert_eq!(
        entry.fields,
        vec![
            ("count".to_string(), "3".to_string(), false),
            ("ok".to_string(), "true".to_string(), false),
        ],
    );
}

#[test]
fn json_rfc3339_timestamp_is_decoded() {
    let entry = parse_line("{\"ts\":\"2024-01-01T00:00:00Z\",\"message\":\"m\"}", "svc", 5).unwrap();
    assert_eq!(entry.timestamp_millis, 1_704_067_200_000);
    assert_eq!(entry.message, "m");
    assert!(entry.fields.is_empty());
}

#[test]
fn json_unparseable_timestamp_falls_back_to_now() {
    let entry = parse_line("{\"time\":\"yesterday\",\"message\":\"m\"}", "svc", 77).unwrap();
    assert_eq!(entry.timestamp_millis, 77);
}

#[test]
fn json_level_severity_key_and_case() {
    let entry = parse_line("{\"severity\":\"ERROR\",\"message\":\"m\"}", "svc", 0).unwrap();
    assert_eq!(entry.level, LogLevel::Error);
    let entry2 = parse_line("{\"level\":\"TrAcE\",\"message\":\"m\"}", "svc", 0).unwrap();
    assert_eq!(entry2.level, LogLevel::Trace);
    let entry3 = parse_line("{\"level\":5,\"message\":\"m\"}", "svc", 0).unwrap();
    assert_eq!(entry3.level, LogLevel::Info, "a non-string level means Info");
}

#[test]
fn plain_line_with_embedded_date_and_level() {
    let entry = parse_line("2024-01-01 00:00:00 ERROR boom", "svc", 99).unwrap();
    assert_eq!(entry.level, LogLevel::Error);
    assert_eq!(entry.timestamp_millis, 1_704_067_200_000);
    assert_eq!(entry.message, "2024-01-01 00:00:00 ERROR boom");
    assert!(entry.fields.is_empty());
}

#[test]
fn plain_line_defaults() {
    let entry = parse_line("nothing to see here", "svc", 123).unwrap();
    assert_eq!(entry.level, LogLevel::Info);
    assert_eq!(entry.timestamp_millis, 123);
    assert_eq!(entry.message, "nothing to see here");
}

#[test]
fn plain_line_keyword_needs_word_boundaries() {
    let entry = parse_line("rewarned nobody", "svc", 0).unwrap();
    assert_eq!(entry.level, LogLevel::Info, "warn inside a word is no keyword");
    let entry2 = parse_line("warning: low disk", "svc", 0).unwrap();
    assert_eq!(entry2.level, LogLevel::Warn);
    let entry3 = parse_line("a debug trace", "svc", 0).unwrap();
    assert_eq!(entry3.level, LogLevel::Debug, "the leftmost keyword wins");
}

#[test]
fn plain_line_invalid_embedded_date_falls_back_to_now() {
    let entry = parse_line("9999-99-99 10:00:00 ERROR x", "svc", 55).unwrap();
    assert_eq!(entry.timestamp_millis, 55);
}

#[test]
fn empty_and_whitespace_lines_yield_nothing() {
    assert!(parse_line("", "svc", 0).is_none());
    assert!(parse_line("   \t  ", "svc", 0).is_none());
}

#[test]
fn json_non_object_yields_nothing() {
    assert!(parse_line("5", "svc", 0).is_none());
    assert!(parse_line("[1,2]", "svc", 0).is_none());
    assert!(parse_line("\"just a string\"", "svc", 0).is_none());
}

#[test]
fn line_is_trimmed_before_parsing() {
    let entry = parse_line("  {\"message\":\"m\"}  \n", "svc", 0).unwrap();
    assert_eq!(entry.message, "m");
    assert_eq!(entry.raw, "{\"message\":\"m\"}");
}

#[test]
fn drain_lines_splits_complete_lines_only() {
    let chunk: Vec<u8> = b"abc\ndef\ngh".to_vec();
    let (lines, consumed) = drain_lines(&chunk);
    assert_eq!(lines, vec![b"abc".to_vec(), b"def".to_vec()]);
    assert_eq!(consumed, 8);
}

#[test]
fn watcher_survives_truncation() {
    // write three lines, truncate, write two new lines: the watcher
    // must yield exactly the first three then the two new ones.
    let mut file: Vec<u8> = b"one\ntwo\nthree\n".to_vec();
    let mut w = LogWatcher::new("/tmp/svc.log".to_string(), "svc".to_string());
    w.start_at(false, 0);
    let mut seen: Vec<Vec<u8>> = Vec::new();

    // first poll: nothing was truncated, read from the cursor
    assert!(!w.observe_size(file.len() as u64));
    let chunk: Vec<u8> = file[w.position as usize..].to_vec();
    let (lines, consumed) = drain_lines(&chunk);
    seen.extend(lines);
    w.advance(consumed as u64);
    assert_eq!(w.position, 14);

    // the file is truncated and rewritten with new content
    file = b"four\nfive\n".to_vec();
    assert!(w.observe_size(file.len() as u64), "a shrunken file means truncation");
    assert_eq!(w.position, 0);

    let chunk2: Vec<u8> = file[w.position as usize..].to_vec();
    let (lines2, consumed2) = drain_lines(&chunk2);
    seen.extend(lines2);
    w.advance(consumed2 as u64);

    assert_eq!(
        seen,
        vec![
            b"one".to_vec(),
            b"two".to_vec(),
            b"three".to_vec(),
            b"four".to_vec(),
            b"five".to_vec(),
        ],
        "no line is duplicated or skipped across the truncation",
    );
}

#[test]
fn level_from_str_cases() {
    assert_eq!(LogLevel::from_str("warn"), LogLevel::Warn);
    assert_eq!(LogLevel::from_str("WARNING"), LogLevel::Warn);
    assert_eq!(LogLevel::from_str("error"), LogLevel::Error);
    assert_eq!(LogLevel::from_str("whatever"), LogLevel::Info);
}

#[test]
fn severity_order_is_fixed() {
    assert!(LogLevel::Error.at_least(LogLevel::Warn));
    assert!(LogLevel::Warn.at_least(LogLevel::Warn));
    assert!(!LogLevel::Info.at_least(LogLevel::Warn));
    assert!(!LogLevel::Trace.at_least(LogLevel::Debug));
}
