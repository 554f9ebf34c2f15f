use pam_daemon::calendar::format_utc;
use pam_daemon::logging::{DaemonLog, LogLevel};

#[test]
fn utc_formatting_matches_known_timestamps() {
    assert_eq!(format_utc(0), "1970-01-01T00:00:00.000Z");
    // 2026-08-28T00:00:00Z == 1_787_875_200 seconds.
    assert_eq!(format_utc(1_787_875_200_123), "2026-08-28T00:00:00.123Z");
    // Leap-day check: 2024-02-29T12:00:00Z == 1_709_208_000 seconds.
    assert_eq!(format_utc(1_709_208_000_000), "2024-02-29T12:00:00.000Z");
}

#[test]
fn utc_formatting_covers_year_ends_and_the_last_moment() {
    assert_eq!(format_utc(946_684_799_999), "1999-12-31T23:59:59.999Z");
    assert_eq!(format_utc(946_684_800_000), "2000-01-01T00:00:00.000Z");
    // 2100 is no leap year.
    assert_eq!(format_utc(4_107_542_399_000), "2100-02-28T23:59:59.000Z");
    assert_eq!(format_utc(4_107_542_400_000), "2100-03-01T00:00:00.000Z");
    assert!(format_utc(u64::MAX).ends_with(".615Z"));
}

#[test]
fn ring_keeps_only_the_newest_entries_in_order() {
    let mut log = DaemonLog::open(Some(0));
    for index in 0..600 {
        log.info(index, &format!("entry {index}"));
    }
    let recent = log.recent(2048);
    assert_eq!(recent.len(), 512);
    assert_eq!(recent.first().expect("first entry").message, "entry 88");
    assert_eq!(recent.last().expect("last entry").message, "entry 599");
    let tail = log.recent(3);
    assert_eq!(tail.len(), 3);
    assert_eq!(tail[0].message, "entry 597");
}

#[test]
fn messages_are_truncated_at_a_char_boundary() {
    let mut log = DaemonLog::open(Some(0));
    let long = "é".repeat(2000);
    log.warn(0, &long);
    let recent = log.recent(1);
    let message = &recent[0].message;
    assert!(message.len() <= 1024);
    assert!(message.chars().all(|character| character == 'é'));
    assert_eq!(recent[0].level, LogLevel::Warn);
    assert_eq!(message.len(), 1024);
}

#[test]
fn missing_directory_still_serves_the_ring() {
    let mut log = DaemonLog::open(None);
    assert_eq!(log.info(5, "survives without a file"), None);
    assert_eq!(log.recent(10).len(), 1);
}

#[test]
fn lines_are_written_and_the_file_rotates_past_its_limit() {
    let mut log = DaemonLog::with_max_file_bytes(Some(190), 200);
    let line = log.error(0, "failure").expect("there is a file");
    assert_eq!(line, "1970-01-01T00:00:00.000Z ERROR failure\n");
    assert!(log.line_written(&line));
    log.rotated(true);
    assert!(!log.line_written(&line));
    log.rotated(false);
    assert_eq!(log.warn(0, "kept in memory"), None);
    assert_eq!(log.recent(10).len(), 2);
}

#[test]
fn levels_have_names() {
    assert_eq!(LogLevel::Info.as_str(), "INFO");
    assert_eq!(LogLevel::Warn.as_str(), "WARN");
    assert_eq!(LogLevel::Error.as_str(), "ERROR");
}

#[test]
fn texts_are_in_the_order_of_time() {
    let moments = [
        0,
        999,
        1_000,
        59_999,
        60_000,
        3_600_000,
        86_399_999,
        86_400_000,
        946_684_799_999,
        946_684_800_000,
        253_402_300_799_999,
    ];
    let texts: Vec<String> = moments.iter().map(|moment| format_utc(*moment)).collect();
    for pair in texts.windows(2) {
        assert!(pair[0].as_bytes() < pair[1].as_bytes());
    }
    assert!(texts.iter().all(|text| text.len() == 24 && text.is_ascii()));
    assert_eq!(texts[10], "9999-12-31T23:59:59.999Z");
    assert_eq!(format_utc(253_402_300_800_000), "10000-01-01T00:00:00.000Z");
}
