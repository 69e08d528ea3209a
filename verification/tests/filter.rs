use jsonweblog::timestamp::Timestamp;
use jsonweblog::{LogEntry, LogFilter, LogLevel};

fn now() -> Timestamp {
    let at = chrono::Utc::now();
    Timestamp { secs: at.timestamp(), nanos: at.timestamp_subsec_nanos() }
}

fn entry(line: u64, level: LogLevel, logger: &str, message: &str) -> LogEntry {
    LogEntry::new(line, now(), level, logger.to_string(), message.to_string())
}

#[test]
fn test_empty_filter_matches_all() {
    let filter = LogFilter::new();
    let entry = LogEntry::new(
        1,
        now(),
        LogLevel::Info,
        "test".to_string(),
        "test message".to_string(),
    );

    assert!(filter.matches(&entry));
}

#[test]
fn test_level_filter() {
    let filter = LogFilter::new().with_level(LogLevel::Error);

    let info_entry = LogEntry::new(
        1,
        now(),
        LogLevel::Info,
        "test".to_string(),
        "test message".to_string(),
    );

    let error_entry = LogEntry::new(
        2,
        now(),
        LogLevel::Error,
        "test".to_string(),
        "error message".to_string(),
    );

    assert!(!filter.matches(&info_entry));
    assert!(filter.matches(&error_entry));
}

#[test]
fn test_search_text_filter() {
    let filter = LogFilter::new().with_search_text("error".to_string());

    let matching_entry = LogEntry::new(
        1,
        now(),
        LogLevel::Info,
        "test".to_string(),
        "This is an error message".to_string(),
    );

    let non_matching_entry = LogEntry::new(
        2,
        now(),
        LogLevel::Info,
        "test".to_string(),
        "This is a normal message".to_string(),
    );

    assert!(filter.matches(&matching_entry));
    assert!(!filter.matches(&non_matching_entry));
}

#[test]
fn search_ignores_case_on_both_sides() {
    let filter = LogFilter::new().with_search_text("DiSk".to_string());
    assert!(filter.matches(&entry(1, LogLevel::Info, "io", "disk full")));
    assert!(filter.matches(&entry(2, LogLevel::Info, "io", "The DISK is full")));
    assert!(!filter.matches(&entry(3, LogLevel::Info, "io", "memory full")));
}

#[test]
fn search_looks_in_logger_module_and_function() {
    let filter = LogFilter::new().with_search_text("auth".to_string());
    assert!(filter.matches(&entry(1, LogLevel::Info, "Auth-Service", "started")));
    let with_module = entry(2, LogLevel::Info, "core", "started").with_module("AUTH".to_string());
    assert!(filter.matches(&with_module));
    let with_function =
        entry(3, LogLevel::Info, "core", "started").with_function("authenticate".to_string());
    assert!(filter.matches(&with_function));
    let elsewhere = entry(4, LogLevel::Info, "core", "started")
        .with_module("net".to_string())
        .with_function("listen".to_string());
    assert!(!filter.matches(&elsewhere));
}

#[test]
fn empty_search_text_matches_every_record() {
    let filter = LogFilter::new().with_search_text(String::new());
    assert!(filter.matches(&entry(1, LogLevel::Info, "", "")));
}

#[test]
fn logger_filter_is_case_sensitive_containment() {
    let filter = LogFilter::new().with_logger("api".to_string());
    assert!(filter.matches(&entry(1, LogLevel::Info, "web.api.v1", "x")));
    assert!(!filter.matches(&entry(2, LogLevel::Info, "web.API.v1", "x")));
    assert!(!filter.matches(&entry(3, LogLevel::Info, "ap", "x")));
}

#[test]
fn module_filter_rejects_record_without_module() {
    let filter = LogFilter::new().with_module("net".to_string());
    assert!(!filter.matches(&entry(1, LogLevel::Info, "a", "b")));
    assert!(filter.matches(&entry(2, LogLevel::Info, "a", "b").with_module("kernel.net".to_string())));
    assert!(!filter.matches(&entry(3, LogLevel::Info, "a", "b").with_module("disk".to_string())));
}

#[test]
fn time_range_is_inclusive_at_both_ends() {
    let start = Timestamp { secs: 100, nanos: 500 };
    let end = Timestamp { secs: 200, nanos: 0 };
    let filter = LogFilter::new().with_time_range(start, end);
    let at = |secs: i64, nanos: u32| {
        LogEntry::new(1, Timestamp { secs, nanos }, LogLevel::Info, "a".to_string(), "b".to_string())
    };
    assert!(filter.matches(&at(100, 500)));
    assert!(filter.matches(&at(200, 0)));
    assert!(filter.matches(&at(150, 999_999_999)));
    assert!(!filter.matches(&at(100, 499)));
    assert!(!filter.matches(&at(99, 999_999_999)));
    assert!(!filter.matches(&at(200, 1)));
}

#[test]
fn only_one_end_of_the_time_range_may_be_set() {
    let mut filter = LogFilter::new();
    filter.start_time = Some(Timestamp { secs: 10, nanos: 0 });
    let at = |secs: i64| {
        LogEntry::new(1, Timestamp { secs, nanos: 0 }, LogLevel::Info, "a".to_string(), "b".to_string())
    };
    assert!(filter.matches(&at(10)));
    assert!(filter.matches(&at(1_000_000)));
    assert!(!filter.matches(&at(9)));
    let mut until = LogFilter::new();
    until.end_time = Some(Timestamp { secs: 10, nanos: 0 });
    assert!(until.matches(&at(-5)));
    assert!(!until.matches(&at(11)));
}

#[test]
fn all_predicates_must_hold_together() {
    let filter = LogFilter::new()
        .with_level(LogLevel::Warn)
        .with_logger("db".to_string())
        .with_search_text("slow".to_string());
    assert!(filter.matches(&entry(1, LogLevel::Warn, "db.pool", "Slow query")));
    assert!(!filter.matches(&entry(2, LogLevel::Error, "db.pool", "Slow query")));
    assert!(!filter.matches(&entry(3, LogLevel::Warn, "web", "Slow query")));
    assert!(!filter.matches(&entry(4, LogLevel::Warn, "db.pool", "fast query")));
}

#[test]
fn adding_a_predicate_never_admits_more_records() {
    let records = vec![
        entry(1, LogLevel::Error, "db", "disk full"),
        entry(2, LogLevel::Info, "db", "disk ok"),
        entry(3, LogLevel::Error, "web", "timeout"),
        entry(4, LogLevel::Warn, "web", "disk slow"),
    ];
    let base = LogFilter::new().with_search_text("disk".to_string());
    let narrow = LogFilter::new().with_search_text("disk".to_string()).with_level(LogLevel::Error);
    let base_hits: Vec<u64> = records.iter().filter(|r| base.matches(r)).map(|r| r.line).collect();
    let narrow_hits: Vec<u64> =
        records.iter().filter(|r| narrow.matches(r)).map(|r| r.line).collect();
    assert_eq!(base_hits, vec![1, 2, 4]);
    assert_eq!(narrow_hits, vec![1]);
    assert!(narrow_hits.iter().all(|line| base_hits.contains(line)));
}

#[test]
fn is_empty_and_clear() {
    let mut filter = LogFilter::new();
    assert!(filter.is_empty());
    filter = filter.with_module("m".to_string());
    assert!(!filter.is_empty());
    filter.clear();
    assert!(filter.is_empty());
    assert!(LogFilter::default().is_empty());
    assert!(!LogFilter::new().with_time_range(now(), now()).is_empty());
}

#[test]
fn copy_of_a_filter_matches_the_same_records() {
    let filter = LogFilter::new()
        .with_level(LogLevel::Warn)
        .with_search_text("slow".to_string())
        .with_logger("db".to_string())
        .with_module("pool".to_string())
        .with_time_range(Timestamp { secs: 1, nanos: 2 }, Timestamp { secs: 3, nanos: 4 });
    let copy = filter.clone();
    assert_eq!(copy.level, filter.level);
    assert_eq!(copy.search_text, filter.search_text);
    assert_eq!(copy.logger, filter.logger);
    assert_eq!(copy.module, filter.module);
    assert_eq!(copy.start_time, filter.start_time);
    assert_eq!(copy.end_time, filter.end_time);
}
