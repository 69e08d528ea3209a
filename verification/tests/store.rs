use jsonweblog::store::{Store, DEFAULT_CAPACITY};
use jsonweblog::timestamp::Timestamp;
use jsonweblog::{LogEntry, LogFilter, LogLevel};

fn record(line: u64, level: LogLevel, message: &str) -> LogEntry {
    LogEntry::new(
        line,
        Timestamp { secs: line as i64, nanos: 0 },
        level,
        "test".to_string(),
        message.to_string(),
    )
}

fn lines(records: &[LogEntry]) -> Vec<u64> {
    records.iter().map(|r| r.line).collect()
}

#[test]
fn store_keeps_records_in_arrival_order() {
    let mut store = Store::new(10);
    assert!(store.is_empty());
    for line in 1..=4 {
        store.append(record(line, LogLevel::Info, "m"));
    }
    assert_eq!(store.len(), 4);
    assert_eq!(lines(&store.snapshot(None)), vec![1, 2, 3, 4]);
    assert_eq!(lines(store.records()), vec![1, 2, 3, 4]);
    assert_eq!(store.get(2).map(|r| r.line), Some(3));
    assert_eq!(store.get(4).map(|r| r.line), None);
    assert_eq!(store.capacity(), 10);
}

#[test]
fn store_never_exceeds_its_capacity() {
    let mut store = Store::new(3);
    for line in 1..=10 {
        store.append(record(line, LogLevel::Info, "m"));
        assert!(store.len() <= 3);
        assert_eq!(store.len(), std::cmp::min(line as usize, 3));
    }
    assert_eq!(lines(&store.snapshot(None)), vec![8, 9, 10]);
}

#[test]
fn overflow_keeps_exactly_the_most_recent_records() {
    let mut store = Store::new(3);
    for line in 1..=3 {
        store.append(record(line, LogLevel::Info, "m"));
    }
    assert_eq!(lines(&store.snapshot(None)), vec![1, 2, 3]);
    store.append(record(4, LogLevel::Info, "m"));
    assert_eq!(lines(&store.snapshot(None)), vec![2, 3, 4]);
    store.append(record(5, LogLevel::Info, "m"));
    assert_eq!(lines(&store.snapshot(None)), vec![3, 4, 5]);
}

#[test]
fn store_of_capacity_one_and_zero() {
    let mut one = Store::new(1);
    one.append(record(1, LogLevel::Info, "a"));
    one.append(record(2, LogLevel::Info, "b"));
    assert_eq!(lines(&one.snapshot(None)), vec![2]);
    let mut zero = Store::new(0);
    zero.append(record(1, LogLevel::Info, "a"));
    assert_eq!(zero.len(), 0);
    assert!(zero.snapshot(None).is_empty());
}

#[test]
fn default_capacity_is_one_hundred_thousand() {
    assert_eq!(DEFAULT_CAPACITY, 100_000);
}

#[test]
fn snapshot_filters_in_arrival_order() {
    let mut store = Store::new(10);
    store.append(record(1, LogLevel::Error, "disk full"));
    store.append(record(2, LogLevel::Info, "ok"));
    store.append(record(3, LogLevel::Error, "net down"));
    store.append(record(4, LogLevel::Warn, "disk slow"));
    let errors = LogFilter::new().with_level(LogLevel::Error);
    assert_eq!(lines(&store.snapshot(Some(&errors))), vec![1, 3]);
    let disk = LogFilter::new().with_search_text("DISK".to_string());
    assert_eq!(lines(&store.snapshot(Some(&disk))), vec![1, 4]);
    let none = LogFilter::new().with_level(LogLevel::Fatal);
    assert!(store.snapshot(Some(&none)).is_empty());
    let empty = LogFilter::new();
    assert_eq!(lines(&store.snapshot(Some(&empty))), vec![1, 2, 3, 4]);
}

#[test]
fn clear_empties_the_store_and_keeps_its_capacity() {
    let mut store = Store::new(2);
    store.append(record(1, LogLevel::Info, "a"));
    store.clear();
    assert!(store.is_empty());
    assert_eq!(store.capacity(), 2);
    store.append(record(2, LogLevel::Info, "b"));
    store.append(record(3, LogLevel::Info, "c"));
    store.append(record(4, LogLevel::Info, "d"));
    assert_eq!(lines(&store.snapshot(None)), vec![3, 4]);
}
