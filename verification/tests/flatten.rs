use jsonweblog::json::{JsonNumber, JsonValue};
use jsonweblog::log_entry::{DynamicFieldValue, FieldIndex};
use jsonweblog::timestamp::Timestamp;
use jsonweblog::{JsonLogParser, LogEntry, LogLevel};

fn number(integer: i64) -> JsonValue {
    JsonValue::Number(JsonNumber { integer: Some(integer), text: integer.to_string() })
}

fn text(s: &str) -> JsonValue {
    JsonValue::String(s.to_string())
}

fn paths(index: &FieldIndex) -> Vec<String> {
    (0..index.write_count()).map(|i| index.write_at(i).unwrap().0.to_string()).collect()
}

fn parse(line: &str) -> LogEntry {
    JsonLogParser::new().parse_line(line, 1, Timestamp { secs: 0, nanos: 0 }).unwrap()
}

#[test]
fn scalars_map_to_their_own_path() {
    let fields = vec![
        ("s".to_string(), text("v")),
        ("n".to_string(), number(3)),
        ("b".to_string(), JsonValue::Bool(false)),
        ("z".to_string(), JsonValue::Null),
    ];
    let index = LogEntry::extract_dynamic_fields(&fields);
    assert_eq!(paths(&index), vec!["s", "n", "b", "z"]);
    assert_eq!(index.get("s"), Some(&DynamicFieldValue::String("v".to_string())));
    assert_eq!(
        index.get("n"),
        Some(&DynamicFieldValue::Number(JsonNumber { integer: Some(3), text: "3".to_string() }))
    );
    assert_eq!(index.get("b"), Some(&DynamicFieldValue::Boolean(false)));
    assert_eq!(index.get("z"), Some(&DynamicFieldValue::Null));
    assert_eq!(index.get("missing"), None);
    assert_eq!(index.get(""), None);
}

#[test]
fn objects_are_kept_whole_and_flattened_under_dotted_paths() {
    let inner = JsonValue::Object(vec![
        ("b".to_string(), number(1)),
        ("c".to_string(), JsonValue::Object(vec![("d".to_string(), text("deep"))])),
    ]);
    let fields = vec![("a".to_string(), inner.clone())];
    let index = LogEntry::extract_dynamic_fields(&fields);
    assert_eq!(paths(&index), vec!["a", "a.b", "a.c", "a.c.d"]);
    assert_eq!(index.get("a"), Some(&DynamicFieldValue::Object(inner)));
    assert_eq!(index.get("a.c.d"), Some(&DynamicFieldValue::String("deep".to_string())));
    assert_eq!(
        index.get("a.c"),
        Some(&DynamicFieldValue::Object(JsonValue::Object(vec![("d".to_string(), text("deep"))])))
    );
}

#[test]
fn arrays_are_kept_whole_and_their_first_ten_items_flattened() {
    let items: Vec<JsonValue> = (0..12).map(number).collect();
    let fields = vec![("xs".to_string(), JsonValue::Array(items.clone()))];
    let index = LogEntry::extract_dynamic_fields(&fields);
    let mut expected = vec!["xs".to_string()];
    expected.extend((0..10).map(|i| format!("xs[{}]", i)));
    assert_eq!(paths(&index), expected);
    assert_eq!(index.get("xs"), Some(&DynamicFieldValue::Array(items)));
    assert_eq!(
        index.get("xs[9]"),
        Some(&DynamicFieldValue::Number(JsonNumber { integer: Some(9), text: "9".to_string() }))
    );
    assert_eq!(index.get("xs[10]"), None);
    assert_eq!(index.get("xs[11]"), None);
}

#[test]
fn short_and_empty_arrays() {
    let fields = vec![
        ("none".to_string(), JsonValue::Array(vec![])),
        ("ten".to_string(), JsonValue::Array((0..10).map(number).collect())),
    ];
    let index = LogEntry::extract_dynamic_fields(&fields);
    assert_eq!(index.write_count(), 1 + 1 + 10);
    assert_eq!(index.get("none"), Some(&DynamicFieldValue::Array(vec![])));
    assert_eq!(index.get("none[0]"), None);
    assert!(index.get("ten[9]").is_some());
}

#[test]
fn arrays_and_objects_nest() {
    let entry = parse(r#"{"a":[{"b":[1,{"c":true}]},"x"],"e":{}}"#);
    let index = &entry.dynamic_fields;
    assert_eq!(
        paths(index),
        vec!["a", "a[0]", "a[0].b", "a[0].b[0]", "a[0].b[1]", "a[0].b[1].c", "a[1]", "e"]
    );
    assert_eq!(index.get("a[0].b[1].c"), Some(&DynamicFieldValue::Boolean(true)));
    assert_eq!(index.get("a[1]"), Some(&DynamicFieldValue::String("x".to_string())));
    assert_eq!(index.get("e"), Some(&DynamicFieldValue::Object(JsonValue::Object(vec![]))));
    assert_eq!(entry.get_field_value("a[0].b[0]"), index.get("a[0].b[0]"));
}

#[test]
fn colliding_paths_keep_the_last_write() {
    let fields = vec![
        ("a".to_string(), JsonValue::Object(vec![("b".to_string(), number(1))])),
        ("a.b".to_string(), number(2)),
    ];
    let index = LogEntry::extract_dynamic_fields(&fields);
    assert_eq!(paths(&index), vec!["a", "a.b", "a.b"]);
    assert_eq!(
        index.get("a.b"),
        Some(&DynamicFieldValue::Number(JsonNumber { integer: Some(2), text: "2".to_string() }))
    );
    let reversed = vec![fields[1].clone(), fields[0].clone()];
    let index = LogEntry::extract_dynamic_fields(&reversed);
    assert_eq!(
        index.get("a.b"),
        Some(&DynamicFieldValue::Number(JsonNumber { integer: Some(1), text: "1".to_string() }))
    );
}

#[test]
fn empty_member_name_gives_no_prefix() {
    let fields =
        vec![("".to_string(), JsonValue::Object(vec![("k".to_string(), JsonValue::Null)]))];
    let index = LogEntry::extract_dynamic_fields(&fields);
    assert_eq!(paths(&index), vec!["", "k"]);
}

#[test]
fn flattening_twice_gives_the_same_index() {
    let line = r#"{"a":{"b":[1,2,{"c":"d"}]},"e":"f","g":[[],[null]]}"#;
    let first = parse(line);
    let second = parse(line);
    assert_eq!(paths(&first.dynamic_fields), paths(&second.dynamic_fields));
    for i in 0..first.dynamic_fields.write_count() {
        assert_eq!(first.dynamic_fields.write_at(i), second.dynamic_fields.write_at(i));
    }
    let again = LogEntry::extract_dynamic_fields(&first.raw_fields);
    assert_eq!(paths(&again), paths(&first.dynamic_fields));
}

#[test]
fn empty_payload_gives_empty_index() {
    let index = LogEntry::extract_dynamic_fields(&vec![]);
    assert_eq!(index.write_count(), 0);
    let entry = parse("{}");
    assert_eq!(entry.dynamic_fields.write_count(), 0);
    assert!(entry.raw_fields.is_empty());
}

#[test]
fn field_index_insert_replaces() {
    let mut index = FieldIndex::new();
    index.insert("p".to_string(), DynamicFieldValue::Null);
    index.insert("q".to_string(), DynamicFieldValue::Boolean(true));
    index.insert("p".to_string(), DynamicFieldValue::Boolean(false));
    assert_eq!(index.get("p"), Some(&DynamicFieldValue::Boolean(false)));
    assert_eq!(index.get("q"), Some(&DynamicFieldValue::Boolean(true)));
    let copy = index.clone();
    assert_eq!(copy.get("p"), Some(&DynamicFieldValue::Boolean(false)));
    assert_eq!(copy.write_count(), 3);
    assert_eq!(copy.write_at(2), Some(("p", &DynamicFieldValue::Boolean(false))));
    assert_eq!(copy.write_at(3), None);
}

#[test]
fn builders_set_one_field_each() {
    let at = Timestamp { secs: 5, nanos: 6 };
    let entry = LogEntry::new(9, at, LogLevel::Debug, "lg".to_string(), "ms".to_string());
    assert_eq!(entry.line, 9);
    assert_eq!(entry.timestamp, at);
    assert_eq!(entry.level, LogLevel::Debug);
    assert_eq!(entry.logger, "lg");
    assert_eq!(entry.message, "ms");
    assert_eq!(entry.module, None);
    assert_eq!(entry.function, None);
    assert!(entry.raw_fields.is_empty());
    assert_eq!(entry.dynamic_fields.write_count(), 0);
    let entry = entry
        .with_module("m".to_string())
        .with_function("f".to_string())
        .with_raw_fields(vec![("k".to_string(), text("v"))]);
    assert_eq!(entry.module.as_deref(), Some("m"));
    assert_eq!(entry.function.as_deref(), Some("f"));
    assert_eq!(entry.raw_fields.len(), 1);
    assert_eq!(entry.get_field_value("k"), Some(&DynamicFieldValue::String("v".to_string())));
    let copy = entry.clone();
    assert_eq!(copy.raw_fields, entry.raw_fields);
    assert_eq!(copy.get_field_value("k"), entry.get_field_value("k"));
    assert_eq!(copy.module, entry.module);
}
