use jsonweblog::json::JsonValue;
use jsonweblog::schema::{ColumnConfig, Schema, TableConfig, DEFAULT_WIDTH, ORDINAL_WIDTH};

fn payload(names: &[&str]) -> Vec<(String, JsonValue)> {
    names.iter().map(|name| (name.to_string(), JsonValue::Null)).collect()
}

#[test]
fn new_schema_is_empty() {
    let schema = Schema::new();
    assert!(schema.fields.is_empty());
    assert!(!schema.initialized);
    assert!(schema.get_default_columns().is_empty());
    assert!(!Schema::default().initialized);
}

#[test]
fn first_payload_fixes_the_fields_in_order() {
    let mut schema = Schema::new();
    schema.initialize_from_first_entry(&payload(&["zeta", "alpha", "mid"]));
    assert!(schema.initialized);
    assert_eq!(schema.fields, vec!["#", "zeta", "alpha", "mid"]);
}

#[test]
fn later_payloads_change_nothing() {
    let mut schema = Schema::new();
    schema.initialize_from_first_entry(&payload(&["a"]));
    schema.initialize_from_first_entry(&payload(&["b", "c"]));
    assert_eq!(schema.fields, vec!["#", "a"]);
    assert!(schema.initialized);
}

#[test]
fn empty_payload_still_fixes_the_schema() {
    let mut schema = Schema::new();
    schema.initialize_from_first_entry(&payload(&[]));
    assert!(schema.initialized);
    assert_eq!(schema.fields, vec!["#"]);
    schema.initialize_from_first_entry(&payload(&["late"]));
    assert_eq!(schema.fields, vec!["#"]);
}

#[test]
fn default_columns_follow_discovery_order() {
    let mut schema = Schema::new();
    schema.initialize_from_first_entry(&payload(&["level", "#", "msg"]));
    let columns = schema.get_default_columns();
    let expected = vec![
        ColumnConfig { field_name: "#".to_string(), width: 80, visible: true, order: 0 },
        ColumnConfig { field_name: "level".to_string(), width: 150, visible: true, order: 1 },
        ColumnConfig { field_name: "#".to_string(), width: 80, visible: true, order: 2 },
        ColumnConfig { field_name: "msg".to_string(), width: 150, visible: true, order: 3 },
    ];
    assert_eq!(columns, expected);
    assert_eq!(ORDINAL_WIDTH, 80);
    assert_eq!(DEFAULT_WIDTH, 150);
}

#[test]
fn copies_are_equal() {
    let config = TableConfig {
        theme: Some("dark".to_string()),
        columns: vec![ColumnConfig {
            field_name: "a".to_string(),
            width: 10,
            visible: false,
            order: 3,
        }],
    };
    assert_eq!(config.clone(), config);
    let mut schema = Schema::new();
    schema.initialize_from_first_entry(&payload(&["x"]));
    let copy = schema.clone();
    assert_eq!(copy.fields, schema.fields);
    assert_eq!(copy.initialized, schema.initialized);
}
