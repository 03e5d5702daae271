use rltbl::column::ColumnBuilder;
use rltbl::datatype::Datatypes;
use rltbl::json::{JsonNumber, JsonValue};
use rltbl::row::{Cell, Message, Row};
use rltbl::sql::DbKind;

fn num(n: u64) -> JsonValue {
    JsonValue::Number(JsonNumber::PosInt(n))
}

fn text(s: &str) -> JsonValue {
    JsonValue::String(s.to_string())
}

fn object(fields: Vec<(&str, JsonValue)>) -> JsonValue {
    JsonValue::Object(fields.into_iter().map(|(k, v)| (k.to_string(), v)).collect())
}

fn entries(fields: Vec<(&str, JsonValue)>) -> Vec<(String, JsonValue)> {
    fields.into_iter().map(|(k, v)| (k.to_string(), v)).collect()
}

#[test]
fn test_json_to_row() {
    let json_row = entries(vec![
        ("_id", num(1)),
        ("_order", num(1000)),
        ("_change_id", num(0)),
        ("foo", text("FOO")),
    ]);
    let row = Row::from(&json_row);
    assert_eq!(row.id, 1);
    assert_eq!(row.order, 1000);
    assert_eq!(row.change_id, 0);
    assert_eq!(row.cells.len(), 1);
    assert_eq!(
        row.cells.get("foo"),
        Some(&Cell { value: text("FOO"), text: "FOO".to_string(), messages: vec![] })
    );
}

#[test]
fn test_json_to_row_messages() {
    let json_row = entries(vec![
        ("_id", num(1)),
        ("_order", num(1000)),
        ("_change_id", num(0)),
        (
            "_message",
            JsonValue::Array(vec![object(vec![
                ("column", text("foo")),
                ("value", text("FOO")),
                ("level", text("error")),
                ("rule", text("test rule")),
                ("message", text("Test message 'FOO'")),
            ])]),
        ),
        ("foo", text("FOO")),
    ]);
    let row = Row::from(&json_row);
    assert_eq!(row.id, 1);
    assert_eq!(row.order, 1000);
    assert_eq!(row.change_id, 0);
    assert_eq!(row.cells.len(), 1);
    assert_eq!(
        row.cells.get("foo"),
        Some(&Cell {
            value: text("FOO"),
            text: "FOO".to_string(),
            messages: vec![Message {
                value: text("FOO"),
                level: "error".to_string(),
                rule: "test rule".to_string(),
                message: "Test message 'FOO'".to_string(),
            }],
        })
    );
}

#[test]
fn messages_given_as_text_are_parsed() {
    let json_row = entries(vec![
        ("_id", num(2)),
        (
            "_message",
            text(r#"[{"column": "bar", "value": 7, "level": "warn", "rule": "r", "message": "m"}]"#),
        ),
        ("bar", text("seven")),
    ]);
    let row = Row::try_from(&json_row).expect("readable messages");
    let cell = row.cells.get("bar").unwrap();
    assert_eq!(cell.value, num(7));
    assert_eq!(cell.text, "7");
    assert_eq!(cell.messages.len(), 1);
    assert_eq!(cell.message_level(), 1);
}

#[test]
fn unreadable_messages_are_refused() {
    let json_row = entries(vec![("_message", text("not json")), ("bar", text("x"))]);
    assert!(Row::try_from(&json_row).is_none());
    let json_row = entries(vec![("_message", JsonValue::Array(vec![num(1)]))]);
    assert!(Row::try_from(&json_row).is_none());
}

#[test]
fn meta_fields_are_not_cells() {
    let json_row = entries(vec![("_id", text("x")), ("_other", num(3)), ("a", JsonValue::Null), ("b", num(4))]);
    let row = Row::from(&json_row);
    assert_eq!(row.id, 0);
    assert_eq!(row.to_strings(), vec!["".to_string(), "4".to_string()]);
}

#[test]
fn row_as_insert() {
    let json_row = entries(vec![("_id", num(3)), ("_order", num(3000)), ("a", text("x")), ("b", JsonValue::Null), ("c", num(5))]);
    let mut row = Row::from(&json_row);
    row.id = 3;
    let (sql, params) = row.as_insert("t", &DbKind::PostgreSQL);
    assert_eq!(
        sql,
        "INSERT INTO \"t\"\n                   (\"_id\", \"_order\", \"a\", \"b\", \"c\")\n                   VALUES ($1, $2, $3, NULL, $4)"
    );
    assert_eq!(params, JsonValue::Array(vec![num(3), num(3000), text("x"), num(5)]));
    let (sql, _) = row.as_insert("t", &DbKind::SQLite);
    assert!(sql.ends_with("VALUES (?, ?, ?, NULL, ?)"));
    let empty = Row::from(&entries(vec![("_id", num(1)), ("_order", num(1000))]));
    let (sql, params) = empty.as_insert("t", &DbKind::SQLite);
    assert_eq!(sql, "INSERT INTO \"t\"\n                   (\"_id\", \"_order\")\n                   VALUES (?, ?)");
    assert_eq!(params, JsonValue::Array(vec![num(1), num(1000)]));
}

#[test]
fn cells_from_values() {
    assert_eq!(Cell::from(&text("a")).text, "a");
    assert_eq!(Cell::from(&JsonValue::Null).text, "");
    assert_eq!(Cell::from(&num(12)).text, "12");
    assert_eq!(Cell::from(&JsonValue::Bool(true)).text, "true");
    assert_eq!(Cell::from(&JsonValue::Array(vec![num(1), text("b")])).text, "[1,\"b\"]");
}

#[test]
fn cells_are_checked_against_sql_types() {
    let datatypes = Datatypes::builtins();
    let integer = ColumnBuilder::new("t", "n").datatype("integer").build().unwrap();
    let mut cell = Cell::from(&text("abc"));
    cell.validate_sql_type(&datatypes, &integer).unwrap();
    assert_eq!(cell.messages.len(), 1);
    assert_eq!(cell.messages[0].rule, "sql_type:INTEGER");
    assert_eq!(cell.messages[0].message, "n must be of type INTEGER");
    assert_eq!(cell.messages[0].level, "error");
    assert!(cell.has_sql_type_error());
    assert_eq!(cell.message_level(), 2);

    let mut cell = Cell::from(&num(5));
    cell.validate_sql_type(&datatypes, &integer).unwrap();
    assert!(cell.messages.is_empty());
    assert!(!cell.has_sql_type_error());
    assert_eq!(cell.message_level(), 0);

    let mut cell = Cell::from(&num(u64::MAX));
    cell.validate_sql_type(&datatypes, &integer).unwrap();
    assert_eq!(cell.messages.len(), 1);

    let real = ColumnBuilder::new("t", "r").sql_type("REAL").build().unwrap();
    let mut cell = Cell::from(&JsonValue::Number(JsonNumber::Float("1.5".to_string())));
    cell.validate_sql_type(&datatypes, &real).unwrap();
    assert!(cell.messages.is_empty());

    let odd = ColumnBuilder::new("t", "x").sql_type("BLOB").build().unwrap();
    let mut cell = Cell::from(&num(5));
    let err = cell.validate_sql_type(&datatypes, &odd).unwrap_err();
    assert_eq!(err.message(), "Unsupported SQL type: 'BLOB'");
}
