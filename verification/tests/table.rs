use rltbl::json::{JsonNumber, JsonValue};
use rltbl::sql::DbKind;
use rltbl::table::Table;

fn text(s: &str) -> JsonValue {
    JsonValue::String(s.to_string())
}

#[test]
fn table_exists_statements() {
    let (sql, params) = Table::table_exists_sql("penguin", &DbKind::SQLite);
    assert_eq!(
        sql,
        "SELECT 1 FROM \"sqlite_master\"\n                           WHERE \"type\" = ? AND name = ? LIMIT 1"
    );
    assert_eq!(params, vec![text("table"), text("penguin")]);
    let (sql, params) = Table::table_exists_sql("penguin", &DbKind::PostgreSQL);
    assert!(sql.contains("WHERE \"table_type\" LIKE $1\n                             AND \"table_name\" = $2"));
    assert_eq!(params, vec![text("%TABLE"), text("penguin")]);
}

#[test]
fn view_exists_statements() {
    let (sql, params) = Table::view_exists_sql("penguin", "text", &DbKind::SQLite);
    assert!(sql.ends_with("WHERE type = 'view' AND name = $1"));
    assert_eq!(params, vec!["penguin_text_view".to_string()]);
    let (sql, params) = Table::view_exists_sql("penguin", "default", &DbKind::PostgreSQL);
    assert!(sql.contains("AND \"table_type\" = $2"));
    assert_eq!(params, vec!["penguin_default_view".to_string(), "VIEW".to_string()]);
}

#[test]
fn row_statements() {
    assert_eq!(Table::row_sql("penguin", &DbKind::SQLite), "SELECT * FROM \"penguin\" WHERE \"_id\" = ?");
    assert_eq!(Table::row_order_sql("penguin", &DbKind::PostgreSQL), "SELECT \"_order\" FROM \"penguin\" WHERE \"_id\" = $1");
    assert_eq!(
        Table::previous_row_id_sql("penguin", &DbKind::SQLite),
        "SELECT \"_id\" FROM \"penguin\" WHERE \"_order\" < ?\n               ORDER BY \"_order\" DESC LIMIT 1"
    );
}

#[test]
fn next_ids() {
    let mut table = Table::default();
    table.name = "penguin".to_string();
    let (sql, params) = table.next_id_sql(&DbKind::SQLite);
    assert_eq!(sql, "SELECT seq FROM sqlite_sequence WHERE name = ?");
    assert_eq!(params, Some(vec![text("penguin")]));
    let (sql, params) = table.next_id_sql(&DbKind::PostgreSQL);
    assert_eq!(sql, "SELECT last_value FROM \"penguin__id_seq\"");
    assert_eq!(params, None);
    assert_eq!(Table::next_id(None), 1);
    assert_eq!(Table::next_id(Some(&JsonValue::Number(JsonNumber::PosInt(41)))), 42);
    assert_eq!(Table::next_id(Some(&JsonValue::Number(JsonNumber::NegInt(-3)))), 1);
    assert_eq!(Table::next_id(Some(&text("7"))), 1);
}

#[test]
fn view_names() {
    let mut table = Table::default();
    table.name = "penguin".to_string();
    assert_eq!(table.view_name("text"), Some("penguin_text_view".to_string()));
    assert_eq!(table.view_name("default"), Some("penguin_default_view".to_string()));
    assert_eq!(table.view_name("other"), None);
}

#[test]
fn column_information_rows() {
    let row = vec![
        ("name".to_string(), text("island")),
        ("datatype".to_string(), text("TEXT")),
        ("pk".to_string(), JsonValue::Number(JsonNumber::PosInt(0))),
    ];
    let info = Table::sqlite_column_info(&row, true);
    assert_eq!(info.len(), 4);
    assert_eq!(info[3], ("unique".to_string(), JsonValue::Number(JsonNumber::PosInt(1))));
    let again = Table::sqlite_column_info(&info, false);
    assert_eq!(again.len(), 4);
    assert_eq!(again[3], ("unique".to_string(), JsonValue::Number(JsonNumber::PosInt(0))));
    let info = Table::pg_column_info(&text("id"), &text("integer"), Some("PRIMARY KEY"));
    assert_eq!(
        info,
        vec![
            ("name".to_string(), text("id")),
            ("datatype".to_string(), text("integer")),
            ("pk".to_string(), JsonValue::Number(JsonNumber::PosInt(1))),
            ("unique".to_string(), JsonValue::Number(JsonNumber::PosInt(1))),
        ]
    );
}
