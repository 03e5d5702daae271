use rltbl::column::{Column, ColumnBuilder};
use rltbl::json::JsonValue;
use rltbl::message::MessageTable;
use rltbl::select::{Filter, Format, Select};
use rltbl::sql::{regexp_match, regexp_mismatch, DbKind, SqlParam};
use rltbl::table::Table;
use rltbl::web::column_menu;

fn text(s: &str) -> JsonValue {
    JsonValue::String(s.to_string())
}

fn column(table: &str, name: &str) -> Column {
    ColumnBuilder::new(table, name).datatype("text").build().unwrap()
}

#[test]
fn meta_and_data_column_kinds() {
    assert!(column("t", "_id").is_meta());
    assert!(!column("t", "_id").is_data());
    assert!(column("t", "name").is_data());
}

#[test]
fn message_table_columns() {
    let names = MessageTable::connect().column_names();
    assert_eq!(
        names,
        vec!["message_id", "added_by", "table", "row", "column", "value", "level", "rule", "message"]
    );
}

#[test]
fn regexp_clauses() {
    let mut p = SqlParam::new(&DbKind::SQLite);
    assert_eq!(regexp_match("name", &mut p), "regexp(?, CAST(\"name\" AS TEXT)) = 1");
    assert_eq!(regexp_mismatch("name", &mut p), "regexp(?, CAST(\"name\" AS TEXT)) = 0");
    let mut p = SqlParam::new(&DbKind::PostgreSQL);
    assert_eq!(regexp_match("name", &mut p), "\"name\"::TEXT ~ $1");
    assert_eq!(regexp_mismatch("name", &mut p), "\"name\"::TEXT !~ $2");
}

#[test]
fn format_extensions() {
    assert_eq!(Format::Html.to_text(), ".html");
    assert_eq!(Format::ValueJson.to_text(), ".value.json");
    assert_eq!(Format::PrettyJson.to_text(), ".pretty.json");
    assert_eq!(Format::Default.to_text(), "");
}

#[test]
fn filter_accessors() {
    let mut f = Filter::Like { table: "t".to_string(), column: "c".to_string(), value: text("x%") };
    assert_eq!(f.get_table(), "t");
    assert_eq!(f.get_column(), "c");
    assert_eq!(f.get_operator(), "like");
    assert_eq!(f.get_value(), text("x%"));
    f.set_table("u");
    f.set_column("d");
    assert_eq!(f.get_table(), "u");
    assert_eq!(f.get_column(), "d");
}

#[test]
fn column_menus() {
    let mut select = Select::from("penguin");
    select.eq("island", &text("Dream")).unwrap();
    let select = select.is_not_in("species", &JsonValue::Array(vec![text("a")])).unwrap();
    let mut select = select;
    select.order_by("island");
    let (operator, value, order) = column_menu(&select, "island");
    assert_eq!(operator, "eq");
    assert_eq!(value, text("Dream"));
    assert_eq!(order, "ASC");
    let (operator, value, order) = column_menu(&select, "species");
    assert_eq!(operator, "not_in");
    assert_eq!(value, JsonValue::Array(vec![text("a")]));
    assert_eq!(order, "");
    let (operator, value, order) = column_menu(&select, "body_mass");
    assert_eq!((operator.as_str(), value, order.as_str()), ("", text(""), ""));
}

#[test]
fn table_catalog_statements() {
    assert_eq!(
        Table::db_columns_sql(&DbKind::SQLite),
        "SELECT \"name\", \"type\" AS \"datatype\", \"pk\"\n                       FROM pragma_table_info(?) ORDER BY \"cid\""
    );
    assert!(Table::db_columns_sql(&DbKind::PostgreSQL).contains("AND \"kcu\".\"table_name\" = $1"));
    assert_eq!(Table::index_list_sql(), "SELECT \"name\", \"unique\"\n                               FROM PRAGMA_INDEX_LIST(?)");
    assert_eq!(Table::index_info_sql(), "SELECT \"name\" FROM PRAGMA_INDEX_INFO(?)");
    assert!(Table::sqlite_column_unique(1, "a", &vec![]));
    assert!(Table::sqlite_column_unique(0, "a", &vec![None, Some("a".to_string())]));
    assert!(!Table::sqlite_column_unique(2, "a", &vec![Some("b".to_string())]));
    assert_eq!(Table::constraint_flags(Some("PRIMARY KEY")), (1, 1));
    assert_eq!(Table::constraint_flags(Some("UNIQUE")), (0, 1));
    assert_eq!(Table::constraint_flags(Some("FOREIGN KEY")), (0, 0));
    assert_eq!(Table::constraint_flags(None), (0, 0));
}

#[test]
fn id_and_order_columns() {
    let mut table = Table::default();
    table.name = "message".to_string();
    assert_eq!(table.get_id_order_columns(&vec![]), ("message_id".to_string(), "message_id".to_string()));
    table.name = "penguin".to_string();
    assert_eq!(table.get_id_order_columns(&vec![]), ("rowid".to_string(), "rowid".to_string()));
    assert_eq!(
        table.get_id_order_columns(&vec![column("penguin", "_id"), column("penguin", "_order")]),
        ("_id".to_string(), "_order".to_string())
    );
}

#[test]
fn configured_column_attributes() {
    let mut table = Table::default();
    table.name = "penguin".to_string();
    table.add_column(ColumnBuilder::new("penguin", "island").datatype("text").label("Island").build().unwrap());
    assert_eq!(table.get_configured_column_attribute("island", "label"), Some("Island".to_string()));
    assert_eq!(table.get_configured_column_attribute("island", "datatype"), Some("text".to_string()));
    assert_eq!(table.get_configured_column_attribute("species", "label"), None);
}

#[test]
fn constant_patterns_are_valid() {
    assert!(rltbl::select::filter_patterns_ok());
    assert!(rltbl::datatype::condition_patterns_ok());
    assert!(rltbl::pattern::pattern_valid(rltbl::git::TRACKING_PATTERN));
    assert!(!rltbl::pattern::pattern_valid("(unclosed"));
}
