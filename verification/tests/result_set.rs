use std::io::Write;

use rltbl::column::{Column, ColumnBuilder};
use rltbl::json::JsonValue;
use rltbl::result_set::{Range, ResultSet};
use rltbl::row::Row;
use rltbl::select::Select;
use rltbl::table::Table;

fn column(table: &str, name: &str) -> Column {
    ColumnBuilder::new(table, name).datatype("text").build().unwrap()
}

fn row(id: u64, a: &str, b: &str) -> Row {
    Row::from(&vec![
        ("_id".to_string(), JsonValue::Number(rltbl::json::JsonNumber::PosInt(id))),
        ("_order".to_string(), JsonValue::Number(rltbl::json::JsonNumber::PosInt(id * 1000))),
        ("a".to_string(), JsonValue::String(a.to_string())),
        ("b".to_string(), JsonValue::String(b.to_string())),
    ])
}

fn result_set() -> ResultSet {
    ResultSet {
        select: Select::from("t"),
        statement: String::new(),
        parameters: vec![],
        range: Range { count: 2, total: 2, start: 1, end: 2 },
        table: Table::default(),
        columns: vec![column("t", "a"), column("t", "b")],
        datatypes: vec![],
        rows: vec![row(1, "x", "y,z"), row(2, "long value", "q\"r")],
    }
}

#[test]
fn result_set_to_csv() {
    assert_eq!(result_set().to_csv(), "a,b\nx,\"y,z\"\nlong value,\"q\"\"r\"\n");
}

#[test]
fn result_set_to_tsv() {
    assert_eq!(result_set().to_tsv(), "a\tb\nx\ty,z\nlong value\tq\"r\n");
}

#[test]
fn result_set_to_string() {
    let mut tw = tabwriter::TabWriter::new(vec![]);
    tw.write_all(b"Rows 1-2 of 2\na\tb\nx\ty,z\nlong value\tq\"r\n").unwrap();
    let expected = String::from_utf8(tw.into_inner().unwrap()).unwrap();
    let text = result_set().to_string();
    assert_eq!(text, expected);
    assert!(text.contains("long value  q\"r"));
}
