use rltbl::column::to_bool;
use rltbl::json::{JsonNumber, JsonValue};
use rltbl::column::{Column, ColumnBuilder, ColumnTable, Columns};
use rltbl::datatype::Datatypes;
use rltbl::sql::DbKind;

#[test]
fn test_sql_type() {
    let datatypes = Datatypes::builtins();

    let column = ColumnBuilder::new("foo", "bar").build().unwrap();
    assert_eq!(column.sql_type(&datatypes), "TEXT");

    let column = ColumnBuilder::new("foo", "bar").datatype("integer").build().unwrap();
    assert_eq!(column.sql_type(&datatypes), "INTEGER");
}

#[test]
fn test_dependent() {
    let a = ColumnBuilder::new("foo", "a").build().unwrap();
    // column b depends on column a from the same "foo" table.
    let b = ColumnBuilder::new("foo", "b").structure("from(a)").build().unwrap();
    // column c depends on column a from the "bar" table.
    let c = ColumnBuilder::new("bar", "c").structure("from(foo.b)").build().unwrap();
    let columns = Columns::new(vec![a.clone(), b.clone(), c.clone()]);
    assert_eq!(columns.direct_dependents(&a), vec![&b]);
    let mut dependents = columns.dependents(&a);
    dependents.sort_by(|x, y| x.column.cmp(&y.column));
    assert_eq!(dependents, vec![&b, &c]);
    assert_eq!(columns.direct_dependents(&b), vec![&c]);
    assert_eq!(columns.dependents(&b), vec![&c]);
    assert_eq!(columns.direct_dependents(&c), Vec::<&Column>::new());
    assert_eq!(columns.dependents(&c), Vec::<&Column>::new());
}

#[test]
fn meta_and_data_columns() {
    let columns = Columns::new(vec![
        ColumnBuilder::new("t", "_id").build().unwrap(),
        ColumnBuilder::new("t", "x").build().unwrap(),
        ColumnBuilder::new("t", "_order").build().unwrap(),
    ]);
    let meta: Vec<&str> = columns.meta().iter().map(|c| c.column.as_str()).collect();
    let data: Vec<&str> = columns.data().iter().map(|c| c.column.as_str()).collect();
    assert_eq!(meta, vec!["_id", "_order"]);
    assert_eq!(data, vec!["x"]);
    assert!(columns.column("t", "x").is_some());
    assert!(columns.column("u", "x").is_none());
}

#[test]
fn builtin_columns() {
    let columns = Columns::builtins();
    let names: Vec<&str> = columns.list().iter().map(|c| c.column.as_str()).collect();
    assert_eq!(names, vec!["table", "column", "label", "description", "nulltype", "datatype", "structure"]);
    assert!(columns.list().iter().all(|c| c.table == "column" && c.sql_type == "TEXT"));
}

#[test]
fn column_table_statements() {
    let table = ColumnTable::connect(&DbKind::SQLite);
    assert!(table.ddl().starts_with("CREATE TABLE \"column\" (\n              _id INTEGER PRIMARY KEY AUTOINCREMENT,"));
    assert_eq!(table.drop_sql(), "DROP TABLE IF EXISTS \"column\"");
    let sql = table.get_sql(&vec!["a".to_string(), "b".to_string()]);
    assert!(sql.contains("LEFT JOIN \"column\" AS col"));
    assert!(sql.contains("AND main.name != 'sqlite_sequence'\n  AND main.name IN('a', 'b')\n"));
    let sql = table.get_configured_sql(&vec!["a".to_string()]);
    assert!(sql.contains("FROM \"column\"\n              WHERE \"table\" IN('a')"));

    let renamed = ColumnTable::connect(&DbKind::PostgreSQL).name("columns2").unwrap();
    assert!(renamed.ddl().contains("_id SERIAL PRIMARY KEY"));
    assert_eq!(renamed.drop_sql(), "DROP TABLE IF EXISTS \"columns2\" CASCADE");
    let err = ColumnTable::connect(&DbKind::SQLite).name("bad name").unwrap_err();
    assert_eq!(err.message(), "Not a valid table name: bad name");
}

#[test]
fn column_flags_from_stored_values() {
    assert_eq!(to_bool(&JsonValue::Bool(true)), Ok(true));
    assert_eq!(to_bool(&JsonValue::Number(JsonNumber::PosInt(0))), Ok(false));
    assert_eq!(to_bool(&JsonValue::Number(JsonNumber::PosInt(1))), Ok(true));
    assert_eq!(to_bool(&JsonValue::Number(JsonNumber::NegInt(-1))), Ok(true));
    assert!(to_bool(&JsonValue::String("1".to_string())).is_err());
    assert!(to_bool(&JsonValue::Null).is_err());
}
