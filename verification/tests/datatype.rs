use rltbl::column::ColumnBuilder;
use rltbl::datatype::{DatatypeBuilder, Datatypes};
use rltbl::json::{JsonNumber, JsonValue};
use rltbl::sql::DbKind;

#[test]
fn test_ancestors() {
    let datatypes = Datatypes::builtins();
    let integer = datatypes.get("integer").unwrap();
    let ancestors = datatypes.ancestors(integer);
    assert_eq!(
        ancestors,
        vec![
            datatypes.get("integer").unwrap(),
            datatypes.get("nonspace").unwrap(),
            datatypes.get("trimmed_line").unwrap(),
            datatypes.get("line").unwrap(),
            datatypes.get("text").unwrap(),
        ]
    );
}

#[test]
fn builtins_take_priority() {
    let mut text = DatatypeBuilder::new("text").build().unwrap();
    text.description = "FOO".to_string();
    let mine = DatatypeBuilder::new("mine").parent("integer").build().unwrap();
    let datatypes = Datatypes::with_builtins(vec![text, mine]);
    assert_eq!(datatypes.get("text"), Datatypes::builtins().get("text"));
    assert_eq!(datatypes.get("mine").unwrap().parent, "integer");
    assert_eq!(datatypes.sql_type(datatypes.get("mine").unwrap()), "INTEGER");
}

#[test]
fn sql_types_come_from_ancestors() {
    let datatypes = Datatypes::builtins();
    assert_eq!(datatypes.sql_type(datatypes.get("word").unwrap()), "TEXT");
    assert_eq!(datatypes.sql_type(datatypes.get("integer").unwrap()), "INTEGER");
    assert_eq!(datatypes.parent(datatypes.get("word").unwrap()), datatypes.get("nonspace"));
    assert_eq!(datatypes.parent(datatypes.get("text").unwrap()), None);
}

#[test]
fn validation_of_equals_and_in_conditions() {
    let column = ColumnBuilder::new("penguin", "island").build().unwrap();
    let equals = DatatypeBuilder::new("biscoe").condition("equals('Biscoe')").build().unwrap();
    let (sql, params) = equals.validation_sql(&column, &vec![3], &DbKind::PostgreSQL).unwrap();
    assert!(sql.ends_with(
        "WHERE \"island\"::TEXT != $5 AND \"_id\" IN($6) RETURNING 1 AS \"inserted\""
    ));
    assert_eq!(
        params,
        vec![
            JsonValue::String("penguin".to_string()),
            JsonValue::String("island".to_string()),
            JsonValue::String("datatype:biscoe".to_string()),
            JsonValue::String("island must be a biscoe".to_string()),
            JsonValue::String("Biscoe".to_string()),
            JsonValue::Number(JsonNumber::PosInt(3)),
        ]
    );
    let within = DatatypeBuilder::new("isle").condition("in('Biscoe', 'Dream')").build().unwrap();
    let (sql, params) = within.validation_sql(&column, &vec![], &DbKind::SQLite).unwrap();
    assert!(sql.ends_with("WHERE CAST(\"island\" AS TEXT) NOT IN (?, ?) RETURNING 1 AS \"inserted\""));
    assert_eq!(params.len(), 6);
    let matching = DatatypeBuilder::new("w").condition("match(\\w+)").build().unwrap();
    let (sql, params) = matching.validation_sql(&column, &vec![], &DbKind::SQLite).unwrap();
    assert!(sql.ends_with("WHERE regexp(?, CAST(\"island\" AS TEXT)) = 0 RETURNING 1 AS \"inserted\""));
    assert_eq!(params[4], JsonValue::String("\\w+".to_string()));
    let (sql, _) = matching.validation_sql(&column, &vec![7], &DbKind::PostgreSQL).unwrap();
    assert!(sql.ends_with("WHERE \"island\"::TEXT !~ $5 AND \"_id\" IN($6) RETURNING 1 AS \"inserted\""));
    let other = DatatypeBuilder::new("w").condition("fancy(x)").build().unwrap();
    assert!(other.validation_sql(&column, &vec![], &DbKind::SQLite).is_none());
}
