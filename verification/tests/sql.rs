use rltbl::column::ColumnBuilder;
use rltbl::datatype::{DatatypeBuilder, Datatypes};
use rltbl::json::{JsonNumber, JsonValue};
use rltbl::sql::{
    generate_default_view_ddl, generate_table_ddl, generate_text_view_ddl, interpolate_sql, is_simple,
    split_sprintf_format, sprintf_to_pg_char, DbKind, SqlParam, VecInto,
};
use rltbl::table::Table;

#[test]
fn placeholders_for_each_kind() {
    let mut sqlite = SqlParam::new(&DbKind::SQLite);
    assert_eq!(sqlite.next(), "?");
    assert_eq!(sqlite.get_as_list(3), "?, ?, ?");
    let mut pg = SqlParam::new(&DbKind::PostgreSQL);
    assert_eq!(pg.next(), "$1");
    assert_eq!(pg.get(2), vec!["$2".to_string(), "$3".to_string()]);
    pg.reset();
    assert_eq!(pg.next(), "$1");
}

#[test]
fn simple_names() {
    assert_eq!(is_simple("penguin_2"), Ok(()));
    assert!(is_simple("bad name").is_err());
}

#[test]
fn sprintf_formats_for_postgres() {
    assert_eq!(split_sprintf_format("%.2f"), ("".to_string(), "".to_string(), "2".to_string(), "f".to_string()));
    assert_eq!(split_sprintf_format(""), ("".to_string(), "".to_string(), "".to_string(), "s".to_string()));
    assert_eq!(split_sprintf_format("%5z"), ("".to_string(), "5".to_string(), "".to_string(), "s".to_string()));
    assert_eq!(split_sprintf_format("%10d"), ("".to_string(), "10".to_string(), "".to_string(), "d".to_string()));
    assert_eq!(split_sprintf_format("%-12.3f"), ("-".to_string(), "12".to_string(), "3".to_string(), "f".to_string()));
    assert_eq!(sprintf_to_pg_char("", "", "", "s"), "");
    assert_eq!(sprintf_to_pg_char("", "3", "2", "f"), "999.99");
    assert_eq!(sprintf_to_pg_char("0", "2", "0", "d"), "099");
    assert_eq!(sprintf_to_pg_char(",", "7", "0", "d"), "9,999,999");
    assert_eq!(sprintf_to_pg_char("+", "2", "1", "f"), "SG99.9");
}

#[test]
fn interpolation() {
    let params = JsonValue::Array(vec![
        JsonValue::String("its".to_string()),
        JsonValue::Number(JsonNumber::PosInt(3)),
    ]);
    assert_eq!(
        interpolate_sql("SELECT ? AS a, '?' AS b, ? AS c", Some(&params), &DbKind::SQLite).unwrap(),
        "SELECT 'its' AS a, '?' AS b, 3 AS c"
    );
    assert!(interpolate_sql("SELECT ?", None, &DbKind::SQLite).is_err());
}

#[test]
fn table_ddl() {
    let datatypes = Datatypes::builtins();
    let mut table = Table::default();
    table.name = "t".to_string();
    let a = ColumnBuilder::new("t", "a").datatype("integer").unique(true).build().unwrap();
    let b = ColumnBuilder::new("t", "b").build().unwrap();
    let ddl = generate_table_ddl(&table, &vec![a.clone(), b.clone()], &datatypes, true, &DbKind::PostgreSQL, "_id META").unwrap();
    assert_eq!(
        ddl,
        vec![
            "DROP TABLE IF EXISTS \"t\" CASCADE".to_string(),
            "CREATE TABLE \"t\" ( _id META, \"a\" INTEGER UNIQUE, \"b\" TEXT)".to_string(),
        ]
    );
    let other = ColumnBuilder::new("u", "c").build().unwrap();
    let err = generate_table_ddl(&table, &vec![other], &datatypes, false, &DbKind::SQLite, "").unwrap_err();
    assert_eq!(err.message(), "Table name mismatch: 'u' != 't'");
    let conflict = ColumnBuilder::new("t", "_id").build().unwrap();
    let err = generate_table_ddl(&table, &vec![conflict], &datatypes, false, &DbKind::SQLite, "").unwrap_err();
    assert_eq!(err.message(), "column _id conflicts with has_meta == true");
    table.has_meta = false;
    let ddl = generate_table_ddl(&table, &vec![b], &datatypes, false, &DbKind::SQLite, "ignored").unwrap();
    assert_eq!(ddl, vec!["CREATE TABLE \"t\" (  \"b\" TEXT)".to_string()]);
}

#[test]
fn view_ddl() {
    let columns = vec![
        ColumnBuilder::new("t", "a").datatype("num").build().unwrap(),
        ColumnBuilder::new("t", "b").build().unwrap(),
    ];
    let ddl = generate_default_view_ddl("t", "_id", "_order", &columns, &DbKind::SQLite);
    assert_eq!(ddl.len(), 2);
    assert_eq!(ddl[0], "DROP VIEW IF EXISTS \"t_default_view\"");
    assert!(ddl[1].starts_with("CREATE VIEW \"t_default_view\" AS"));
    assert!(ddl[1].ends_with("\"a\", \"b\"\n                     FROM \"t\""));
    let ddl = generate_default_view_ddl("t", "_id", "_order", &columns, &DbKind::PostgreSQL);
    assert_eq!(ddl.len(), 1);
    assert!(ddl[0].starts_with("CREATE OR REPLACE VIEW \"t_default_view\" AS"));

    let mut datatypes = Datatypes::builtins();
    datatypes.insert("num", DatatypeBuilder::new("num").format("%.2f").build().unwrap());
    let ddl = generate_text_view_ddl(&datatypes, "t", &columns, &DbKind::SQLite);
    assert_eq!(ddl[0], "DROP VIEW IF EXISTS \"t_text_view\"");
    assert!(ddl[1].starts_with("CREATE VIEW \"t_text_view\" AS\n           SELECT t._id, t._order, t._message, t._history, t.\"a\", t.\"b\""));
    assert!(ddl[1].contains("ELSE FORMAT('%.2f', \"a\")"));
    assert!(ddl[1].contains("ELSE FORMAT('%s', \"b\")"));
    assert!(ddl[1].ends_with("FROM \"t_default_view\"\n           ) t"));
    let ddl = generate_text_view_ddl(&datatypes, "t", &columns, &DbKind::PostgreSQL);
    assert!(ddl[1].contains("ELSE LTRIM(TO_CHAR(\"a\", '999999999999999999999999999999999999999999999999999999999999999999999999999999999999999999999999999.99'), ' ')"));
    assert!(ddl[1].contains("ELSE \"b\"::TEXT"));
}

#[test]
fn vectors_convert_item_by_item() {
    let v: Vec<u32> = vec![1, 2, 3];
    let w: Vec<u64> = v.vec_into();
    assert_eq!(w, vec![1u64, 2, 3]);
}

#[test]
fn unsigned_parse_errors() {
    let err = rltbl::sql::json_to_unsigned(&rltbl::json::JsonValue::String("12a".to_string())).unwrap_err();
    assert!(err.message().ends_with(": invalid digit found in string"));
    let err = rltbl::sql::json_to_unsigned(&rltbl::json::JsonValue::String(String::new())).unwrap_err();
    assert!(err.message().ends_with(": cannot parse integer from empty string"));
    let err = rltbl::sql::json_to_unsigned(&rltbl::json::JsonValue::String("99999999999999999999999".to_string())).unwrap_err();
    assert!(err.message().ends_with(": number too large to fit in target type"));
    assert_eq!(rltbl::sql::json_to_unsigned(&rltbl::json::JsonValue::String("+7".to_string())), Ok(7));
}

#[test]
fn unsigned_errors_name_the_value() {
    let err = rltbl::sql::json_to_unsigned(&JsonValue::Number(JsonNumber::NegInt(-3))).unwrap_err();
    assert_eq!(err.message(), "-3 is not an unsigned integer");
    let err = rltbl::sql::json_to_unsigned(&JsonValue::Null).unwrap_err();
    assert_eq!(err.message(), "null could not be parsed as an unsigned integer");
    let err = rltbl::sql::json_to_unsigned(&JsonValue::String("x".to_string())).unwrap_err();
    assert_eq!(err.message(), "\"x\" could not be parsed as an unsigned integer: invalid digit found in string");
}
