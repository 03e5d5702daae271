use indexmap::IndexMap;
use rltbl::column::{Column, ColumnBuilder};
use rltbl::json::{JsonNumber, JsonValue};
use rltbl::select::{Format, QueryParams, Select};
use rltbl::sql::{is_clause, is_not_clause, DbKind, SqlParam};
use rltbl::table::Table;
use rltbl::tableset::TablesetRow;

fn query(pairs: &[(&str, &str)]) -> QueryParams {
    let mut q: QueryParams = IndexMap::new();
    for (k, v) in pairs {
        q.insert(k.to_string(), v.to_string());
    }
    q
}

fn num(n: u64) -> JsonValue {
    JsonValue::Number(JsonNumber::PosInt(n))
}

fn text(s: &str) -> JsonValue {
    JsonValue::String(s.to_string())
}

fn column(table: &str, name: &str, datatype: &str) -> Column {
    ColumnBuilder::new(table, name).datatype(datatype).build().unwrap()
}

/// The penguin table of the demonstration database, with its configured columns.
fn penguin_tables() -> Vec<Table> {
    let mut table = Table::default();
    table.name = "penguin".to_string();
    table.view = "penguin".to_string();
    for (name, datatype) in [
        ("study_name", "text"),
        ("sample_number", "integer"),
        ("species", "text"),
        ("island", "text"),
        ("individual_id", "text"),
        ("bill_length", "decimal"),
        ("bill_depth", "decimal"),
        ("body_mass", "integer"),
    ] {
        table.add_column(column("penguin", name, datatype));
    }
    vec![table]
}

fn row(left_table: &str, left_column: &str, right_table: &str, right_column: &str) -> TablesetRow {
    TablesetRow {
        left_table: left_table.to_string(),
        left_column: left_column.to_string(),
        right_table: right_table.to_string(),
        right_column: right_column.to_string(),
    }
}

#[test]
fn test_select_from_path_and_query() {
        let tables = penguin_tables();
        let kind = DbKind::SQLite;
        let sql_param = SqlParam::new(&kind).next();
        let base = "http://example.com";
        let empty: Vec<JsonValue> = vec![];

        // A basic URL
        let url = "http://example.com/penguin";
        let query_params = query(&[]);
        let select = Select::from_path_and_query("penguin", &query_params, &tables);
        assert_eq!(url, select.to_url(&base, &Format::Default).unwrap());
        let (sql, params) = select.to_sql(&kind).unwrap();
        assert_eq!(
            sql,
            r#"SELECT *
FROM "penguin"
ORDER BY "penguin"._order ASC
LIMIT 100"#
        );
        assert_eq!(params, empty);
        let (sql, params) = select.to_sql_count(&kind).unwrap();
        assert_eq!(
            sql,
            r#"SELECT COUNT(1) AS "count"
FROM "penguin""#
        );
        assert_eq!(params, empty);

        // A URL with a filter on an integer column:
        let url = "http://example.com/penguin.json?sample_number=eq.5&limit=1&offset=2";
        let query_params = query(&[("sample_number", "eq.5"), ("limit", "1"), ("offset", "2")]);
        let select = Select::from_path_and_query("penguin", &query_params, &tables);
        assert_eq!(url, select.to_url(&base, &Format::Json).unwrap());
        let (sql, params) = select.to_sql(&kind).unwrap();
        assert_eq!(
            sql,
            format!(
                r#"SELECT *
FROM "penguin"
WHERE "sample_number" = {sql_param}
ORDER BY "penguin"._order ASC
LIMIT 1
OFFSET 2"#
            )
        );
        assert_eq!(params, vec![num(5)]);
        let (sql, params) = select.to_sql_count(&kind).unwrap();
        assert_eq!(
            sql,
            format!(
                r#"SELECT COUNT(1) AS "count"
FROM "penguin"
WHERE "sample_number" = {sql_param}"#
            )
        );
        assert_eq!(params, vec![num(5)]);

        // A URL with a filter on a string column and a value with a space
        let url = "http://example.com/penguin?penguin.study_name=eq.FAKE 123&limit=1";
        let query_params = query(&[("penguin.study_name", "eq.FAKE 123"), ("limit", "1")]);
        let select = Select::from_path_and_query("penguin", &query_params, &tables);
        assert_eq!(url, select.to_url(&base, &Format::Default).unwrap());
        let (sql, params) = select.to_sql(&kind).unwrap();
        assert_eq!(
            sql,
            format!(
                r#"SELECT *
FROM "penguin"
WHERE "penguin"."study_name" = {sql_param}
ORDER BY "penguin"._order ASC
LIMIT 1"#
            )
        );
        assert_eq!(params, vec![text("FAKE 123")]);

        let (sql, params) = select.to_sql_count(&kind).unwrap();
        assert_eq!(
            sql,
            format!(
                r#"SELECT COUNT(1) AS "count"
FROM "penguin"
WHERE "penguin"."study_name" = {sql_param}"#
            )
        );
        assert_eq!(params, vec![text("FAKE 123")]);

        // A URL with an IS NULL filter
        let url = "http://example.com/penguin?penguin.study_name=is.null&limit=1";
        let query_params = query(&[("penguin.study_name", "is.null"), ("limit", "1")]);
        let select = Select::from_path_and_query("penguin", &query_params, &tables);
        assert_eq!(url, select.to_url(&base, &Format::Default).unwrap());

        let (sql, params) = select.to_sql(&kind).unwrap();
        assert_eq!(
            sql,
            format!(
                r#"SELECT *
FROM "penguin"
WHERE "penguin"."study_name" {is_clause} {sql_param}
ORDER BY "penguin"._order ASC
LIMIT 1"#,
                is_clause = is_clause(&kind),
            )
        );
        assert_eq!(params, vec![JsonValue::Null]);
        let (sql, params) = select.to_sql_count(&kind).unwrap();
        assert_eq!(
            sql,
            format!(
                r#"SELECT COUNT(1) AS "count"
FROM "penguin"
WHERE "penguin"."study_name" {is_clause} {sql_param}"#,
                is_clause = is_clause(&kind),
            )
        );
        assert_eq!(params, vec![JsonValue::Null]);

        // A URL with an IS NOT NULL filter
        let url = "http://example.com/penguin?penguin.study_name=is_not.null&limit=1";
        let query_params = query(&[("penguin.study_name", "is_not.null"), ("limit", "1")]);
        let select = Select::from_path_and_query("penguin", &query_params, &tables);
        assert_eq!(url, select.to_url(&base, &Format::Default).unwrap());

        let (sql, params) = select.to_sql(&kind).unwrap();
        assert_eq!(
            sql,
            format!(
                r#"SELECT *
FROM "penguin"
WHERE "penguin"."study_name" {is_not_clause} {sql_param}
ORDER BY "penguin"._order ASC
LIMIT 1"#,
                is_not_clause = is_not_clause(&kind),
            )
        );
        assert_eq!(params, vec![JsonValue::Null]);
        let (sql, params) = select.to_sql_count(&kind).unwrap();
        assert_eq!(
            sql,
            format!(
                r#"SELECT COUNT(1) AS "count"
FROM "penguin"
WHERE "penguin"."study_name" {is_not_clause} {sql_param}"#,
                is_not_clause = is_not_clause(&kind),
            )
        );
        assert_eq!(params, vec![JsonValue::Null]);

        // A URL with an IN filter
        let mut sql_param_gen = SqlParam::new(&kind);
        let sql_param_1 = sql_param_gen.next();
        let sql_param_2 = sql_param_gen.next();
        let url = "http://example.com/penguin?penguin.sample_number=in.(123,345)&limit=1";
        let query_params = query(&[("penguin.sample_number", "in.(123,345)"), ("limit", "1")]);
        let select = Select::from_path_and_query("penguin", &query_params, &tables);
        assert_eq!(url, select.to_url(&base, &Format::Default).unwrap());

        let (sql, params) = select.to_sql(&kind).unwrap();
        assert_eq!(
            sql,
            format!(
                r#"SELECT *
FROM "penguin"
WHERE "penguin"."sample_number" IN ({sql_param_1}, {sql_param_2})
ORDER BY "penguin"._order ASC
LIMIT 1"#
            )
        );
        assert_eq!(params, vec![num(123), num(345)]);
        let (sql, params) = select.to_sql_count(&kind).unwrap();
        assert_eq!(
            sql,
            format!(
                r#"SELECT COUNT(1) AS "count"
FROM "penguin"
WHERE "penguin"."sample_number" IN ({sql_param_1}, {sql_param_2})"#
            )
        );
        assert_eq!(params, vec![num(123), num(345)]);

        // A URL with a NOT IN filter
        let mut sql_param_gen = SqlParam::new(&kind);
        let sql_param_1 = sql_param_gen.next();
        let sql_param_2 = sql_param_gen.next();
        let url = "http://example.com/penguin?penguin.sample_number=not_in.(123,345)&limit=1";
        let query_params = query(&[("penguin.sample_number", "not_in.(123,345)"), ("limit", "1")]);
        let select = Select::from_path_and_query("penguin", &query_params, &tables);
        assert_eq!(url, select.to_url(&base, &Format::Default).unwrap());

        let (sql, params) = select.to_sql(&kind).unwrap();
        assert_eq!(
            sql,
            format!(
                r#"SELECT *
FROM "penguin"
WHERE "penguin"."sample_number" NOT IN ({sql_param_1}, {sql_param_2})
ORDER BY "penguin"._order ASC
LIMIT 1"#
            )
        );
        assert_eq!(params, vec![num(123), num(345)]);
        let (sql, params) = select.to_sql_count(&kind).unwrap();
        assert_eq!(
            sql,
            format!(
                r#"SELECT COUNT(1) AS "count"
FROM "penguin"
WHERE "penguin"."sample_number" NOT IN ({sql_param_1}, {sql_param_2})"#
            )
        );
        assert_eq!(params, vec![num(123), num(345)]);

        // A URL with a filter on a string column and a value that looks like an integer (eq):
        let url = "http://example.com/penguin?penguin.study_name=eq.123&limit=1";
        let query_params = query(&[("penguin.study_name", "eq.123"), ("limit", "1")]);
        let select = Select::from_path_and_query("penguin", &query_params, &tables);
        assert_eq!(url, select.to_url(&base, &Format::Default).unwrap());

        let (sql, params) = select.to_sql(&kind).unwrap();
        assert_eq!(
            sql,
            format!(
                r#"SELECT *
FROM "penguin"
WHERE "penguin"."study_name" = {sql_param}
ORDER BY "penguin"._order ASC
LIMIT 1"#
            )
        );
        assert_eq!(params, vec![text("123")]);
        let (sql, params) = select.to_sql_count(&kind).unwrap();
        assert_eq!(
            sql,
            format!(
                r#"SELECT COUNT(1) AS "count"
FROM "penguin"
WHERE "penguin"."study_name" = {sql_param}"#
            )
        );
        assert_eq!(params, vec![text("123")]);

        // A URL with a filter on a string column and a value that looks like a real (eq):
        let url = "http://example.com/penguin?penguin.study_name=eq.123.345&limit=1";
        let query_params = query(&[("penguin.study_name", "eq.123.345"), ("limit", "1")]);
        let select = Select::from_path_and_query("penguin", &query_params, &tables);
        assert_eq!(url, select.to_url(&base, &Format::Default).unwrap());

        let (sql, params) = select.to_sql(&kind).unwrap();
        assert_eq!(
            sql,
            format!(
                r#"SELECT *
FROM "penguin"
WHERE "penguin"."study_name" = {sql_param}
ORDER BY "penguin"._order ASC
LIMIT 1"#
            )
        );
        assert_eq!(params, vec![text("123.345")]);
        let (sql, params) = select.to_sql_count(&kind).unwrap();
        assert_eq!(
            sql,
            format!(
                r#"SELECT COUNT(1) AS "count"
FROM "penguin"
WHERE "penguin"."study_name" = {sql_param}"#
            )
        );
        assert_eq!(params, vec![text("123.345")]);

        // A URL with a filter on a string column and a value that looks like an integer (not_eq):
        let url = "http://example.com/penguin?penguin.study_name=not_eq.123&limit=1";
        let query_params = query(&[("penguin.study_name", "not_eq.123"), ("limit", "1")]);
        let select = Select::from_path_and_query("penguin", &query_params, &tables);
        assert_eq!(url, select.to_url(&base, &Format::Default).unwrap());

        let (sql, params) = select.to_sql(&kind).unwrap();
        assert_eq!(
            sql,
            format!(
                r#"SELECT *
FROM "penguin"
WHERE "penguin"."study_name" <> {sql_param}
ORDER BY "penguin"._order ASC
LIMIT 1"#
            )
        );
        assert_eq!(params, vec![text("123")]);
        let (sql, params) = select.to_sql_count(&kind).unwrap();
        assert_eq!(
            sql,
            format!(
                r#"SELECT COUNT(1) AS "count"
FROM "penguin"
WHERE "penguin"."study_name" <> {sql_param}"#
            )
        );
        assert_eq!(params, vec![text("123")]);

        // A URL with a filter on a string column and a value that looks like an integer (like):
        let url = "http://example.com/penguin?penguin.study_name=like.123&limit=1";
        let query_params = query(&[("penguin.study_name", "like.123"), ("limit", "1")]);
        let select = Select::from_path_and_query("penguin", &query_params, &tables);
        assert_eq!(url, select.to_url(&base, &Format::Default).unwrap());

        let (sql, params) = select.to_sql(&kind).unwrap();
        assert_eq!(
            sql,
            format!(
                r#"SELECT *
FROM "penguin"
WHERE "penguin"."study_name" LIKE {sql_param}
ORDER BY "penguin"._order ASC
LIMIT 1"#
            )
        );
        assert_eq!(params, vec![text("123")]);
        let (sql, params) = select.to_sql_count(&kind).unwrap();
        assert_eq!(
            sql,
            format!(
                r#"SELECT COUNT(1) AS "count"
FROM "penguin"
WHERE "penguin"."study_name" LIKE {sql_param}"#
            )
        );
        assert_eq!(params, vec![text("123")]);

        // A URL with a filter on a string column and a value that looks like an integer (gt):
        let url = "http://example.com/penguin?penguin.study_name=gt.123&limit=1";
        let query_params = query(&[("penguin.study_name", "gt.123"), ("limit", "1")]);
        let select = Select::from_path_and_query("penguin", &query_params, &tables);
        assert_eq!(url, select.to_url(&base, &Format::Default).unwrap());

        let (sql, params) = select.to_sql(&kind).unwrap();
        assert_eq!(
            sql,
            format!(
                r#"SELECT *
FROM "penguin"
WHERE "penguin"."study_name" > {sql_param}
ORDER BY "penguin"._order ASC
LIMIT 1"#
            )
        );
        assert_eq!(params, vec![text("123")]);
        let (sql, params) = select.to_sql_count(&kind).unwrap();
        assert_eq!(
            sql,
            format!(
                r#"SELECT COUNT(1) AS "count"
FROM "penguin"
WHERE "penguin"."study_name" > {sql_param}"#
            )
        );
        assert_eq!(params, vec![text("123")]);

        // A URL with a filter on a string column and a value that looks like an integer (gte):
        let url = "http://example.com/penguin?penguin.study_name=gte.123&limit=1";
        let query_params = query(&[("penguin.study_name", "gte.123"), ("limit", "1")]);
        let select = Select::from_path_and_query("penguin", &query_params, &tables);
        assert_eq!(url, select.to_url(&base, &Format::Default).unwrap());

        let (sql, params) = select.to_sql(&kind).unwrap();
        assert_eq!(
            sql,
            format!(
                r#"SELECT *
FROM "penguin"
WHERE "penguin"."study_name" >= {sql_param}
ORDER BY "penguin"._order ASC
LIMIT 1"#
            )
        );
        assert_eq!(params, vec![text("123")]);
        let (sql, params) = select.to_sql_count(&kind).unwrap();
        assert_eq!(
            sql,
            format!(
                r#"SELECT COUNT(1) AS "count"
FROM "penguin"
WHERE "penguin"."study_name" >= {sql_param}"#
            )
        );
        assert_eq!(params, vec![text("123")]);

        // A URL with a filter on a string column and a value that looks like an integer (lt):
        let url = "http://example.com/penguin?penguin.study_name=lt.123&limit=1";
        let query_params = query(&[("penguin.study_name", "lt.123"), ("limit", "1")]);
        let select = Select::from_path_and_query("penguin", &query_params, &tables);
        assert_eq!(url, select.to_url(&base, &Format::Default).unwrap());

        let (sql, params) = select.to_sql(&kind).unwrap();
        assert_eq!(
            sql,
            format!(
                r#"SELECT *
FROM "penguin"
WHERE "penguin"."study_name" < {sql_param}
ORDER BY "penguin"._order ASC
LIMIT 1"#
            )
        );
        assert_eq!(params, vec![text("123")]);
        let (sql, params) = select.to_sql_count(&kind).unwrap();
        assert_eq!(
            sql,
            format!(
                r#"SELECT COUNT(1) AS "count"
FROM "penguin"
WHERE "penguin"."study_name" < {sql_param}"#
            )
        );
        assert_eq!(params, vec![text("123")]);

        // A URL with a filter on a string column and a value that looks like an integer (gte):
        let url = "http://example.com/penguin?penguin.study_name=lte.123&limit=1";
        let query_params = query(&[("penguin.study_name", "lte.123"), ("limit", "1")]);
        let select = Select::from_path_and_query("penguin", &query_params, &tables);
        assert_eq!(url, select.to_url(&base, &Format::Default).unwrap());

        let (sql, params) = select.to_sql(&kind).unwrap();
        assert_eq!(
            sql,
            format!(
                r#"SELECT *
FROM "penguin"
WHERE "penguin"."study_name" <= {sql_param}
ORDER BY "penguin"._order ASC
LIMIT 1"#
            )
        );
        assert_eq!(params, vec![text("123")]);
        let (sql, params) = select.to_sql_count(&kind).unwrap();
        assert_eq!(
            sql,
            format!(
                r#"SELECT COUNT(1) AS "count"
FROM "penguin"
WHERE "penguin"."study_name" <= {sql_param}"#
            )
        );
        assert_eq!(params, vec![text("123")]);

        // A URL with a filter on a string column and a value that looks like an integer (is):
        let url = "http://example.com/penguin?penguin.study_name=is.123&limit=1";
        let query_params = query(&[("penguin.study_name", "is.123"), ("limit", "1")]);
        let select = Select::from_path_and_query("penguin", &query_params, &tables);
        assert_eq!(url, select.to_url(&base, &Format::Default).unwrap());

        let (sql, params) = select.to_sql(&kind).unwrap();
        assert_eq!(
            sql,
            format!(
                r#"SELECT *
FROM "penguin"
WHERE "penguin"."study_name" {is_clause} {sql_param}
ORDER BY "penguin"._order ASC
LIMIT 1"#,
                is_clause = is_clause(&kind),
            )
        );
        assert_eq!(params, vec![text("123")]);
        let (sql, params) = select.to_sql_count(&kind).unwrap();
        assert_eq!(
            sql,
            format!(
                r#"SELECT COUNT(1) AS "count"
FROM "penguin"
WHERE "penguin"."study_name" {is_clause} {sql_param}"#,
                is_clause = is_clause(&kind),
            )
        );
        assert_eq!(params, vec![text("123")]);

        // A URL with a filter on a string column and a value that looks like an integer (is_not):
        let url = "http://example.com/penguin?penguin.study_name=is_not.123&limit=1";
        let query_params = query(&[("penguin.study_name", "is_not.123"), ("limit", "1")]);
        let select = Select::from_path_and_query("penguin", &query_params, &tables);
        assert_eq!(url, select.to_url(&base, &Format::Default).unwrap());

        let (sql, params) = select.to_sql(&kind).unwrap();
        assert_eq!(
            sql,
            format!(
                r#"SELECT *
FROM "penguin"
WHERE "penguin"."study_name" {is_not_clause} {sql_param}
ORDER BY "penguin"._order ASC
LIMIT 1"#,
                is_not_clause = is_not_clause(&kind),
            )
        );
        assert_eq!(params, vec![text("123")]);
        let (sql, params) = select.to_sql_count(&kind).unwrap();
        assert_eq!(
            sql,
            format!(
                r#"SELECT COUNT(1) AS "count"
FROM "penguin"
WHERE "penguin"."study_name" {is_not_clause} {sql_param}"#,
                is_not_clause = is_not_clause(&kind),
            )
        );
        assert_eq!(params, vec![text("123")]);

        // A URL with a filter on a string column and a value that looks like an integer (in):
        let mut sql_param_gen = SqlParam::new(&kind);
        let sql_param_1 = sql_param_gen.next();
        let sql_param_2 = sql_param_gen.next();
        let url = "http://example.com/penguin?penguin.study_name=in.(123,345)&limit=1";
        let query_params = query(&[("penguin.study_name", "in.(123,345)"), ("limit", "1")]);
        let select = Select::from_path_and_query("penguin", &query_params, &tables);
        assert_eq!(url, select.to_url(&base, &Format::Default).unwrap());

        let (sql, params) = select.to_sql(&kind).unwrap();
        assert_eq!(
            sql,
            format!(
                r#"SELECT *
FROM "penguin"
WHERE "penguin"."study_name" IN ({sql_param_1}, {sql_param_2})
ORDER BY "penguin"._order ASC
LIMIT 1"#
            )
        );
        assert_eq!(params, vec![text("123"), text("345")]);
        let (sql, params) = select.to_sql_count(&kind).unwrap();
        assert_eq!(
            sql,
            format!(
                r#"SELECT COUNT(1) AS "count"
FROM "penguin"
WHERE "penguin"."study_name" IN ({sql_param_1}, {sql_param_2})"#
            )
        );
        assert_eq!(params, vec![text("123"), text("345")]);

        // A URL with a filter on a string column and a value that looks like an integer (not_in):
        let mut sql_param_gen = SqlParam::new(&kind);
        let sql_param_1 = sql_param_gen.next();
        let sql_param_2 = sql_param_gen.next();
        let url = "http://example.com/penguin?penguin.study_name=not_in.(123,345)&limit=1";
        let query_params = query(&[("penguin.study_name", "not_in.(123,345)"), ("limit", "1")]);
        let select = Select::from_path_and_query("penguin", &query_params, &tables);
        assert_eq!(url, select.to_url(&base, &Format::Default).unwrap());

        let (sql, params) = select.to_sql(&kind).unwrap();
        assert_eq!(
            sql,
            format!(
                r#"SELECT *
FROM "penguin"
WHERE "penguin"."study_name" NOT IN ({sql_param_1}, {sql_param_2})
ORDER BY "penguin"._order ASC
LIMIT 1"#
            )
        );
        assert_eq!(params, vec![text("123"), text("345")]);
        let (sql, params) = select.to_sql_count(&kind).unwrap();
        assert_eq!(
            sql,
            format!(
                r#"SELECT COUNT(1) AS "count"
FROM "penguin"
WHERE "penguin"."study_name" NOT IN ({sql_param_1}, {sql_param_2})"#
            )
        );
        assert_eq!(params, vec![text("123"), text("345")]);

        // A URL with a filter on the change ID
        let url = "http://example.com/penguin?_change_id=gt.5";
        let query_params = query(&[("_change_id", "gt.5")]);
        let select = Select::from_path_and_query("penguin", &query_params, &tables);
        assert_eq!(url, select.to_url(&base, &Format::Default).unwrap());
        let (sql, params) = select.to_sql(&kind).unwrap();
        assert_eq!(
            sql,
            format!(
                r#"SELECT *
, (SELECT MAX(change_id) FROM history
                    WHERE "table" = {sql_param}
                      AND "row" = "penguin"._id
                   ) AS _change_id
FROM "penguin"
WHERE "_change_id" > {sql_param}
ORDER BY "penguin"._order ASC
LIMIT 100"#
            ),
        );
        assert_eq!(params, vec![text("penguin"), num(5)]);
        let (sql, params) = select.to_sql_count(&kind).unwrap();
        assert_eq!(
            sql,
            format!(
                r#"SELECT COUNT(1) AS "count"
FROM "penguin"
WHERE "_change_id" > {sql_param}"#
            ),
        );
        assert_eq!(params, vec![num(5)]);

        // A URL that includes an expression
        let url = "http://example.com/penguin?select=sample_number,count()";
        let query_params = query(&[("select", "sample_number,count()")]);
        let select = Select::from_path_and_query("penguin", &query_params, &tables);
        assert_eq!(url, select.to_url(&base, &Format::Default).unwrap());
        let (sql, params) = select.to_sql(&kind).unwrap();
        assert_eq!(
            sql,
            r#"SELECT
  "sample_number",
  count()
FROM "penguin"
ORDER BY "penguin"._order ASC
LIMIT 100"#
        );
        assert_eq!(params, empty);
        let (sql, params) = select.to_sql_count(&kind).unwrap();
        assert_eq!(
            sql,
            r#"SELECT COUNT(1) AS "count"
FROM "penguin""#
        );
        assert_eq!(params, empty);
    }


#[test]
fn test_select_methods() {
        let kind = DbKind::SQLite;
        let empty: Vec<JsonValue> = vec![];

        // select_columns
        let mut select = Select::from("penguin_test");
        select.select_table_columns("penguin_test", &vec!["species", "island"]);
        select.select_columns(&vec!["study_name", "body_mass"]);

        let (sql, params) = select.to_sql(&kind).unwrap();
        assert_eq!(
            sql,
            r#"SELECT
  "penguin_test"."species",
  "penguin_test"."island",
  "study_name",
  "body_mass"
FROM "penguin_test"
ORDER BY "penguin_test"._order ASC
LIMIT 100"#
        );
        assert_eq!(params, empty);
        let (sql, params) = select.to_sql_count(&kind).unwrap();
        assert_eq!(
            sql,
            r#"SELECT COUNT(1) AS "count"
FROM "penguin_test""#
        );
        assert_eq!(params, empty);

        // select_alias
        let mut select = Select::from("penguin_test");
        select.select_alias("penguin_test", "island", "location");

        let (sql, params) = select.to_sql(&kind).unwrap();
        assert_eq!(
            sql,
            r#"SELECT
  "penguin_test"."island" AS "location"
FROM "penguin_test"
ORDER BY "penguin_test"._order ASC
LIMIT 100"#
        );
        assert_eq!(params, empty);

        let (sql, params) = select.to_sql_count(&kind).unwrap();
        assert_eq!(
            sql,
            r#"SELECT COUNT(1) AS "count"
FROM "penguin_test""#
        );
        assert_eq!(params, empty);

        // select_expression
        let mut select = Select::from("penguin_test");
        select.select_expression("CASE WHEN island = 'Biscoe' THEN 'BISCOE' END", "location");

        let (sql, params) = select.to_sql(&kind).unwrap();
        assert_eq!(
            sql,
            r#"SELECT
  CASE WHEN island = 'Biscoe' THEN 'BISCOE' END AS "location"
FROM "penguin_test"
ORDER BY "penguin_test"._order ASC
LIMIT 100"#
        );
        assert_eq!(params, empty);

        let (sql, params) = select.to_sql_count(&kind).unwrap();
        assert_eq!(
            sql,
            r#"SELECT COUNT(1) AS "count"
FROM "penguin_test""#
        );
        assert_eq!(params, empty);

        // select_all: the columns of the table, read from the database, are selected by name
        let mut select = Select::from("penguin_test");
        select.select_columns(&vec![
            "_id",
            "_order",
            "study_name",
            "sample_number",
            "species",
            "island",
            "individual_id",
            "culmen_length",
            "culmen_depth",
            "body_mass",
        ]);

        let (sql, params) = select.to_sql(&kind).unwrap();
        assert_eq!(
            sql,
            r#"SELECT
  "_id",
  "_order",
  "study_name",
  "sample_number",
  "species",
  "island",
  "individual_id",
  "culmen_length",
  "culmen_depth",
  "body_mass"
FROM "penguin_test"
ORDER BY "penguin_test"._order ASC
LIMIT 100"#
        );
        assert_eq!(params, empty);

        let (sql, params) = select.to_sql_count(&kind).unwrap();
        assert_eq!(
            sql,
            r#"SELECT COUNT(1) AS "count"
FROM "penguin_test""#
        );
        assert_eq!(params, empty);
    }

#[test]
fn test_subquery() {
        let kind = DbKind::SQLite;
        let sql_param = SqlParam::new(&kind).next();

        // Subquery select, filtered on a string:
        let mut inner_select = Select::from("penguin").limit(&0);
        inner_select.select_table_column("penguin", "individual_id");
        inner_select.left_join("penguin", "individual_id", "egg", "individual_id");
        inner_select
            .table_eq("penguin", "individual_id", &text("N1"))
            .unwrap();
        let mut outer_select = Select::from("penguin").limit(&0);
        outer_select.is_in_subquery("individual_id", &inner_select);

        let tables = outer_select.get_tables();
        assert_eq!(tables, vec!["egg", "penguin"]);

        let (sql, params) = outer_select.to_sql(&kind).unwrap();
        assert_eq!(
            sql,
            format!(
                r#"SELECT *
FROM "penguin"
WHERE "penguin"."individual_id" IN (
  SELECT
    "penguin"."individual_id"
  FROM "penguin"
  LEFT JOIN "egg" ON "penguin"."individual_id" = "egg"."individual_id"
  WHERE "penguin"."individual_id" = {sql_param}
)
ORDER BY "penguin"._order ASC"#
            )
        );
        assert_eq!(params, vec![text("N1")]);

        let (sql, params) = outer_select.to_sql_count(&kind).unwrap();
        assert_eq!(
            sql,
            format!(
                r#"SELECT COUNT(1) AS "count"
FROM "penguin"
WHERE "penguin"."individual_id" IN (
  SELECT
    "penguin"."individual_id"
  FROM "penguin"
  LEFT JOIN "egg" ON "penguin"."individual_id" = "egg"."individual_id"
  WHERE "penguin"."individual_id" = {sql_param}
)"#
            )
        );
        assert_eq!(params, vec![text("N1")]);

        // Subquery select, filtered on an integer:
        let mut inner_select = Select::from("penguin").limit(&0);
        inner_select.select_table_column("penguin", "sample_number");
        inner_select.left_join("penguin", "sample_number", "egg", "sample_number");
        inner_select
            .table_eq("penguin", "sample_number", &num(27))
            .unwrap();
        let mut outer_select = Select::from("penguin").limit(&0);
        outer_select.is_in_subquery("sample_number", &inner_select);

        let tables = outer_select.get_tables();
        assert_eq!(tables, vec!["egg", "penguin"]);

        let (sql, params) = outer_select.to_sql(&kind).unwrap();
        assert_eq!(
            sql,
            format!(
                r#"SELECT *
FROM "penguin"
WHERE "penguin"."sample_number" IN (
  SELECT
    "penguin"."sample_number"
  FROM "penguin"
  LEFT JOIN "egg" ON "penguin"."sample_number" = "egg"."sample_number"
  WHERE "penguin"."sample_number" = {sql_param}
)
ORDER BY "penguin"._order ASC"#
            )
        );
        assert_eq!(params, vec![num(27)]);

        let (sql, params) = outer_select.to_sql_count(&kind).unwrap();
        assert_eq!(
            sql,
            format!(
                r#"SELECT COUNT(1) AS "count"
FROM "penguin"
WHERE "penguin"."sample_number" IN (
  SELECT
    "penguin"."sample_number"
  FROM "penguin"
  LEFT JOIN "egg" ON "penguin"."sample_number" = "egg"."sample_number"
  WHERE "penguin"."sample_number" = {sql_param}
)"#
            )
        );
        assert_eq!(params, vec![num(27)]);
    }


#[test]
fn test_filters() {
        let kind = DbKind::SQLite;
        let mut sql_param_generator = SqlParam::new(&kind);
        let sql_param_1 = sql_param_generator.next();
        let sql_param_2 = sql_param_generator.next();
        let is_for_kind = is_clause(&kind);
        let is_not_for_kind = is_not_clause(&kind);

        // Test simple string filters
        for (input_symbol, output_symbol) in [
            ("~=", "LIKE"),
            ("=", "="),
            ("!=", "<>"),
            (">", ">"),
            (">=", ">="),
            ("<", "<"),
            ("<=", "<="),
            ("is", &is_for_kind),
            ("is not", &is_not_for_kind),
        ] {
            let select = Select::from("penguin")
                .limit(&0)
                .filters(&vec![format!("study_name {input_symbol} FAKE123")])
                .unwrap();
            let (sql, params) = select.to_sql(&kind).unwrap();
            assert_eq!(
                sql,
                format!(
                    r#"SELECT *
FROM "penguin"
WHERE "study_name" {output_symbol} {sql_param_1}
ORDER BY "penguin"._order ASC"#
                )
            );
            assert_eq!(params, vec![text("FAKE123")]);

            let (sql, params) = select.to_sql_count(&kind).unwrap();
            assert_eq!(
                sql,
                format!(
                    r#"SELECT COUNT(1) AS "count"
FROM "penguin"
WHERE "study_name" {output_symbol} {sql_param_1}"#
                )
            );
            assert_eq!(params, vec![text("FAKE123")]);
        }

        // Test simple integer filters
        for (input_symbol, output_symbol) in [
            ("=", "="),
            ("!=", "<>"),
            (">", ">"),
            (">=", ">="),
            ("<", "<"),
            ("<=", "<="),
            ("is", &is_for_kind),
            ("is not", &is_not_for_kind),
        ] {
            let select = Select::from("penguin")
                .limit(&0)
                .filters(&vec![format!("sample_number {input_symbol} 2")])
                .unwrap();
            let (sql, params) = select.to_sql(&kind).unwrap();
            assert_eq!(
                sql,
                format!(
                    r#"SELECT *
FROM "penguin"
WHERE "sample_number" {output_symbol} {sql_param_1}
ORDER BY "penguin"._order ASC"#
                )
            );
            assert_eq!(params, vec![num(2)]);

            let (sql, params) = select.to_sql_count(&kind).unwrap();
            assert_eq!(
                sql,
                format!(
                    r#"SELECT COUNT(1) AS "count"
FROM "penguin"
WHERE "sample_number" {output_symbol} {sql_param_1}"#
                )
            );
            assert_eq!(params, vec![num(2)]);
        }

        // Test list string filters
        for (input_symbol, output_symbol) in [("in", "IN"), ("not in", "NOT IN")] {
            let select = Select::from("penguin")
                .limit(&0)
                .filters(&vec![format!(
                    "study_name {input_symbol} (MIKE123, RICK123)"
                )])
                .unwrap();
            let (sql, params) = select.to_sql(&kind).unwrap();
            assert_eq!(
                sql,
                format!(
                    r#"SELECT *
FROM "penguin"
WHERE "study_name" {output_symbol} ({sql_param_1}, {sql_param_2})
ORDER BY "penguin"._order ASC"#
                )
            );
            assert_eq!(params, vec![text("MIKE123"), text("RICK123")]);

            let (sql, params) = select.to_sql_count(&kind).unwrap();
            assert_eq!(
                sql,
                format!(
                    r#"SELECT COUNT(1) AS "count"
FROM "penguin"
WHERE "study_name" {output_symbol} ({sql_param_1}, {sql_param_2})"#
                )
            );
            assert_eq!(params, vec![text("MIKE123"), text("RICK123")]);
        }

        // Test list integer filters
        for (input_symbol, output_symbol) in [("in", "IN"), ("not in", "NOT IN")] {
            let select = Select::from("penguin")
                .limit(&0)
                .filters(&vec![format!("sample_number {input_symbol} (1, 2)")])
                .unwrap();
            let (sql, params) = select.to_sql(&kind).unwrap();
            assert_eq!(
                sql,
                format!(
                    r#"SELECT *
FROM "penguin"
WHERE "sample_number" {output_symbol} ({sql_param_1}, {sql_param_2})
ORDER BY "penguin"._order ASC"#
                )
            );
            assert_eq!(params, vec![num(1), num(2)]);

            let (sql, params) = select.to_sql_count(&kind).unwrap();
            assert_eq!(
                sql,
                format!(
                    r#"SELECT COUNT(1) AS "count"
FROM "penguin"
WHERE "sample_number" {output_symbol} ({sql_param_1}, {sql_param_2})"#
                )
            );
            assert_eq!(params, vec![num(1), num(2)]);
        }
    }


#[test]
fn test_tablesets() {
    let kind = DbKind::SQLite;
    let tables: Vec<Table> = ["A", "B", "C", "B2C", "D"]
        .iter()
        .map(|name| {
            let mut t = Table::default();
            t.name = name.to_string();
            t
        })
        .collect();
    let sql_param = SqlParam::new(&kind).next();
    let base = "http://example.com/combined";
    let empty: Vec<JsonValue> = vec![];

    // The tableset "combined" joins five tables:
    //   / B \
    // A       B2C - D
    //   \ C /
    // Each case below gives the rows that the tableset's query finds for the tables involved.

    // Just query for the B table.
    let url = "http://example.com/combined/B";
    let query_params = query(&[]);
    let inner = Select::from_path_and_query("B", &query_params, &tables);
    assert!(inner.tableset_sql("combined", &kind).is_none());
    let select = inner.clone();
    assert_eq!(url, select.to_url(&base, &Format::Default).unwrap());
    let (sql, params) = select.to_sql(&kind).unwrap();
    assert_eq!(
        sql,
        r#"SELECT *
FROM "B"
ORDER BY "B"._order ASC
LIMIT 100"#
    );
    assert_eq!(params, empty);
    let (sql, params) = select.to_sql_count(&kind).unwrap();
    assert_eq!(
        sql,
        r#"SELECT COUNT(1) AS "count"
FROM "B""#
    );
    assert_eq!(params, empty);

    // Filter the B table by one of its own columns.
    let url = "http://example.com/combined/B?B.b=eq.i";
    let query_params = query(&[("B.b", "eq.i")]);
    let inner = Select::from_path_and_query("B", &query_params, &tables);
    assert!(inner.tableset_sql("combined", &kind).is_none());
    let select = inner.clone();
    assert_eq!(url, select.to_url(&base, &Format::Default).unwrap());
    let (sql, params) = select.to_sql(&kind).unwrap();
    assert_eq!(
        sql,
        r#"SELECT *
FROM "B"
WHERE "B"."b" = ?
ORDER BY "B"._order ASC
LIMIT 100"#
    );
    assert_eq!(params, vec![text("i")]);
    let (sql, params) = select.to_sql_count(&kind).unwrap();
    assert_eq!(
        sql,
        r#"SELECT COUNT(1) AS "count"
FROM "B"
WHERE "B"."b" = ?"#
    );
    assert_eq!(params, vec![text("i")]);

    // Filter the A table by one of the columns from B.
    let url = "http://example.com/combined/A?B.b=eq.i";
    let query_params = query(&[("B.b", "eq.i")]);
    let inner = Select::from_path_and_query("A", &query_params, &tables);
    let (_, tableset_params) = inner.tableset_sql("combined", &kind).unwrap();
    assert_eq!(tableset_params, vec![text("A"), text("B"), text("A"), text("B"), text("A"), text("B")]);
    let select = inner.joined_select(&vec![row("A", "a", "B", "a")]).unwrap();
    assert_eq!(url, inner.to_url(&base, &Format::Default).unwrap());
    let (sql, params) = select.to_sql(&kind).unwrap();
    assert_eq!(
        sql,
        format!(
            r#"SELECT *
FROM "A"
WHERE "_id" IN (
  SELECT
    "A"."_id"
  FROM "A"
  LEFT JOIN "B" ON "A"."a" = "B"."a"
  WHERE "B"."b" = {sql_param}
)
ORDER BY "A"._order ASC
LIMIT 100"#
        )
    );
    assert_eq!(params, vec![text("i")]);
    let (sql, params) = select.to_sql_count(&kind).unwrap();
    assert_eq!(
        sql,
        format!(
            r#"SELECT COUNT(1) AS "count"
FROM "A"
WHERE "_id" IN (
  SELECT
    "A"."_id"
  FROM "A"
  LEFT JOIN "B" ON "A"."a" = "B"."a"
  WHERE "B"."b" = {sql_param}
)"#
        )
    );
    assert_eq!(params, vec![text("i")]);

    // Filter the B2C table by one of the columns from B.
    let url = "http://example.com/combined/B2C?B.b=eq.i";
    let query_params = query(&[("B.b", "eq.i")]);
    let inner = Select::from_path_and_query("B2C", &query_params, &tables);
    let select = inner
        .joined_select(&vec![row("B", "b", "B2C", "b"), row("C", "c", "B2C", "c")])
        .unwrap();
    assert_eq!(url, inner.to_url(&base, &Format::Default).unwrap());
    let (sql, params) = select.to_sql(&kind).unwrap();
    assert_eq!(
        sql,
        format!(
            r#"SELECT *
FROM "B2C"
WHERE "_id" IN (
  SELECT
    "B2C"."_id"
  FROM "B"
  LEFT JOIN "B2C" ON "B"."b" = "B2C"."b"
  WHERE "B"."b" = {sql_param}
)
ORDER BY "B2C"._order ASC
LIMIT 100"#
        )
    );
    assert_eq!(params, vec![text("i")]);
    let (sql, params) = select.to_sql_count(&kind).unwrap();
    assert_eq!(
        sql,
        format!(
            r#"SELECT COUNT(1) AS "count"
FROM "B2C"
WHERE "_id" IN (
  SELECT
    "B2C"."_id"
  FROM "B"
  LEFT JOIN "B2C" ON "B"."b" = "B2C"."b"
  WHERE "B"."b" = {sql_param}
)"#
        )
    );
    assert_eq!(params, vec![text("i")]);

    // Filter the D table by one of the columns from B.
    let url = "http://example.com/combined/D?B.b=eq.i";
    let query_params = query(&[("B.b", "eq.i")]);
    let inner = Select::from_path_and_query("D", &query_params, &tables);
    let select = inner.joined_select(&vec![row("B", "b", "D", "b")]).unwrap();
    assert_eq!(url, inner.to_url(&base, &Format::Default).unwrap());
    let (sql, params) = select.to_sql(&kind).unwrap();
    assert_eq!(
        sql,
        format!(
            r#"SELECT *
FROM "D"
WHERE "_id" IN (
  SELECT
    "D"."_id"
  FROM "B"
  LEFT JOIN "D" ON "B"."b" = "D"."b"
  WHERE "B"."b" = {sql_param}
)
ORDER BY "D"._order ASC
LIMIT 100"#
        )
    );
    assert_eq!(params, vec![text("i")]);
    let (sql, params) = select.to_sql_count(&kind).unwrap();
    assert_eq!(
        sql,
        format!(
            r#"SELECT COUNT(1) AS "count"
FROM "D"
WHERE "_id" IN (
  SELECT
    "D"."_id"
  FROM "B"
  LEFT JOIN "D" ON "B"."b" = "D"."b"
  WHERE "B"."b" = {sql_param}
)"#
        )
    );
    assert_eq!(params, vec![text("i")]);

    // Filter the C table by one of the columns from B: the tableset's query finds no rows,
    // which is an error.
    let query_params = query(&[("B.b", "eq.i")]);
    let inner = Select::from_path_and_query("C", &query_params, &tables);
    let select = inner.joined_select(&vec![]);
    assert_eq!(select.is_err(), true);
}

#[test]
fn select_params_match_placeholders() {
    let mut select = Select::from("penguin");
    select.eq("island", &text("Dream")).unwrap();
    let select = select.is_in("species", &JsonValue::Array(vec![text("a"), text("b")])).unwrap();
    let (sql, params) = select.to_sql(&DbKind::PostgreSQL).unwrap();
    assert_eq!(params, vec![text("Dream"), text("a"), text("b")]);
    assert!(sql.contains("$1") && sql.contains("$2") && sql.contains("$3"));
    assert!(!sql.contains("$4"));
}

#[test]
fn select_float_and_quoted_filters() {
    let kind = DbKind::SQLite;
    let tables = penguin_tables();
    let select = Select::from_path_and_query("penguin", &query(&[("bill_length", "gt.1.5")]), &tables);
    let (_, params) = select.to_sql(&kind).unwrap();
    assert_eq!(params, vec![JsonValue::Number(JsonNumber::Float("1.5".to_string()))]);
    let select = Select::from("penguin")
        .is_in("study_name", &JsonValue::Array(vec![text("'MIKE 123'"), text("RICK123")]))
        .unwrap();
    let (_, params) = select.to_sql(&kind).unwrap();
    assert_eq!(params, vec![text("MIKE 123"), text("RICK123")]);
}

#[test]
fn invalid_filter_messages() {
    let err = Select::from("penguin")
        .filters(&vec!["island = Dream".to_string(), "study_name".to_string(), "a == b".to_string()])
        .unwrap_err();
    assert_eq!(err, rltbl::error::RelatableError::ConfigError("invalid filter study_name".to_string()));
}
