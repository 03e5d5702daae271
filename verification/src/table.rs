//! Tables: their names, views and column configuration.
use vstd::prelude::*;

use crate::column::{Column, ColumnView, empty_column_view};
use crate::maps::{insert_entry, lookup};
use crate::sql::{placeholder, DbKind, SqlParam};
use crate::text::{owned, str_eq};

verus! {

broadcast use vstd::std_specs::vec::group_vec_axioms;

/// The entries of a map from column names to columns.
pub uninterp spec fn column_entries(m: indexmap::IndexMap<String, Column>) -> Seq<(Seq<char>, ColumnView)>;

/// `IndexMap::new`: an empty map.
#[verifier::external_body]
fn column_map_new() -> (r: indexmap::IndexMap<String, Column>)
    ensures
        column_entries(r) == Seq::<(Seq<char>, ColumnView)>::empty(),
{
    indexmap::IndexMap::new()
}

/// `IndexMap::insert`: an existing key keeps its place and takes the new value;
/// a new key goes last.
#[verifier::external_body]
fn column_map_insert(m: &mut indexmap::IndexMap<String, Column>, key: String, value: Column)
    ensures
        column_entries(*final(m)) == insert_entry(column_entries(*old(m)), key@, value@),
{
    m.insert(key, value);
}

/// `IndexMap::get`: the value stored under the key.
#[verifier::external_body]
fn column_map_get<'a>(m: &'a indexmap::IndexMap<String, Column>, key: &str) -> (r: Option<&'a Column>)
    ensures
        match r {
            Some(c) => lookup(column_entries(*m), key@) == Some(c@),
            None => lookup(column_entries(*m), key@) is None,
        },
{
    m.get(key)
}

/// A table.
#[derive(Debug)]
pub struct Table {
    /// The name of the table
    pub name: String,
    /// The name of the view (blank if there is none) to be used when querying the table
    pub view: String,
    /// The id of the most recent change to this table
    pub change_id: u64,
    /// The table's column configuration, by column name
    pub columns: indexmap::IndexMap<String, Column>,
    pub editable: bool,
    /// Whether the table has the `_id` and `_order` meta columns
    pub has_meta: bool,
}

/// The model of a table.
pub struct TableView {
    pub name: Seq<char>,
    pub view: Seq<char>,
    pub change_id: u64,
    pub columns: Seq<(Seq<char>, ColumnView)>,
    pub editable: bool,
    pub has_meta: bool,
}

impl View for Table {
    type V = TableView;

    open spec fn view(&self) -> TableView {
        TableView {
            name: self.name@,
            view: self.view@,
            change_id: self.change_id,
            columns: column_entries(self.columns),
            editable: self.editable,
            has_meta: self.has_meta,
        }
    }
}

/// The configured attribute of a column, by the name of the field of [Column].
pub open spec fn column_attribute(c: ColumnView, attribute: Seq<char>) -> Option<Seq<char>> {
    if attribute == "table"@ {
        Some(c.table)
    } else if attribute == "column"@ {
        Some(c.column)
    } else if attribute == "label"@ {
        Some(c.label)
    } else if attribute == "description"@ {
        Some(c.description)
    } else if attribute == "sql_type"@ {
        Some(c.sql_type)
    } else if attribute == "nulltype"@ {
        Some(c.nulltype)
    } else if attribute == "datatype"@ {
        Some(c.datatype)
    } else {
        None
    }
}

/// The columns `_id` and `_order` of a table, or `rowid` in place of a missing one;
/// the special tables use their own identifiers.
pub open spec fn id_order_columns(name: Seq<char>, meta: Seq<ColumnView>) -> (Seq<char>, Seq<char>) {
    if name == "message"@ {
        ("message_id"@, "message_id"@)
    } else if name == "change"@ {
        ("change_id"@, "change_id"@)
    } else if name == "history"@ {
        ("history_id"@, "history_id"@)
    } else {
        (
            if exists|i: int| 0 <= i < meta.len() && #[trigger] meta[i].column == "_id"@ { "_id"@ } else { "rowid"@ },
            if exists|i: int| 0 <= i < meta.len() && #[trigger] meta[i].column == "_order"@ { "_order"@ } else { "rowid"@ },
        )
    }
}

fn has_column(columns: &Vec<Column>, name: &str) -> (r: bool)
    ensures
        r == exists|i: int| 0 <= i < columns@.len() && #[trigger] columns@[i]@.column == name@,
{
    let mut i: usize = 0;
    while i < columns.len()
        invariant
            i <= columns.len(),
            forall|j: int| 0 <= j < i ==> #[trigger] columns@[j]@.column != name@,
        decreases columns.len() - i,
    {
        if str_eq(columns[i].column.as_str(), name) {
            assert(columns@[i as int]@.column == name@);
            return true;
        }
        i = i + 1;
    }
    false
}

impl Table {
    /// An editable table with meta columns and nothing else.
    pub fn default() -> (r: Self)
        ensures
            r@ == (TableView {
                name: Seq::empty(),
                view: Seq::empty(),
                change_id: 0,
                columns: Seq::empty(),
                editable: true,
                has_meta: true,
            }),
    {
        Table {
            name: String::new(),
            view: String::new(),
            change_id: 0,
            columns: column_map_new(),
            editable: true,
            has_meta: true,
        }
    }

    /// Add the configuration of a column, under its name.
    pub fn add_column(&mut self, column: Column)
        ensures
            final(self)@ == (TableView { columns: insert_entry(old(self)@.columns, column@.column, column@), ..old(self)@ }),
    {
        let name = column.column.clone();
        column_map_insert(&mut self.columns, name, column);
    }

    /// The configuration of the given column, if there is one.
    pub fn column_config(&self, column: &str) -> (r: Option<&Column>)
        ensures
            match r {
                Some(c) => lookup(self@.columns, column@) == Some(c@),
                None => lookup(self@.columns, column@) is None,
            },
    {
        column_map_get(&self.columns, column)
    }

    /// The configuration of the given column, or an empty column when there is none.
    pub fn get_config_for_column(&self, column: &str) -> (r: Column)
        ensures
            r@ == match lookup(self@.columns, column@) {
                Some(c) => c,
                None => empty_column_view(),
            },
    {
        match column_map_get(&self.columns, column) {
            Some(c) => c.clone(),
            None => Column::default(),
        }
    }

    /// A configured attribute of a column (`datatype`, `label`, ...), when the column is
    /// configured and the attribute is a text field of [Column].
    pub fn get_configured_column_attribute(&self, column: &str, attribute: &str) -> (r: Option<String>)
        ensures
            match r {
                Some(v) => lookup(self@.columns, column@) is Some
                    && column_attribute(lookup(self@.columns, column@)->0, attribute@) == Some(v@),
                None => lookup(self@.columns, column@) is None
                    || column_attribute(lookup(self@.columns, column@)->0, attribute@) is None,
            },
    {
        match column_map_get(&self.columns, column) {
            None => None,
            Some(c) => {
                if str_eq(attribute, "table") {
                    Some(c.table.clone())
                } else if str_eq(attribute, "column") {
                    Some(c.column.clone())
                } else if str_eq(attribute, "label") {
                    Some(c.label.clone())
                } else if str_eq(attribute, "description") {
                    Some(c.description.clone())
                } else if str_eq(attribute, "sql_type") {
                    Some(c.sql_type.clone())
                } else if str_eq(attribute, "nulltype") {
                    Some(c.nulltype.clone())
                } else if str_eq(attribute, "datatype") {
                    Some(c.datatype.clone())
                } else {
                    None
                }
            },
        }
    }

    /// The identifier and order columns of the table, given its meta columns.
    pub fn get_id_order_columns(&self, meta_columns: &Vec<Column>) -> (r: (String, String))
        ensures
            (r.0@, r.1@) == id_order_columns(self@.name, meta_columns@.map_values(|c: Column| c@)),
    {
        let ghost meta = meta_columns@.map_values(|c: Column| c@);
        if str_eq(self.name.as_str(), "message") {
            (owned("message_id"), owned("message_id"))
        } else if str_eq(self.name.as_str(), "change") {
            (owned("change_id"), owned("change_id"))
        } else if str_eq(self.name.as_str(), "history") {
            (owned("history_id"), owned("history_id"))
        } else {
            let has_id = has_column(meta_columns, "_id");
            let has_order = has_column(meta_columns, "_order");
            assert(has_id == exists|i: int| 0 <= i < meta.len() && #[trigger] meta[i].column == "_id"@) by {
                if has_id {
                    let i = choose|i: int| 0 <= i < meta_columns@.len() && #[trigger] meta_columns@[i]@.column == "_id"@;
                    assert(meta[i].column == "_id"@);
                }
            }
            assert(has_order == exists|i: int| 0 <= i < meta.len() && #[trigger] meta[i].column == "_order"@) by {
                if has_order {
                    let i = choose|i: int| 0 <= i < meta_columns@.len() && #[trigger] meta_columns@[i]@.column == "_order"@;
                    assert(meta[i].column == "_order"@);
                }
            }
            (
                if has_id { owned("_id") } else { owned("rowid") },
                if has_order { owned("_order") } else { owned("rowid") },
            )
        }
    }
}


/// A piece of the statement that reads a table's columns from the database's catalog.
pub const TABLE_INFO_SQL_0: &'static str = "SELECT \"name\", \"type\" AS \"datatype\", \"pk\"\n                       FROM pragma_table_info(";
/// A piece of the statement that reads a table's columns from the database's catalog.
pub const TABLE_INFO_SQL_1: &'static str = ") ORDER BY \"cid\"";
/// A piece of the statement that reads a table's columns from the database's catalog.
pub const INDEX_LIST_SQL_0: &'static str = "SELECT \"name\", \"unique\"\n                               FROM PRAGMA_INDEX_LIST(";
/// A piece of the statement that reads a table's columns from the database's catalog.
pub const INDEX_LIST_SQL_1: &'static str = ")";
/// A piece of the statement that reads a table's columns from the database's catalog.
pub const INDEX_INFO_SQL_0: &'static str = "SELECT \"name\" FROM PRAGMA_INDEX_INFO(";
/// A piece of the statement that reads a table's columns from the database's catalog.
pub const INDEX_INFO_SQL_1: &'static str = ")";
/// A piece of the statement that reads a table's columns from the database's catalog.
pub const PG_COLUMNS_SQL_0: &'static str = "WITH \"constraints\" as (\n                         SELECT\n                           \"kcu\".\"table_name\"::TEXT,\n                           \"kcu\".\"column_name\"::TEXT,\n                           \"tco\".\"constraint_type\"::TEXT\n                         FROM \"information_schema\".\"table_constraints\" \"tco\"\n                         JOIN \"information_schema\".\"key_column_usage\" \"kcu\"\n                           ON \"kcu\".\"constraint_name\" = \"tco\".\"constraint_name\"\n                          AND \"kcu\".\"constraint_schema\" = \"tco\".\"constraint_schema\"\n                          AND \"kcu\".\"table_name\" = ";
/// A piece of the statement that reads a table's columns from the database's catalog.
pub const PG_COLUMNS_SQL_1: &'static str = "\n                        WHERE \"kcu\".\"table_schema\" IN (\n                          SELECT REGEXP_SPLIT_TO_TABLE(\"setting\", ', ')\n                          FROM \"pg_settings\"\n                          WHERE \"name\" = 'search_path'\n                        )\n                       )\n                       SELECT\n                         \"columns\".\"column_name\"::TEXT AS \"name\",\n                         \"columns\".\"data_type\"::TEXT AS \"datatype\",\n                         \"constraints\".\"constraint_type\"::TEXT AS \"constraint\"\n                       FROM \"information_schema\".\"columns\" \"columns\"\n                         LEFT JOIN \"constraints\"\n                           ON \"columns\".\"table_name\" = \"constraints\".\"table_name\"\n                           AND \"columns\".\"column_name\" = \"constraints\".\"column_name\"\n                       WHERE \"columns\".\"table_schema\" IN (\n                          SELECT REGEXP_SPLIT_TO_TABLE(\"setting\", ', ')\n                          FROM \"pg_settings\"\n                          WHERE \"name\" = 'search_path'\n                        )\n                       AND \"columns\".\"table_name\" = ";
/// A piece of the statement that reads a table's columns from the database's catalog.
pub const PG_COLUMNS_SQL_2: &'static str = "\n                       ORDER BY \"columns\".\"ordinal_position\"";

/// The statement that reads the name, type and primary-key position of each column of a
/// table from the database's catalog, the table's name being its parameter (twice for
/// PostgreSQL, whose statement also reads each column's constraint).
pub open spec fn db_columns_sql_spec(kind: DbKind) -> Seq<char> {
    match kind {
        DbKind::SQLite => TABLE_INFO_SQL_0@ + placeholder(kind, 1) + TABLE_INFO_SQL_1@,
        DbKind::PostgreSQL => PG_COLUMNS_SQL_0@ + placeholder(kind, 1) + PG_COLUMNS_SQL_1@ + placeholder(kind, 2)
            + PG_COLUMNS_SQL_2@,
    }
}

/// A PostgreSQL column's primary-key and unique flags, as 1 or 0, for its constraint:
/// a primary key is also unique; any other constraint, or none, sets neither.
pub open spec fn constraint_flags_spec(constraint: Option<Seq<char>>) -> (u64, u64) {
    match constraint {
        Some(c) => if c == "PRIMARY KEY"@ { (1, 1) } else if c == "UNIQUE"@ { (0, 1) } else { (0, 0) },
        None => (0, 0),
    }
}

/// True when an index's column is the given column.
pub open spec fn names_column(index_column: Option<String>, column: Seq<char>) -> bool {
    match index_column {
        Some(c) => c@ == column,
        None => false,
    }
}

impl Table {
    /// The statement that reads the columns of a table from the database's catalog
    /// (see [db_columns_sql_spec]).
    pub fn db_columns_sql(kind: &DbKind) -> (r: String)
        ensures
            r@ == db_columns_sql_spec(*kind),
    {
        let mut gen = SqlParam::new(kind);
        match kind {
            DbKind::SQLite => {
                let mut s = owned(TABLE_INFO_SQL_0);
                s.append(gen.next().as_str());
                s.append(TABLE_INFO_SQL_1);
                s
            },
            DbKind::PostgreSQL => {
                let mut s = owned(PG_COLUMNS_SQL_0);
                s.append(gen.next().as_str());
                s.append(PG_COLUMNS_SQL_1);
                s.append(gen.next().as_str());
                s.append(PG_COLUMNS_SQL_2);
                s
            },
        }
    }

    /// The SQLite statement that lists the indexes of a table, the table's name being its
    /// parameter.
    pub fn index_list_sql() -> (r: String)
        ensures
            r@ == INDEX_LIST_SQL_0@ + placeholder(DbKind::SQLite, 1) + INDEX_LIST_SQL_1@,
    {
        let mut gen = SqlParam::new(&DbKind::SQLite);
        let mut s = owned(INDEX_LIST_SQL_0);
        s.append(gen.next().as_str());
        s.append(INDEX_LIST_SQL_1);
        s
    }

    /// The SQLite statement that gives the column of an index, the index's name being its
    /// parameter.
    pub fn index_info_sql() -> (r: String)
        ensures
            r@ == INDEX_INFO_SQL_0@ + placeholder(DbKind::SQLite, 1) + INDEX_INFO_SQL_1@,
    {
        let mut gen = SqlParam::new(&DbKind::SQLite);
        let mut s = owned(INDEX_INFO_SQL_0);
        s.append(gen.next().as_str());
        s.append(INDEX_INFO_SQL_1);
        s
    }

    /// Whether a SQLite column is unique: it is the primary key (its position in the key is
    /// 1), or one of the table's unique indexes is on it. `unique_index_columns` holds, for
    /// each unique index, the column that the catalog gives for it, if any.
    pub fn sqlite_column_unique(pk: u64, column: &str, unique_index_columns: &Vec<Option<String>>) -> (r: bool)
        ensures
            r == (pk == 1 || exists|i: int| 0 <= i < unique_index_columns@.len()
                && names_column(#[trigger] unique_index_columns@[i], column@)),
    {
        if pk == 1 {
            return true;
        }
        let mut i: usize = 0;
        while i < unique_index_columns.len()
            invariant
                i <= unique_index_columns.len(),
                forall|k: int| 0 <= k < i ==> !names_column(#[trigger] unique_index_columns@[k], column@),
            decreases unique_index_columns.len() - i,
        {
            match &unique_index_columns[i] {
                Some(c) => {
                    if str_eq(c.as_str(), column) {
                        return true;
                    }
                },
                None => {},
            }
            i = i + 1;
        }
        false
    }

    /// The primary-key and unique flags of a PostgreSQL column for its constraint
    /// (see [constraint_flags_spec]).
    pub fn constraint_flags(constraint: Option<&str>) -> (r: (u64, u64))
        ensures
            r == constraint_flags_spec(match constraint { Some(c) => Some(c@), None => None }),
    {
        match constraint {
            Some(c) => if str_eq(c, "PRIMARY KEY") {
                (1, 1)
            } else if str_eq(c, "UNIQUE") {
                (0, 1)
            } else {
                (0, 0)
            },
            None => (0, 0),
        }
    }
}

} // verus!

verus! {

/// A piece of the SQLite statement that tells whether a table exists.
pub const SQLITE_TABLE_EXISTS_SQL_0: &'static str = "SELECT 1 FROM \"sqlite_master\"\n                           WHERE \"type\" = ";
/// A piece of the SQLite statement that tells whether a table exists.
pub const SQLITE_TABLE_EXISTS_SQL_1: &'static str = " AND name = ";
/// A piece of the SQLite statement that tells whether a table exists.
pub const SQLITE_TABLE_EXISTS_SQL_2: &'static str = " LIMIT 1";
/// A piece of the PostgreSQL statement that tells whether a table exists.
pub const PG_TABLE_EXISTS_SQL_0: &'static str = "SELECT 1 FROM \"information_schema\".\"tables\"\n                           WHERE \"table_type\" LIKE ";
/// A piece of the PostgreSQL statement that tells whether a table exists.
pub const PG_TABLE_EXISTS_SQL_1: &'static str = "\n                             AND \"table_name\" = ";
/// A piece of the PostgreSQL statement that tells whether a table exists.
pub const PG_TABLE_EXISTS_SQL_2: &'static str = "\n                             AND \"table_schema\" IN (\n                               SELECT REGEXP_SPLIT_TO_TABLE(\"setting\", ', ')\n                               FROM \"pg_settings\"\n                               WHERE \"name\" = 'search_path'\n                             )";
/// The SQLite statement that tells whether a view exists, its name being the parameter.
pub const SQLITE_VIEW_EXISTS_SQL: &'static str = "SELECT 1\n                           FROM sqlite_master\n                           WHERE type = 'view' AND name = $1";
/// The PostgreSQL statement that tells whether a view exists, its name and its type being
/// the parameters.
pub const PG_VIEW_EXISTS_SQL: &'static str = "SELECT 1\n                           FROM \"information_schema\".\"tables\"\n                           WHERE \"table_name\" = $1\n                           AND \"table_type\" = $2\n                           AND \"table_schema\" IN (\n                               SELECT REGEXP_SPLIT_TO_TABLE(\"setting\", ', ')\n                               FROM \"pg_settings\"\n                               WHERE \"name\" = 'search_path'\n                           )";
/// The SQLite statement that reads the last identifier given in a table, its name being the
/// parameter.
pub const SQLITE_LAST_ID_SQL: &'static str = "SELECT seq FROM sqlite_sequence WHERE name = ?";

/// The statement that tells whether a table exists: the kind of object and the table's
/// name are its parameters.
pub open spec fn table_exists_sql_spec(kind: DbKind) -> Seq<char> {
    match kind {
        DbKind::SQLite => SQLITE_TABLE_EXISTS_SQL_0@ + placeholder(kind, 1) + SQLITE_TABLE_EXISTS_SQL_1@
            + placeholder(kind, 1) + SQLITE_TABLE_EXISTS_SQL_2@,
        DbKind::PostgreSQL => PG_TABLE_EXISTS_SQL_0@ + placeholder(kind, 1) + PG_TABLE_EXISTS_SQL_1@
            + placeholder(kind, 2) + PG_TABLE_EXISTS_SQL_2@,
    }
}

/// The kind of object that the statement of [table_exists_sql_spec] looks for.
pub open spec fn table_type_spec(kind: DbKind) -> Seq<char> {
    match kind {
        DbKind::SQLite => "table"@,
        DbKind::PostgreSQL => "%TABLE"@,
    }
}

/// The name under which a table's view of a type is looked for: `<table>_<type>_view`.
pub open spec fn view_exists_name(table: Seq<char>, view_type: Seq<char>) -> Seq<char> {
    table + "_"@ + view_type + "_view"@
}

/// The view that the existence check looks for is the one a table's view is set to: for
/// each type of view there is, the name [Table::view_exists_sql] binds is the name
/// [Table::view_name] gives.
pub proof fn lemma_view_exists_names_view(table: Seq<char>, view_type: Seq<char>)
    requires
        view_name_spec(table, view_type) is Some,
    ensures
        view_name_spec(table, view_type) == Some(view_exists_name(table, view_type)),
{
    reveal_strlit("text");
    reveal_strlit("default");
    reveal_strlit("_");
    reveal_strlit("_view");
    reveal_strlit("_text_view");
    reveal_strlit("_default_view");
    if view_type == "text"@ {
        assert(table + "_"@ + view_type + "_view"@ =~= table + "_text_view"@);
    } else {
        assert(table + "_"@ + view_type + "_view"@ =~= table + "_default_view"@);
    }
}

/// `SELECT <what> FROM "<table>" WHERE <condition>`, with a placeholder at the end.
pub open spec fn table_query_spec(what: Seq<char>, table: Seq<char>, condition: Seq<char>, kind: DbKind) -> Seq<char> {
    "SELECT "@ + what + " FROM \""@ + table + "\" WHERE "@ + condition + placeholder(kind, 1)
}

/// The name of a table's view of the given type: `text` and `default` are the types there
/// are.
pub open spec fn view_name_spec(table: Seq<char>, view_type: Seq<char>) -> Option<Seq<char>> {
    if view_type == "text"@ {
        Some(table + "_text_view"@)
    } else if view_type == "default"@ {
        Some(table + "_default_view"@)
    } else {
        None
    }
}

/// `SELECT <what> FROM "<table>" WHERE <condition>`, with a placeholder at the end.
fn table_query(what: &str, table: &str, condition: &str, kind: &DbKind) -> (r: String)
    ensures
        r@ == table_query_spec(what@, table@, condition@, *kind),
{
    let mut gen = SqlParam::new(kind);
    let mut s = owned("SELECT ");
    s.append(what);
    s.append(" FROM \"");
    s.append(table);
    s.append("\" WHERE ");
    s.append(condition);
    s.append(gen.next().as_str());
    s
}

impl Table {
    /// The statement that tells whether a table exists, with its parameters: the kind of
    /// object (see [table_type_spec]) and the table's name.
    pub fn table_exists_sql(table_name: &str, kind: &DbKind) -> (r: (String, Vec<crate::json::JsonValue>))
        ensures
            r.0@ == table_exists_sql_spec(*kind),
            crate::json::json_views(r.1@) == seq![crate::json::Json::Str(table_type_spec(*kind)),
                crate::json::Json::Str(table_name@)],
    {
        let mut gen = SqlParam::new(kind);
        let mut params: Vec<crate::json::JsonValue> = Vec::new();
        let sql = match kind {
            DbKind::SQLite => {
                let p = gen.next();
                let mut s = owned(SQLITE_TABLE_EXISTS_SQL_0);
                s.append(p.as_str());
                s.append(SQLITE_TABLE_EXISTS_SQL_1);
                s.append(p.as_str());
                s.append(SQLITE_TABLE_EXISTS_SQL_2);
                params.push(crate::json::json_str("table"));
                s
            },
            DbKind::PostgreSQL => {
                let mut s = owned(PG_TABLE_EXISTS_SQL_0);
                s.append(gen.next().as_str());
                s.append(PG_TABLE_EXISTS_SQL_1);
                s.append(gen.next().as_str());
                s.append(PG_TABLE_EXISTS_SQL_2);
                params.push(crate::json::json_str("%TABLE"));
                s
            },
        };
        params.push(crate::json::json_str(table_name));
        assert(crate::json::json_views(params@) =~= seq![crate::json::Json::Str(table_type_spec(*kind)),
            crate::json::Json::Str(table_name@)]);
        (sql, params)
    }

    /// The statement that tells whether a table's view of the given type exists, with its
    /// parameters: the view's name `<table>_<type>_view`, and for PostgreSQL the type of
    /// object, `VIEW`.
    pub fn view_exists_sql(table: &str, view_type: &str, kind: &DbKind) -> (r: (String, Vec<String>))
        ensures
            r.0@ == match kind {
                DbKind::SQLite => SQLITE_VIEW_EXISTS_SQL@,
                DbKind::PostgreSQL => PG_VIEW_EXISTS_SQL@,
            },
            crate::text::views(r.1@) == match kind {
                DbKind::SQLite => seq![view_exists_name(table@, view_type@)],
                DbKind::PostgreSQL => seq![view_exists_name(table@, view_type@), "VIEW"@],
            },
    {
        let mut name = owned(table);
        name.append("_");
        name.append(view_type);
        name.append("_view");
        let mut params: Vec<String> = Vec::new();
        params.push(name);
        match kind {
            DbKind::SQLite => {
                assert(crate::text::views(params@) =~= seq![table@ + "_"@ + view_type@ + "_view"@]);
                (owned(SQLITE_VIEW_EXISTS_SQL), params)
            },
            DbKind::PostgreSQL => {
                params.push(owned("VIEW"));
                assert(crate::text::views(params@) =~= seq![table@ + "_"@ + view_type@ + "_view"@, "VIEW"@]);
                (owned(PG_VIEW_EXISTS_SQL), params)
            },
        }
    }

    /// The statement that reads a row of a table, the row's identifier being its parameter.
    pub fn row_sql(table: &str, kind: &DbKind) -> (r: String)
        ensures
            r@ == table_query_spec("*"@, table@, "\"_id\" = "@, *kind),
    {
        table_query("*", table, "\"_id\" = ", kind)
    }

    /// The statement that reads the `_order` of a row of a table, the row's identifier being
    /// its parameter.
    pub fn row_order_sql(table: &str, kind: &DbKind) -> (r: String)
        ensures
            r@ == table_query_spec("\"_order\""@, table@, "\"_id\" = "@, *kind),
    {
        table_query("\"_order\"", table, "\"_id\" = ", kind)
    }

    /// The statement that reads the identifier of the row before a given `_order` in a
    /// table, that `_order` being its parameter.
    pub fn previous_row_id_sql(table: &str, kind: &DbKind) -> (r: String)
        ensures
            r@ == table_query_spec("\"_id\""@, table@, "\"_order\" < "@, *kind)
                + "\n               ORDER BY \"_order\" DESC LIMIT 1"@,
    {
        let mut s = table_query("\"_id\"", table, "\"_order\" < ", kind);
        s.append("\n               ORDER BY \"_order\" DESC LIMIT 1");
        s
    }

    /// The statement that reads the last identifier given in the table, with its parameters:
    /// SQLite reads it from its sequences by the table's name; PostgreSQL from the
    /// sequence of the table's `_id`, with no parameter.
    pub fn next_id_sql(&self, kind: &DbKind) -> (r: (String, Option<Vec<crate::json::JsonValue>>))
        ensures
            match kind {
                DbKind::SQLite => r.0@ == SQLITE_LAST_ID_SQL@ && (r.1 matches Some(p)
                    && crate::json::json_views(p@) == seq![crate::json::Json::Str(self.name@)]),
                DbKind::PostgreSQL => r.0@ == "SELECT last_value FROM \""@ + self.name@ + "__id_seq\""@
                    && r.1 is None,
            },
    {
        match kind {
            DbKind::SQLite => {
                let mut params: Vec<crate::json::JsonValue> = Vec::new();
                params.push(crate::json::json_str(self.name.as_str()));
                assert(crate::json::json_views(params@) =~= seq![crate::json::Json::Str(self.name@)]);
                (owned(SQLITE_LAST_ID_SQL), Some(params))
            },
            DbKind::PostgreSQL => {
                let mut s = owned("SELECT last_value FROM \"");
                s.append(self.name.as_str());
                s.append("__id_seq\"");
                (s, None)
            },
        }
    }

    /// The identifier that the next row of the table gets, after the last one given: one
    /// more than it where it is an unsigned integer, else 1.
    pub fn next_id(last: Option<&crate::json::JsonValue>) -> (r: u64)
        requires
            !(last matches Some(v) && v@ == crate::json::Json::Int(u64::MAX as int)),
        ensures
            r == match last {
                Some(v) => match v@ {
                    crate::json::Json::Int(n) => if n >= 0 { n + 1 } else { 1 },
                    _ => 1,
                },
                None => 1,
            },
    {
        let current: u64 = match last {
            Some(crate::json::JsonValue::Number(crate::json::JsonNumber::PosInt(n))) => *n,
            Some(crate::json::JsonValue::Number(crate::json::JsonNumber::NegInt(n))) => {
                if *n >= 0 { *n as u64 } else { 0 }
            },
            _ => 0,
        };
        current + 1
    }

    /// The name of the table's view of the given type (see [view_name_spec]); `None` for a
    /// type there is not, which leaves the table's view as it is.
    pub fn view_name(&self, view_type: &str) -> (r: Option<String>)
        ensures
            match r {
                Some(s) => view_name_spec(self.name@, view_type@) == Some(s@),
                None => view_name_spec(self.name@, view_type@) is None,
            },
    {
        if str_eq(view_type, "text") {
            Some(crate::text::cat(self.name.as_str(), "_text_view"))
        } else if str_eq(view_type, "default") {
            Some(crate::text::cat(self.name.as_str(), "_default_view"))
        } else {
            None
        }
    }
}

} // verus!

verus! {

/// A SQLite column's information (`name`, `datatype`, `pk`) with its `unique` flag set: 1 when
/// it is unique, 0 otherwise.
pub open spec fn sqlite_column_info_spec(row: Seq<(Seq<char>, crate::json::Json)>, unique: bool) -> Seq<(Seq<char>, crate::json::Json)> {
    crate::maps::insert_entry(row, "unique"@, crate::json::Json::Int(if unique { 1 } else { 0 }))
}

/// A PostgreSQL column's information: its name and datatype as read, and its `pk` and
/// `unique` flags from its constraint (see [constraint_flags_spec]).
pub open spec fn pg_column_info_spec(name: crate::json::Json, datatype: crate::json::Json, constraint: Option<Seq<char>>) -> Seq<(Seq<char>, crate::json::Json)> {
    seq![
        ("name"@, name),
        ("datatype"@, datatype),
        ("pk"@, crate::json::Json::Int(constraint_flags_spec(constraint).0 as int)),
        ("unique"@, crate::json::Json::Int(constraint_flags_spec(constraint).1 as int)),
    ]
}

impl Table {
    /// The information of a SQLite column as the catalog gives it, with its `unique` flag
    /// (see [sqlite_column_info_spec]); [Table::sqlite_column_unique] tells whether it is.
    pub fn sqlite_column_info(row: &Vec<(String, crate::json::JsonValue)>, unique: bool) -> (r: Vec<(String, crate::json::JsonValue)>)
        ensures
            crate::row::entry_views(r@) == sqlite_column_info_spec(crate::row::entry_views(row@), unique),
    {
        let ghost e = crate::row::entry_views(row@);
        let flag = crate::json::json_u64(if unique { 1 } else { 0 });
        let mut pos: usize = row.len();
        let mut i: usize = 0;
        while i < row.len()
            invariant_except_break
                pos == row.len(),
            invariant
                i <= row.len(),
                e == crate::row::entry_views(row@),
                forall|j: int| 0 <= j < i ==> e[j].0 != "unique"@,
            ensures
                (pos == row.len() && i == row.len()) || (pos == i && i < row.len() && e[i as int].0 == "unique"@),
            decreases row.len() - i,
        {
            assert(e[i as int].0 == row@[i as int].0@);
            if str_eq(row[i].0.as_str(), "unique") {
                pos = i;
                break;
            }
            i = i + 1;
        }
        proof {
            crate::maps::lemma_key_pos(e, "unique"@);
            let kp = crate::maps::key_pos(e, "unique"@);
            if pos < row.len() {
                assert(e[pos as int].0 == "unique"@);
                if kp >= 0 && kp < pos { assert(e[kp].0 != "unique"@); }
                assert(kp == pos);
            } else {
                if kp >= 0 { assert(e[kp].0 == "unique"@); }
                assert(kp == -1);
            }
        }
        let mut out: Vec<(String, crate::json::JsonValue)> = Vec::new();
        let mut k: usize = 0;
        while k < row.len()
            invariant
                k <= row.len(),
                e == crate::row::entry_views(row@),
                pos <= row.len(),
                flag@ == crate::json::Json::Int(if unique { 1 } else { 0 }),
                out@.len() == k,
                forall|j: int| 0 <= j < k ==> (#[trigger] out@[j]).0@ == (if j == pos { "unique"@ } else { e[j].0 })
                    && out@[j].1@ == (if j == pos { flag@ } else { e[j].1 }),
            decreases row.len() - k,
        {
            if k == pos {
                out.push((owned("unique"), flag.clone()));
            } else {
                out.push((row[k].0.clone(), row[k].1.clone()));
            }
            k = k + 1;
        }
        if pos == row.len() {
            out.push((owned("unique"), flag));
        }
        assert(crate::row::entry_views(out@) =~= sqlite_column_info_spec(e, unique));
        out
    }

    /// The information of a PostgreSQL column (see [pg_column_info_spec]).
    pub fn pg_column_info(name: &crate::json::JsonValue, datatype: &crate::json::JsonValue, constraint: Option<&str>) -> (r: Vec<(String, crate::json::JsonValue)>)
        ensures
            crate::row::entry_views(r@) == pg_column_info_spec(name@, datatype@,
                match constraint { Some(c) => Some(c@), None => None }),
    {
        let (pk, unique) = Table::constraint_flags(constraint);
        let r = vec![
            (owned("name"), name.clone()),
            (owned("datatype"), datatype.clone()),
            (owned("pk"), crate::json::json_u64(pk)),
            (owned("unique"), crate::json::json_u64(unique)),
        ];
        assert(crate::row::entry_views(r@) =~= pg_column_info_spec(name@, datatype@,
            match constraint { Some(c) => Some(c@), None => None }));
        r
    }
}

} // verus!
