use indexmap::IndexMap;
use rltbl::column::{ColumnBuilder, Columns};
use rltbl::datatype::Datatypes;
use rltbl::json::JsonValue;
use rltbl::schema::Schema;
use rltbl::table::Table;

fn table(name: &str) -> Table {
    let mut t = Table::default();
    t.name = name.to_string();
    t
}

fn schema() -> Schema {
    let mut tables = IndexMap::new();
    for name in ["penguin", "egg", "island"] {
        tables.insert(name.to_string(), table(name));
    }
    let columns = Columns::new(vec![
        ColumnBuilder::new("penguin", "island").structure("from(island.name)").build().unwrap(),
        ColumnBuilder::new("penguin", "note").nulltype("empty").build().unwrap(),
        ColumnBuilder::new("egg", "penguin").structure("from(penguin.individual_id)").build().unwrap(),
        ColumnBuilder::new("egg", "mother").structure("from(penguin.individual_id)").build().unwrap(),
        ColumnBuilder::new("island", "name").build().unwrap(),
    ]);
    Schema { tables, columns, datatypes: Datatypes::builtins() }
}

#[test]
fn tables_and_columns() {
    let s = schema();
    assert_eq!(s.table("egg").unwrap().name, "egg");
    assert_eq!(s.table("bird").unwrap_err().message(), "No such table bird");
    assert_eq!(s.column("penguin", "note").unwrap().nulltype, "empty");
    assert!(s.column("penguin", "name").is_none());
    let names: Vec<&str> = s.columns("penguin").iter().map(|c| c.column.as_str()).collect();
    assert_eq!(names, vec!["island", "note"]);
}

#[test]
fn nulltypes() {
    let s = schema();
    let empty = JsonValue::String(String::new());
    assert_eq!(s.nullify_value("penguin", "note", &empty), JsonValue::Null);
    assert_eq!(s.nullify_value("penguin", "island", &empty), empty);
    let row = vec![
        ("note".to_string(), empty.clone()),
        ("island".to_string(), empty.clone()),
        ("note".to_string(), JsonValue::String("x".to_string())),
    ];
    assert_eq!(
        s.nullify_row("penguin", &row),
        vec![("note".to_string(), JsonValue::String("x".to_string())), ("island".to_string(), empty)]
    );
}

#[test]
fn table_dependencies() {
    let s = schema();
    assert_eq!(s.table_depends_on("egg"), vec!["penguin".to_string()]);
    assert_eq!(s.table_depends_on("penguin"), vec!["island".to_string()]);
    assert!(s.table_depends_on("island").is_empty());
    let dependents: Vec<&str> = s.dependent_tables("penguin").iter().map(|t| t.name.as_str()).collect();
    assert_eq!(dependents, vec!["egg"]);
    let dependents: Vec<&str> = s.dependent_tables("island").iter().map(|t| t.name.as_str()).collect();
    assert_eq!(dependents, vec!["penguin", "egg"]);
}

#[test]
fn recursive_dependents() {
    let mut tables = IndexMap::new();
    for name in ["A", "B", "C"] {
        tables.insert(name.to_string(), table(name));
    }
    let columns = Columns::new(vec![
        ColumnBuilder::new("B", "b").structure("from(A.x)").build().unwrap(),
        ColumnBuilder::new("C", "c").structure("from(B.y)").build().unwrap(),
    ]);
    let s = Schema { tables, columns, datatypes: Datatypes::builtins() };
    let names: Vec<&str> = s.dependent_tables("A").iter().map(|t| t.name.as_str()).collect();
    assert_eq!(names, vec!["B", "C"]);
    let names: Vec<&str> = s.dependent_tables("B").iter().map(|t| t.name.as_str()).collect();
    assert_eq!(names, vec!["C"]);
    assert!(s.dependent_tables("C").is_empty());
}
