use rltbl::web::{cell_options_sql, menu_row_sql, previous_row_sql};
use rltbl::change::{Change, ChangeAction, ChangeSet};
use rltbl::cli::{history_lines, value_from_text, HistoryEntry, ValidationLevel};
use rltbl::git::{lines, parse_status};
use rltbl::json::{JsonNumber, JsonValue};
use rltbl::result_set::{cell_conversion, column_format, format_cell_text, CellConversion, Range};
use rltbl::user::{Account, Cursor, UserCursor, UserTable};

#[test]
fn change_actions_round_trip() {
    for action in [ChangeAction::Do, ChangeAction::Undo, ChangeAction::Redo] {
        assert_eq!(ChangeAction::from_str(&action.to_string()).unwrap(), action);
    }
    assert_eq!(ChangeAction::from_str("UNDO").unwrap(), ChangeAction::Undo);
    let err = ChangeAction::from_str("again").unwrap_err();
    assert_eq!(err.message(), "Unrecognized action: again");
}

#[test]
fn validation_levels_round_trip() {
    for level in [ValidationLevel::Off, ValidationLevel::SqlType, ValidationLevel::Full] {
        assert_eq!(ValidationLevel::from_str(&level.to_string()).unwrap(), level);
    }
    assert_eq!(ValidationLevel::from_str("none").unwrap(), ValidationLevel::Off);
    assert!(ValidationLevel::from_str("some").is_err());
}

#[test]
fn change_descriptions() {
    let update = Change::Update {
        row: 3,
        column: "island".to_string(),
        before: JsonValue::String("Dream".to_string()),
        after: JsonValue::Number(JsonNumber::PosInt(7)),
    };
    assert_eq!(update.to_string(), "Update 'island' in row 3 from Dream to 7");
    assert_eq!(Change::Add { row: 4, after: 2 }.to_string(), "Add row 4 after row 2");
    assert_eq!(
        Change::Move { row: 4, from_after: 2, to_after: 9 }.to_string(),
        "Move row 4 from after row 2 to after row 9"
    );
    assert_eq!(Change::Delete { row: 5, after: 1 }.to_string(), "Delete row 5");
}

#[test]
fn change_set_cursor() {
    let mut set = ChangeSet {
        action: ChangeAction::Do,
        table: "penguin".to_string(),
        user: "alice".to_string(),
        description: "Set one value".to_string(),
        changes: vec![Change::Update {
            row: 9,
            column: "sample_number".to_string(),
            before: JsonValue::Null,
            after: JsonValue::Null,
        }],
    };
    assert_eq!(
        set.to_cursor().unwrap(),
        Cursor { table: "penguin".to_string(), row: 9, column: "sample_number".to_string() }
    );
    set.changes = vec![Change::Delete { row: 2, after: 1 }];
    assert_eq!(set.to_cursor().unwrap(), Cursor { table: "penguin".to_string(), row: 2, column: "".to_string() });
    set.changes = vec![];
    assert_eq!(set.to_cursor().unwrap_err().message(), "No changes in set");
}

#[test]
fn test_user() {
    let user = UserCursor::new("john");
    assert_eq!(user.name, "john");
    assert_eq!(user.color.len(), 7);
    assert!(user.color.starts_with('#'));
    assert!(user.color[1..].chars().all(|c| c.is_ascii_hexdigit() && !c.is_ascii_uppercase()));
    assert_eq!(user.cursor, Cursor::default());
    assert_eq!(user.datetime, "");
    let account: Account = user.clone().into();
    assert_eq!(account.name, "john");
    assert_eq!(account.color, user.color);
}

#[test]
fn default_cursor() {
    let cursor = Cursor::default();
    assert_eq!(cursor.table, "table");
    assert_eq!(cursor.row, 1);
    assert_eq!(cursor.column, "table");
}

#[test]
fn history_around_the_user() {
    let entry = |id: u64, action: &str, content: &str| HistoryEntry {
        change_id: id,
        action: action.to_string(),
        content: content.to_string(),
    };
    let undoable = vec![entry(5, "do", "Add row 4 after row 2"), entry(4, "do", "Delete row 5")];
    let redoable = vec![entry(6, "undo", "Delete row 7"), entry(7, "undo", "Delete row 8")];
    let lines = history_lines(&undoable, &redoable, 5);
    assert_eq!(
        lines,
        vec![
            ("  Delete row 8 (action #7, undo)".to_string(), false),
            ("▲ Delete row 7 (action #6, undo)".to_string(), false),
            ("▼ Add row 4 after row 2 (action #5, do)".to_string(), true),
            ("  Delete row 5 (action #4, do)".to_string(), false),
        ]
    );
    let lines = history_lines(&undoable, &redoable, 0);
    assert_eq!(lines.len(), 4);
    let lines = history_lines(&undoable, &redoable, 1);
    assert_eq!(lines.len(), 4);
    let lines = history_lines(&undoable, &redoable, 2);
    assert_eq!(lines.len(), 4);
}

#[test]
fn values_from_command_line_text() {
    assert_eq!(value_from_text("12"), JsonValue::Number(JsonNumber::PosInt(12)));
    assert_eq!(value_from_text("FAKE123"), JsonValue::String("FAKE123".to_string()));
    assert_eq!(value_from_text("\"x\""), JsonValue::String("x".to_string()));
}

#[test]
fn git_status_lines() {
    assert_eq!(lines("a\r\nb\n\nc"), vec!["a".to_string(), "b".to_string(), "".to_string(), "c".to_string()]);
    assert_eq!(lines("a\rb\n"), vec!["a\rb".to_string()]);
    assert!(lines("").is_empty());
}

#[test]
fn git_status_parsing() {
    let status = parse_status("## main...origin/main [ahead 2, behind 1]\n?? new.txt\n").unwrap();
    assert_eq!(status.local, "main");
    assert_eq!(status.remote, Some("origin/main".to_string()));
    assert_eq!(status.ahead, 2);
    assert_eq!(status.behind, 1);
    assert!(!status.uncommitted);
    let status = parse_status("## master\n M penguin.tsv\n").unwrap();
    assert_eq!(status.local, "master");
    assert_eq!(status.remote, None);
    assert_eq!(status.ahead, 0);
    assert_eq!(status.behind, 0);
    assert!(status.uncommitted);
    assert!(parse_status("").is_err());
    assert!(parse_status("nothing here").is_err());
    assert!(matches!(parse_status("nothing here"), Err(rltbl::error::RelatableError::ExternalProcessError(_))));
    assert_eq!(
        parse_status("## main...origin/main [ahead 99999999999999999999999]\n").unwrap_err(),
        rltbl::error::RelatableError::ParseError("number too large to fit in target type".to_string())
    );
}

#[test]
fn range_text() {
    let range = Range { count: 1, total: 10, start: 10, end: 10 };
    assert_eq!(range.to_string(), "Rows 10-10 of 10");
}

#[test]
fn cell_conversions() {
    assert_eq!(cell_conversion("%d", "12"), CellConversion::Signed);
    assert_eq!(cell_conversion("%5X", "12"), CellConversion::Unsigned);
    assert_eq!(cell_conversion("%.1f", "1.5"), CellConversion::Float);
    assert_eq!(cell_conversion("%s", "x"), CellConversion::Text);
    assert_eq!(cell_conversion("bad", "x"), CellConversion::Text);
    assert_eq!(cell_conversion("%q", "x"), CellConversion::Keep);
    assert_eq!(cell_conversion("%d", ""), CellConversion::Keep);
    let datatypes = vec![
        rltbl::datatype::DatatypeBuilder::new("integer").format("%d").build().unwrap(),
        rltbl::datatype::DatatypeBuilder::new("text").build().unwrap(),
    ];
    assert_eq!(column_format("integer", &datatypes), "%d");
    assert_eq!(column_format("text", &datatypes), "%s");
    assert_eq!(column_format("other", &datatypes), "%s");
}

#[test]
fn cell_formats() {
    assert_eq!(format_cell_text("%05d", "42"), Some("42".to_string()));
    assert_eq!(format_cell_text("%d", "-5"), Some("-5".to_string()));
    assert_eq!(format_cell_text("%x", "255"), Some("ff".to_string()));
    assert_eq!(format_cell_text("%x", "-1"), Some("-1".to_string()));
    assert_eq!(format_cell_text("%5s", "ab"), Some("   ab".to_string()));
    assert_eq!(format_cell_text("%d", "abc"), Some("abc".to_string()));
    assert_eq!(format_cell_text("%d", ""), Some("".to_string()));
    assert_eq!(format_cell_text("%q", "x"), Some("x".to_string()));
    assert_eq!(format_cell_text("%.1f", "1.5"), None);
    assert_eq!(format_cell_text("%5d", "42"), None);
    assert_eq!(format_cell_text("%12345678901s", "x"), None);
    assert_eq!(format_cell_text("%123456789q", "x"), Some("x".to_string()));
    assert!(rltbl::result_set::has_short_numbers("%123456789s"));
    assert!(!rltbl::result_set::has_short_numbers("%1234567890s"));
}

#[test]
fn web_statements() {
    assert_eq!(menu_row_sql("penguin_text_view"), "SELECT * FROM \"penguin_text_view\" WHERE _id = ?");
    assert_eq!(
        cell_options_sql("penguin", "island", Some("Bis")),
        "SELECT DISTINCT \"island\" AS 'value' FROM \"penguin\"\n           WHERE \"island\" LIKE '%Bis%' AND \"island\" != ''\n           LIMIT 20"
    );
    assert!(cell_options_sql("penguin", "island", None).contains("LIKE '%%'"));
    assert_eq!(
        previous_row_sql("penguin"),
        "SELECT _id, MAX(_order) FROM \"penguin\"\n        WHERE _order < (SELECT _order FROM \"penguin\" WHERE _id = ?)"
    );
}

#[test]
fn user_table_statements() {
    let table = UserTable::connect();
    assert_eq!(table.table_name(), "user");
    let cursor = Cursor { table: "penguin".to_string(), row: 3, column: "island".to_string() };
    assert_eq!(
        UserTable::update_cursor_params("alice", &cursor),
        vec!["{\"column\":\"island\",\"row\":3,\"table\":\"penguin\"}".to_string(), "alice".to_string()]
    );
    let (user, added) = UserTable::found_or_new(vec![], "bob");
    assert!(added);
    assert_eq!(user.name, "bob");
    assert_eq!(user.cursor, Cursor::default());
    let existing = UserCursor { name: "carol".to_string(), color: "#000000".to_string(), cursor: cursor.clone(), datetime: "now".to_string() };
    let (user, added) = UserTable::found_or_new(vec![existing.clone()], "carol");
    assert!(!added);
    assert_eq!(user, existing);
}

#[test]
fn table_names_of_files() {
    assert_eq!(rltbl::cli::table_name_of_stem("my-table (2)").unwrap(), "my_table_2");
    assert_eq!(rltbl::cli::table_name_of_stem("__penguin__").unwrap(), "penguin");
    assert_eq!(rltbl::cli::table_name_of_stem("égg").unwrap(), "gg");
    assert_eq!(rltbl::cli::table_name_of_stem("").unwrap(), "");
}
