//! The commands of the command-line interface, and what they compute before they print.
use vstd::prelude::*;

use crate::error::RelatableError;
use crate::json::{json_parse, json_parse_spec, Json, JsonValue};
use crate::text::{nat_text, owned, push_u64, str_eq, to_lowercase};

verus! {

/// How much validation a change gets.
#[derive(Clone, Copy, Debug, PartialEq, Eq, Structural)]
pub enum ValidationLevel {
    /// No validation (named `none`)
    Off,
    /// Only check values against the SQL types of their columns
    SqlType,
    /// All validation
    Full,
}

/// The name of a validation level.
pub open spec fn validation_level_text(l: ValidationLevel) -> Seq<char> {
    match l {
        ValidationLevel::Off => "none"@,
        ValidationLevel::SqlType => "sql_type"@,
        ValidationLevel::Full => "full"@,
    }
}

/// The validation level that a lower-case name names, if any.
pub open spec fn validation_level_of(lower: Seq<char>) -> Option<ValidationLevel> {
    if lower == "none"@ {
        Some(ValidationLevel::Off)
    } else if lower == "sql_type"@ {
        Some(ValidationLevel::SqlType)
    } else if lower == "full"@ {
        Some(ValidationLevel::Full)
    } else {
        None
    }
}

impl ValidationLevel {
    /// Read a validation level from its name, in any case: `none`, `sql_type` or `full`.
    /// Any other text is an input error.
    pub fn from_str(level: &str) -> (r: Result<ValidationLevel, RelatableError>)
        ensures
            match r {
                Ok(l) => validation_level_of(crate::text::lowercase_spec(level@)) == Some(l),
                Err(e) => validation_level_of(crate::text::lowercase_spec(level@)) is None && e is InputError,
            },
            crate::text::seq_is_ascii(level@) ==> match r {
                Ok(l) => validation_level_of(level@.map_values(|c: char| crate::text::ascii_lower_char(c))) == Some(l),
                Err(_) => validation_level_of(level@.map_values(|c: char| crate::text::ascii_lower_char(c))) is None,
            },
    {
        let lower = to_lowercase(level);
        if str_eq(lower.as_str(), "none") {
            Ok(ValidationLevel::Off)
        } else if str_eq(lower.as_str(), "sql_type") {
            Ok(ValidationLevel::SqlType)
        } else if str_eq(lower.as_str(), "full") {
            Ok(ValidationLevel::Full)
        } else {
            let mut m = owned("Unrecognized validation level: ");
            m.append(level);
            Err(RelatableError::InputError(m))
        }
    }

    /// The name of the validation level.
    pub fn to_string(&self) -> (r: String)
        ensures
            r@ == validation_level_text(*self),
    {
        match self {
            ValidationLevel::Off => owned("none"),
            ValidationLevel::SqlType => owned("sql_type"),
            ValidationLevel::Full => owned("full"),
        }
    }
}

/// A validation level's name is ASCII and already in lower case, so reading it back gives
/// the level: [ValidationLevel::from_str] undoes [ValidationLevel::to_string].
pub proof fn lemma_validation_level_round_trip(l: ValidationLevel)
    ensures
        crate::text::seq_is_ascii(validation_level_text(l)),
        validation_level_text(l).map_values(|c: char| crate::text::ascii_lower_char(c)) == validation_level_text(l),
        validation_level_of(validation_level_text(l)) == Some(l),
{
    reveal_strlit("none");
    reveal_strlit("sql_type");
    reveal_strlit("full");
    assert(validation_level_text(l).map_values(|c: char| crate::text::ascii_lower_char(c)) =~= validation_level_text(l));
    assert("none"@.len() == 4 && "sql_type"@.len() == 8 && "full"@.len() == 4);
    assert("none"@[0] != "full"@[0]);
}

/// The commands of the command-line interface.
#[derive(Debug)]
pub enum Command {
    /// Initialize a database
    Init {
        /// Overwrite an existing database
        force: bool,
    },
    /// Get data from the database
    Get { subcommand: GetSubcommand },
    /// Set data in the database (the command `set`)
    SetData { subcommand: SetSubcommand },
    /// Add data to the database
    Add { subcommand: AddSubcommand },
    /// Move data around within a data table
    Move { subcommand: MoveSubcommand },
    /// Validate data
    Validate { subcommand: ValidateSubcommand },
    /// Delete data from the database
    Delete { subcommand: DeleteSubcommand },
    /// Undo changes to the database
    Undo {},
    /// Redo changes to the database that have been undone
    Redo {},
    /// Show recent changes to the database
    History {
        /// Number of lines of redo / undo context (0 = infinite)
        context: usize,
    },
    /// Load data into the database
    Load { subcommand: LoadSubcommand },
    /// Save the data
    Save {
        /// The directory to which to save the table .TSVs (defaults to the value of "path" from
        /// the table table entry for each table when not set)
        save_dir: Option<String>,
    },
    /// Drop database tables
    Drop { subcommand: DropSubcommand },
    /// Run a Relatable server
    Serve {
        /// Server host address
        host: String,
        /// Server port
        port: u16,
        /// Instruct the server to exit after this many seconds; 0 for no timeout.
        timeout: usize,
    },
    /// Run Relatable as a CGI script
    Cgi {},
    /// Generate a demonstration database
    Demo {
        /// Overwrite an existing database
        force: bool,
        /// Number of rows of demo data to generate
        size: usize,
    },
}

/// What `get` reads.
#[derive(Debug)]
pub enum GetSubcommand {
    /// Get the column header and rows from a given table.
    Table { table: String, filters: Vec<String>, format: String, limit: usize, offset: usize },
    /// Get the rows from a given table.
    Rows { table: String, limit: usize, offset: usize },
    /// Get the value of a given column of a given row from a given table.
    Value { table: String, row: u64, column: String },
}

/// What `set` writes.
#[derive(Debug)]
pub enum SetSubcommand {
    /// Set the value of a given column of a given row from a given table.
    Value { table: String, row: u64, column: String, value: String, validation_level: ValidationLevel },
}

/// What `add` adds.
#[derive(Debug)]
pub enum AddSubcommand {
    /// Add a row after the given one, or at the end.
    Row { after_id: Option<u64>, table: String, validation_level: ValidationLevel },
    /// Add a message about a cell, read from the standard input.
    Message { table: String, row: u64, column: String },
}

/// What `move` moves.
#[derive(Debug)]
pub enum MoveSubcommand {
    /// Move a row after another one.
    Row { table: String, row: u64, after: u64 },
}

/// What `validate` validates.
#[derive(Debug)]
pub enum ValidateSubcommand {
    /// Validate the data in the given table
    Table { table: String },
    /// Validate the given row from the given table.
    Row { table: String, row: u64 },
    /// Validate the data in the given column of the given table
    Column { table: String, column: String },
    /// Validate the value of the given column of the given row from the given table.
    Value { table: String, row: u64, column: String },
}

/// What `delete` deletes.
#[derive(Debug)]
pub enum DeleteSubcommand {
    /// Delete a row.
    Row { table: String, row: u64 },
    /// Delete messages, optionally only those of a row or column, rule or user.
    Message { rule: Option<String>, user: Option<String>, table: String, row: Option<u64>, column: Option<String> },
}

/// What `load` loads.
#[derive(Debug)]
pub enum LoadSubcommand {
    /// Load tables from the given paths.
    Table { force: bool, validation_level: ValidationLevel, paths: Vec<String> },
}

/// What `drop` drops.
#[derive(Debug)]
pub enum DropSubcommand {
    /// Drop the whole database.
    Database {},
}

/// The value that a text given on the command line stands for: the JSON it holds, or else
/// the text itself as a JSON string.
pub fn value_from_text(text: &str) -> (r: JsonValue)
    ensures
        r@ == match json_parse_spec(text@) {
            Some(j) => j,
            None => Json::Str(text@),
        },
{
    match json_parse(text) {
        Some(v) => v,
        None => JsonValue::String(owned(text)),
    }
}

/// A change in the history that a user can undo or redo: its identifier, its action, and
/// the description of what it changed.
#[derive(Debug)]
pub struct HistoryEntry {
    pub change_id: u64,
    pub action: String,
    pub content: String,
}

/// A line of the history: the marker, the content, the change's identifier and its action.
pub open spec fn history_line(marker: Seq<char>, e: HistoryEntry) -> Seq<char> {
    marker + e.content@ + " (action #"@ + nat_text(e.change_id as nat) + ", "@ + e.action@ + ")"@
}

/// How many of `len` changes are shown with the given context: all of them for a context of
/// 0, else at most `context + 1`.
pub open spec fn shown_count(len: nat, context: nat) -> int {
    if context == 0 || len <= context + 1 { len as int } else { (context + 1) as int }
}

/// The lines of the history around the user's position, with a flag for the line to show in
/// bold: the changes that can be redone, latest first, the next one to redo marked `▲`;
/// then those that can be undone, the next one to undo marked `▼` and in bold. At most
/// `context + 1` changes of each kind are shown; a context of 0 shows them all.
pub open spec fn history_spec(undoable: Seq<HistoryEntry>, redoable: Seq<HistoryEntry>, context: nat) -> Seq<(Seq<char>, bool)> {
    let next_redo: u64 = if redoable.len() == 0 { 0 } else { redoable[0].change_id };
    let next_undo: u64 = if undoable.len() == 0 { 0 } else { undoable[0].change_id };
    let redo = redoable.reverse();
    let redo_shown = redo.take(shown_count(redo.len(), context));
    let undo_shown = undoable.take(shown_count(undoable.len(), context));
    redo_shown.map_values(|e: HistoryEntry|
        (history_line(if e.change_id == next_redo { "▲ "@ } else { "  "@ }, e), false))
    + undo_shown.map_values(|e: HistoryEntry|
        if e.change_id == next_undo { (history_line("▼ "@, e), true) } else { (history_line("  "@, e), false) })
}

/// The views of lines with their flags.
pub open spec fn line_views(v: Seq<(String, bool)>) -> Seq<(Seq<char>, bool)> {
    Seq::new(v.len(), |i: int| (v[i].0@, v[i].1))
}

fn history_text(marker: &str, e: &HistoryEntry) -> (r: String)
    ensures
        r@ == history_line(marker@, *e),
{
    let mut s = owned(marker);
    s.append(e.content.as_str());
    s.append(" (action #");
    push_u64(&mut s, e.change_id);
    s.append(", ");
    s.append(e.action.as_str());
    s.append(")");
    s
}

/// The lines of the history (see [history_spec]), each with whether to show it in bold.
pub fn history_lines(undoable: &Vec<HistoryEntry>, redoable: &Vec<HistoryEntry>, context: usize) -> (r: Vec<(String, bool)>)
    ensures
        line_views(r@) == history_spec(undoable@, redoable@, context as nat),
{
    let ghost spec = history_spec(undoable@, redoable@, context as nat);
    let next_redo: u64 = if redoable.len() == 0 { 0 } else { redoable[0].change_id };
    let next_undo: u64 = if undoable.len() == 0 { 0 } else { undoable[0].change_id };
    let ghost redo = redoable@.reverse();
    let ghost redo_n: int = shown_count(redo.len(), context as nat);
    let ghost undo_n: int = shown_count(undoable@.len(), context as nat);
    let ghost redo_part = redo.take(redo_n).map_values(|e: HistoryEntry|
        (history_line(if e.change_id == next_redo { "▲ "@ } else { "  "@ }, e), false));
    let ghost undo_part = undoable@.take(undo_n).map_values(|e: HistoryEntry|
        if e.change_id == next_undo { (history_line("▼ "@, e), true) } else { (history_line("  "@, e), false) });
    let mut lines: Vec<(String, bool)> = Vec::new();
    let n = redoable.len();
    let redo_limit: usize = if context == 0 || n <= context { n } else { context + 1 };
    let mut i: usize = 0;
    while i < redo_limit
        invariant
            n == redoable@.len(),
            redo == redoable@.reverse(),
            redo_n == redo_limit,
            redo_limit <= n,
            0 <= i <= redo_n,
            redo_part == redo.take(redo_n).map_values(|e: HistoryEntry|
                (history_line(if e.change_id == next_redo { "▲ "@ } else { "  "@ }, e), false)),
            line_views(lines@) == redo_part.take(i as int),
        decreases n - i,
    {
        let e = &redoable[n - 1 - i];
        assert(redo[i as int] == redoable@[n - 1 - i]);
        let line = if e.change_id == next_redo { history_text("▲ ", e) } else { history_text("  ", e) };
        assert((line@, false) == redo_part[i as int]);
        let ghost before = lines@;
        lines.push((line, false));
        assert(lines@ == before.push((line, false)));
        assert(redo_part.len() == redo_n);
        assert(redo_part.take(i as int).len() == i);
        assert(line_views(before).len() == i);
        assert(before.len() == i);
        assert(lines@.len() == i + 1);
        assert(line_views(lines@).len() == i + 1);
        assert forall|j: int| 0 <= j < i + 1 implies line_views(lines@)[j] == redo_part[j] by {
            if j < i {
                assert(line_views(before)[j] == redo_part.take(i as int)[j]);
            }
        }
        i = i + 1;
        assert(line_views(lines@) =~= redo_part.take(i as int));
    }
    assert(redo_part.take(i as int) =~= redo_part);
    let undo_limit: usize = if context == 0 || undoable.len() <= context { undoable.len() } else { context + 1 };
    let mut k: usize = 0;
    while k < undo_limit
        invariant
            undo_n == undo_limit,
            undo_limit <= undoable@.len(),
            0 <= k <= undo_n,
            undo_part == undoable@.take(undo_n).map_values(|e: HistoryEntry|
                if e.change_id == next_undo { (history_line("▼ "@, e), true) } else { (history_line("  "@, e), false) }),
            line_views(lines@) == redo_part + undo_part.take(k as int),
        decreases undoable.len() - k,
    {
        let e = &undoable[k];
        let ghost before = lines@;
        if e.change_id == next_undo {
            let t = history_text("▼ ", e);
            assert((t@, true) == undo_part[k as int]);
            lines.push((t, true));
        } else {
            let t = history_text("  ", e);
            assert((t@, false) == undo_part[k as int]);
            lines.push((t, false));
        }
        assert(lines@.len() == before.len() + 1);
        assert(undo_part.take(k as int).len() == k);
        assert(line_views(before).len() == before.len());
        assert(before.len() == redo_part.len() + k);
        assert forall|j: int| 0 <= j < before.len() implies lines@[j] == before[j] by {}
        assert forall|j: int| 0 <= j < lines@.len() implies
            line_views(lines@)[j] == (redo_part + undo_part.take(k + 1))[j] by {
            if j < before.len() {
                assert(line_views(before)[j] == (redo_part + undo_part.take(k as int))[j]);
            }
        }
        k = k + 1;
        assert(line_views(lines@) =~= redo_part + undo_part.take(k as int));
    }
    assert(undo_part.take(k as int) =~= undo_part);
    assert(redo_part + undo_part =~= spec);
    lines
}

} // verus!

verus! {

/// The characters that a table's name cannot hold.
pub const NON_NAME_PATTERN: &'static str = r#"[^0-9a-zA-Z_]+"#;

/// The text without its trailing underscores.
pub open spec fn trim_end_underscores(s: Seq<char>) -> Seq<char>
    decreases s.len(),
{
    if s.len() > 0 && s.last() == '_' { trim_end_underscores(s.drop_last()) } else { s }
}

/// The text without its leading underscores.
pub open spec fn trim_start_underscores(s: Seq<char>) -> Seq<char>
    decreases s.len(),
{
    if s.len() > 0 && s[0] == '_' { trim_start_underscores(s.skip(1)) } else { s }
}

/// The name of the table loaded from a file with the given stem: each run of characters
/// other than ASCII letters, digits and `_` becomes `_`, then the leading and trailing
/// underscores go.
pub open spec fn table_name_spec(stem: Seq<char>) -> Seq<char> {
    trim_start_underscores(trim_end_underscores(
        crate::pattern::regex_replace_all_spec(NON_NAME_PATTERN@, stem, "_"@)))
}

/// The name of the table loaded from a file with the given stem (see [table_name_spec]); a
/// configuration error when the pattern of [NON_NAME_PATTERN] is refused.
pub fn table_name_of_stem(stem: &str) -> (r: Result<String, RelatableError>)
    ensures
        r is Ok <==> crate::pattern::regex_valid(NON_NAME_PATTERN@),
        r matches Ok(t) ==> t@ == table_name_spec(stem@),
{
    let replaced = match crate::pattern::regex_replace_all(NON_NAME_PATTERN, stem, "_") {
        Ok(t) => t,
        Err(_) => return Err(RelatableError::ConfigError(owned("invalid pattern for table names"))),
    };
    let v = crate::text::chars_of(replaced.as_str());
    let mut end: usize = v.len();
    assert(v@.take(end as int) =~= v@);
    while end > 0 && v[end - 1] == '_'
        invariant
            end <= v.len(),
            trim_end_underscores(v@.take(end as int)) == trim_end_underscores(v@),
        decreases end,
    {
        assert(v@.take(end - 1) =~= v@.take(end as int).drop_last());
        end = end - 1;
    }
    assert(trim_end_underscores(v@.take(end as int)) == v@.take(end as int));
    let mut start: usize = 0;
    while start < end && v[start] == '_'
        invariant
            start <= end <= v.len(),
            trim_start_underscores(v@.subrange(start as int, end as int)) == trim_start_underscores(v@.take(end as int)),
        decreases end - start,
    {
        assert(v@.subrange(start + 1, end as int) =~= v@.subrange(start as int, end as int).skip(1));
        start = start + 1;
    }
    assert(trim_start_underscores(v@.subrange(start as int, end as int)) == v@.subrange(start as int, end as int));
    assert(v@.take(end as int) =~= v@.subrange(0, end as int));
    Ok(crate::text::string_of(&v, start, end))
}

} // verus!
