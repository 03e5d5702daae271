//! Changes made by users to tables, and the actions that record them.
use vstd::prelude::*;

use crate::error::RelatableError;
use crate::json::{Json, JsonValue};
use crate::sql::{json_string_spec, json_to_string};
use crate::text::{ascii_lower_char, nat_text, owned, push_u64, seq_is_ascii, str_eq, to_lowercase};
use crate::user::{Cursor, CursorView};

verus! {

/// The kind of action that is performed by a change
#[derive(Clone, Copy, Debug, PartialEq, Eq, Structural)]
pub enum ChangeAction {
    Do,
    Undo,
    Redo,
}

/// The text of an action.
pub open spec fn action_text(a: ChangeAction) -> Seq<char> {
    match a {
        ChangeAction::Do => "do"@,
        ChangeAction::Undo => "undo"@,
        ChangeAction::Redo => "redo"@,
    }
}

/// The action that a lower-case text names, if any.
pub open spec fn action_of(lower: Seq<char>) -> Option<ChangeAction> {
    if lower == "do"@ {
        Some(ChangeAction::Do)
    } else if lower == "undo"@ {
        Some(ChangeAction::Undo)
    } else if lower == "redo"@ {
        Some(ChangeAction::Redo)
    } else {
        None
    }
}

/// Lower-case ASCII letters in a text; other characters are kept.
pub open spec fn ascii_lower(s: Seq<char>) -> Seq<char> {
    s.map_values(|c: char| ascii_lower_char(c))
}

impl ChangeAction {
    /// Read an action from its name, in any case: `do`, `undo` or `redo`. Any other
    /// text is an input error.
    pub fn from_str(action: &str) -> (r: Result<ChangeAction, RelatableError>)
        ensures
            match r {
                Ok(a) => action_of(crate::text::lowercase_spec(action@)) == Some(a),
                Err(e) => action_of(crate::text::lowercase_spec(action@)) is None && e is InputError
                    && e.message_view() == "Unrecognized action: "@ + action@,
            },
            seq_is_ascii(action@) ==> match r {
                Ok(a) => action_of(ascii_lower(action@)) == Some(a),
                Err(_) => action_of(ascii_lower(action@)) is None,
            },
    {
        let lower = to_lowercase(action);
        if str_eq(lower.as_str(), "do") {
            Ok(ChangeAction::Do)
        } else if str_eq(lower.as_str(), "undo") {
            Ok(ChangeAction::Undo)
        } else if str_eq(lower.as_str(), "redo") {
            Ok(ChangeAction::Redo)
        } else {
            let mut m = owned("Unrecognized action: ");
            m.append(action);
            Err(RelatableError::InputError(m))
        }
    }

    /// The action's name: `do`, `undo` or `redo`.
    pub fn to_string(&self) -> (r: String)
        ensures
            r@ == action_text(*self),
    {
        match self {
            ChangeAction::Do => owned("do"),
            ChangeAction::Undo => owned("undo"),
            ChangeAction::Redo => owned("redo"),
        }
    }
}

/// An action's name is ASCII and already in lower case, so reading it back gives the
/// action: [ChangeAction::from_str] undoes [ChangeAction::to_string].
pub proof fn lemma_action_round_trip(a: ChangeAction)
    ensures
        seq_is_ascii(action_text(a)),
        ascii_lower(action_text(a)) == action_text(a),
        action_of(action_text(a)) == Some(a),
{
    reveal_strlit("do");
    reveal_strlit("undo");
    reveal_strlit("redo");
    assert(ascii_lower(action_text(a)) =~= action_text(a));
    assert("undo"@.len() == 4 && "redo"@.len() == 4 && "do"@.len() == 2);
    assert("redo"@[0] != "undo"@[0]);
}

/// A change to a table in the database
#[derive(Debug, PartialEq)]
pub enum Change {
    Update {
        /// The id of the row that was updated
        row: u64,
        /// The column whose value was updated
        column: String,
        /// The value of the column before the change
        before: JsonValue,
        /// The value of the column after the change
        after: JsonValue,
    },
    Add {
        /// The id of the row that was added
        row: u64,
        /// The _id of the row whose _order this comes immediately after in the table
        after: u64,
    },
    Move {
        /// The id of the row that was moved
        row: u64,
        /// The row that this row came after before the change
        from_after: u64,
        /// The row that this row came after after the change
        to_after: u64,
    },
    Delete {
        /// The id of the row that was deleted
        row: u64,
        /// The _id of the row whose _order this row came immediately after in the table before
        /// being deleted.
        after: u64,
    },
}

/// The description of a change.
pub open spec fn change_text(c: Change) -> Seq<char> {
    match c {
        Change::Update { row, column, before, after } =>
            "Update '"@ + column@ + "' in row "@ + nat_text(row as nat) + " from "@ + json_string_spec(before@)
                + " to "@ + json_string_spec(after@),
        Change::Add { row, after } => "Add row "@ + nat_text(row as nat) + " after row "@ + nat_text(after as nat),
        Change::Move { row, from_after, to_after } =>
            "Move row "@ + nat_text(row as nat) + " from after row "@ + nat_text(from_after as nat)
                + " to after row "@ + nat_text(to_after as nat),
        Change::Delete { row, after: _ } => "Delete row "@ + nat_text(row as nat),
    }
}

/// The row that a change is about.
pub open spec fn change_row(c: Change) -> u64 {
    match c {
        Change::Update { row, .. } => row,
        Change::Add { row, .. } => row,
        Change::Move { row, .. } => row,
        Change::Delete { row, .. } => row,
    }
}

/// The column that a change is about: the updated column, or none.
pub open spec fn change_column(c: Change) -> Seq<char> {
    match c {
        Change::Update { column, .. } => column@,
        _ => Seq::empty(),
    }
}

impl Change {
    /// A description of the change.
    pub fn to_string(&self) -> (r: String)
        ensures
            r@ == change_text(*self),
    {
        match self {
            Change::Update { row, column, before, after } => {
                let mut s = owned("Update '");
                s.append(column.as_str());
                s.append("' in row ");
                push_u64(&mut s, *row);
                s.append(" from ");
                s.append(json_to_string(before).as_str());
                s.append(" to ");
                s.append(json_to_string(after).as_str());
                s
            },
            Change::Add { row, after } => {
                let mut s = owned("Add row ");
                push_u64(&mut s, *row);
                s.append(" after row ");
                push_u64(&mut s, *after);
                s
            },
            Change::Move { row, from_after, to_after } => {
                let mut s = owned("Move row ");
                push_u64(&mut s, *row);
                s.append(" from after row ");
                push_u64(&mut s, *from_after);
                s.append(" to after row ");
                push_u64(&mut s, *to_after);
                s
            },
            Change::Delete { row, after: _ } => {
                let mut s = owned("Delete row ");
                push_u64(&mut s, *row);
                s
            },
        }
    }
}

/// A set of changes made by a user to a table.
#[derive(Debug, PartialEq)]
pub struct ChangeSet {
    pub action: ChangeAction,
    pub table: String,
    pub user: String,
    pub description: String,
    pub changes: Vec<Change>,
}

impl ChangeSet {
    /// Where the user's cursor goes after the change set: the table, the row of the first
    /// change, and the updated column (none for other changes). A set without changes is a
    /// change error.
    pub fn to_cursor(&self) -> (r: Result<Cursor, RelatableError>)
        ensures
            match r {
                Ok(c) => self.changes@.len() > 0 && c@ == (CursorView {
                    table: self.table@,
                    row: change_row(self.changes@[0]),
                    column: change_column(self.changes@[0]),
                }),
                Err(e) => self.changes@.len() == 0 && e is ChangeError && e.message_view() == "No changes in set"@,
            },
    {
        if self.changes.len() == 0 {
            return Err(RelatableError::ChangeError(owned("No changes in set")));
        }
        let table = self.table.clone();
        match &self.changes[0] {
            Change::Update { row, column, .. } => Ok(Cursor { table, row: *row, column: column.clone() }),
            Change::Add { row, .. } => Ok(Cursor { table, row: *row, column: String::new() }),
            Change::Move { row, .. } => Ok(Cursor { table, row: *row, column: String::new() }),
            Change::Delete { row, .. } => Ok(Cursor { table, row: *row, column: String::new() }),
        }
    }
}

} // verus!
