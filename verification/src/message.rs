//! Validation messages and the special "message" table.
use vstd::prelude::*;

use crate::json::JsonValue;
use crate::text::owned;

verus! {

/// Represents a validation message for a cell.
#[derive(Debug, PartialEq)]
pub struct CellMessage {
    /// The value referred to by the message
    pub value: JsonValue,
    /// The severity of the message.
    pub level: String,
    /// The rule violation that the message is about.
    pub rule: String,
    /// The contents of the message.
    pub message: String,
}

/// Represents a validation message in the message table.
#[derive(Debug, PartialEq)]
pub struct Message {
    pub message_id: u64,
    pub added_by: String,
    pub table: String,
    pub row: u64,
    pub column: String,
    /// The value referred to by the message
    pub value: JsonValue,
    /// The severity of the message.
    pub level: String,
    /// The rule violation that the message is about.
    pub rule: String,
    /// The contents of the message.
    pub message: String,
}

/// The columns of the message table, in order.
pub open spec fn message_columns() -> Seq<Seq<char>> {
    seq!["message_id"@, "added_by"@, "table"@, "row"@, "column"@, "value"@, "level"@, "rule"@, "message"@]
}

/// Represents the special "message" table.
#[derive(Debug)]
pub struct MessageTable {
    /// The name of the table, "message" by default
    pub table_name: String,
}

impl MessageTable {
    /// The message table, named "message".
    pub fn connect() -> (r: Self)
        ensures
            r.table_name@ == "message"@,
    {
        MessageTable { table_name: owned("message") }
    }

    /// The names of the columns of the message table, in order.
    pub fn column_names(&self) -> (r: Vec<String>)
        ensures
            crate::text::views(r@) == message_columns(),
    {
        let r = vec![
            owned("message_id"),
            owned("added_by"),
            owned("table"),
            owned("row"),
            owned("column"),
            owned("value"),
            owned("level"),
            owned("rule"),
            owned("message"),
        ];
        assert(crate::text::views(r@) =~= message_columns());
        r
    }
}

} // verus!
