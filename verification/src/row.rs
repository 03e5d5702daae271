//! Rows of a table, their cells, and the validation messages about them.
use vstd::prelude::*;

use crate::column::{Column, ColumnView};
use crate::datatype::{Datatypes, DatatypeView};
use crate::error::RelatableError;
use crate::json::{json_parse, json_parse_spec, json_text_spec, json_to_text, json_views, Json, JsonNumber, JsonValue};
use crate::maps::{insert_entry, key_pos, lookup};
use crate::sql::{advance, column_type, json_string_spec, json_to_string, placeholder, sql_type_found, DbKind, SqlParam};
use crate::text::{cat, dquote, owned, seq_join, starts_with, str_eq, views};

verus! {

broadcast use vstd::std_specs::vec::group_vec_axioms;

/// Represents a validation message
#[derive(Debug, PartialEq)]
pub struct Message {
    /// The value referred to by the message
    pub value: JsonValue,
    /// The severity of the message.
    pub level: String,
    /// The rule violation that the message is about.
    pub rule: String,
    /// The contents of the message.
    pub message: String,
}

/// The model of a message.
pub struct MessageView {
    pub value: Json,
    pub level: Seq<char>,
    pub rule: Seq<char>,
    pub message: Seq<char>,
}

impl View for Message {
    type V = MessageView;

    open spec fn view(&self) -> MessageView {
        MessageView { value: self.value@, level: self.level@, rule: self.rule@, message: self.message@ }
    }
}

impl Clone for Message {
    fn clone(&self) -> (r: Self)
        ensures
            r@ == self@,
    {
        Message {
            value: self.value.clone(),
            level: self.level.clone(),
            rule: self.rule.clone(),
            message: self.message.clone(),
        }
    }
}

/// The models of a list of messages.
pub open spec fn message_views(v: Seq<Message>) -> Seq<MessageView> {
    v.map_values(|m: Message| m@)
}

/// Represents a cell from a row in a given table
#[derive(Debug, PartialEq)]
pub struct Cell {
    pub value: JsonValue,
    pub text: String,
    pub messages: Vec<Message>,
}

/// The model of a cell.
pub struct CellView {
    pub value: Json,
    pub text: Seq<char>,
    pub messages: Seq<MessageView>,
}

impl View for Cell {
    type V = CellView;

    open spec fn view(&self) -> CellView {
        CellView { value: self.value@, text: self.text@, messages: message_views(self.messages@) }
    }
}

fn clone_messages(v: &Vec<Message>) -> (r: Vec<Message>)
    ensures
        message_views(r@) == message_views(v@),
{
    let mut out: Vec<Message> = Vec::new();
    let mut i: usize = 0;
    while i < v.len()
        invariant
            i <= v.len(),
            out@.len() == i,
            forall|k: int| 0 <= k < i ==> #[trigger] out@[k]@ == v@[k]@,
        decreases v.len() - i,
    {
        let m = v[i].clone();
        out.push(m);
        i = i + 1;
    }
    assert(message_views(out@) =~= message_views(v@));
    out
}

impl Clone for Cell {
    fn clone(&self) -> (r: Self)
        ensures
            r@ == self@,
    {
        Cell { value: self.value.clone(), text: self.text.clone(), messages: clone_messages(&self.messages) }
    }
}

/// The text of a cell that holds the value: a string is its own text, null has none,
/// and any other value is written as compact JSON.
pub open spec fn cell_text(value: Json) -> Seq<char> {
    match value {
        Json::Str(s) => s,
        Json::Null => Seq::empty(),
        Json::Bool(b) => crate::json::bool_text(b),
        Json::Int(_) => crate::json::number_text(value),
        Json::Float(_) => crate::json::number_text(value),
        _ => json_text_spec(value),
    }
}

/// Whether a value fits the SQL type, as [Cell::validate_sql_type] checks it: `INTEGER`
/// takes null and integers that fit in an `i64`; `REAL` and `NUMERIC` take null and any
/// number; `TEXT` takes anything.
pub open spec fn fits_sql_type(value: Json, sql_type: Seq<char>) -> bool {
    if sql_type == "INTEGER"@ {
        match value {
            Json::Null => true,
            Json::Int(n) => n <= i64::MAX,
            _ => false,
        }
    } else if sql_type == "REAL"@ || sql_type == "NUMERIC"@ {
        match value {
            Json::Null => true,
            Json::Int(_) => true,
            Json::Float(_) => true,
            _ => false,
        }
    } else {
        true
    }
}

/// An `INTEGER` column takes null and every integer from `i64::MIN` to `i64::MAX`,
/// negative ones included, and refuses larger integers and every other value.
pub proof fn lemma_integer_sql_type(value: Json)
    ensures
        value is Null ==> fits_sql_type(value, "INTEGER"@),
        value matches Json::Int(n) && i64::MIN <= n <= i64::MAX ==> fits_sql_type(value, "INTEGER"@),
        value matches Json::Int(n) && n > i64::MAX ==> !fits_sql_type(value, "INTEGER"@),
        !(value is Null) && !(value is Int) ==> !fits_sql_type(value, "INTEGER"@),
{
}

/// `REAL` and `NUMERIC` columns take null and every number and refuse every other value;
/// a `TEXT` column takes every value.
pub proof fn lemma_other_sql_types(value: Json)
    ensures
        fits_sql_type(value, "REAL"@) <==> (value is Null || value is Int || value is Float),
        fits_sql_type(value, "NUMERIC"@) <==> (value is Null || value is Int || value is Float),
        fits_sql_type(value, "TEXT"@),
{
    reveal_strlit("INTEGER");
    reveal_strlit("REAL");
    reveal_strlit("NUMERIC");
    reveal_strlit("TEXT");
    assert("REAL"@ != "INTEGER"@) by { assert("REAL"@.len() != "INTEGER"@.len()); }
    assert("NUMERIC"@ != "INTEGER"@) by { assert("NUMERIC"@[0] != "INTEGER"@[0]); }
    assert("TEXT"@ != "INTEGER"@) by { assert("TEXT"@.len() != "INTEGER"@.len()); }
    assert("TEXT"@ != "REAL"@) by { assert("TEXT"@[0] != "REAL"@[0]); }
    assert("TEXT"@ != "NUMERIC"@) by { assert("TEXT"@.len() != "NUMERIC"@.len()); }
}

/// The message about a value that does not fit is an error under the rule
/// `sql_type:` + the type, saying that the column must be of that type.
pub proof fn lemma_sql_type_message_text(value: Json, column: Seq<char>, sql_type: Seq<char>)
    ensures
        sql_type_message(value, column, sql_type).value == value,
        sql_type_message(value, column, sql_type).level == "error"@,
        sql_type_message(value, column, sql_type).rule == "sql_type:"@ + sql_type,
        sql_type_message(value, column, sql_type).message == column + " must be of type "@ + sql_type,
{
}

/// True for the SQL types that cells are checked against.
pub open spec fn supported_sql_type(sql_type: Seq<char>) -> bool {
    sql_type == "INTEGER"@ || sql_type == "REAL"@ || sql_type == "NUMERIC"@ || sql_type == "TEXT"@
}

/// The message about a value that does not fit the column's SQL type.
pub open spec fn sql_type_message(value: Json, column: Seq<char>, sql_type: Seq<char>) -> MessageView {
    MessageView {
        value,
        level: "error"@,
        rule: "sql_type:"@ + sql_type,
        message: column + " must be of type "@ + sql_type,
    }
}

/// The level of the most severe message: 2 when there is an error, 1 when there is a
/// warning, else 0. Other levels do not count.
pub open spec fn message_level_spec(messages: Seq<MessageView>) -> nat {
    if exists|i: int| 0 <= i < messages.len() && #[trigger] messages[i].level == "error"@ {
        2
    } else if exists|i: int| 0 <= i < messages.len() && #[trigger] messages[i].level == "warn"@ {
        1
    } else {
        0
    }
}

/// True when one of the messages is an error about the SQL type.
pub open spec fn has_sql_type_error_spec(messages: Seq<MessageView>) -> bool {
    exists|i: int| 0 <= i < messages.len() && #[trigger] messages[i].level == "error"@
        && "sql_type:"@.is_prefix_of(messages[i].rule)
}

impl Cell {
    /// A cell that holds the value, with its text (see [cell_text]) and no messages.
    pub fn from(value: &JsonValue) -> (r: Cell)
        ensures
            r@ == (CellView { value: value@, text: cell_text(value@), messages: Seq::empty() }),
    {
        let text = match value {
            JsonValue::String(s) => s.clone(),
            JsonValue::Null => String::new(),
            _ => json_to_text(value),
        };
        let r = Cell { value: value.clone(), text, messages: Vec::new() };
        assert(message_views(r.messages@) =~= Seq::<MessageView>::empty());
        r
    }

    /// Check the cell's value against the SQL type of its column (see [fits_sql_type]); a
    /// value that does not fit gets an error message. A column whose SQL type is not one
    /// of `INTEGER`, `REAL`, `NUMERIC` and `TEXT` is an input error, and the cell is kept.
    /// (A number's text always reads as an `f64`, so every number fits `REAL`; a float's
    /// text, with its point or exponent, never reads as an `i64`.)
    pub fn validate_sql_type(&mut self, datatypes: &Datatypes, column: &Column) -> (r: Result<(), RelatableError>)
        requires
            sql_type_found(column@, datatypes@),
        ensures
            final(self).value@ == old(self).value@,
            final(self).text@ == old(self).text@,
            match r {
                Ok(()) => supported_sql_type(column_type(column@, datatypes@))
                    && final(self)@.messages == if fits_sql_type(old(self).value@, column_type(column@, datatypes@)) {
                        old(self)@.messages
                    } else {
                        old(self)@.messages.push(sql_type_message(old(self).value@, column@.column, column_type(column@, datatypes@)))
                    },
                Err(e) => !supported_sql_type(column_type(column@, datatypes@)) && final(self)@ == old(self)@
                    && e is InputError
                    && e.message_view() == "Unsupported SQL type: '"@ + column_type(column@, datatypes@) + "'"@,
            },
    {
        let sql_type = column.sql_type(datatypes);
        let t = sql_type.as_str();
        let fits = if str_eq(t, "INTEGER") {
            match &self.value {
                JsonValue::Null => true,
                JsonValue::Number(JsonNumber::PosInt(n)) => *n <= 9223372036854775807u64,
                JsonValue::Number(JsonNumber::NegInt(_)) => true,
                _ => false,
            }
        } else if str_eq(t, "REAL") || str_eq(t, "NUMERIC") {
            match &self.value {
                JsonValue::Null => true,
                JsonValue::Number(_) => true,
                _ => false,
            }
        } else if str_eq(t, "TEXT") {
            true
        } else {
            let mut m = cat("Unsupported SQL type: '", t);
            m.append("'");
            return Err(RelatableError::InputError(m));
        };
        if !fits {
            let message = Message {
                value: self.value.clone(),
                level: owned("error"),
                rule: cat("sql_type:", t),
                message: crate::text::cat3(column.column.as_str(), " must be of type ", t),
            };
            self.messages.push(message);
            assert(message_views(self.messages@) =~= old(self)@.messages.push(
                sql_type_message(old(self).value@, column@.column, column_type(column@, datatypes@))));
        }
        Ok(())
    }

    /// The maximum error level of the cell's messages (see [message_level_spec]).
    pub fn message_level(&self) -> (r: usize)
        ensures
            r as nat == message_level_spec(self@.messages),
    {
        let ghost ms = self@.messages;
        let mut level: usize = 0;
        let mut i: usize = 0;
        while i < self.messages.len()
            invariant
                i <= self.messages.len(),
                ms == message_views(self.messages@),
                forall|k: int| 0 <= k < i ==> (#[trigger] ms[k]).level != "error"@,
                level == (if exists|k: int| 0 <= k < i && #[trigger] ms[k].level == "warn"@ { 1usize } else { 0usize }),
            decreases self.messages.len() - i,
        {
            assert(ms[i as int] == self.messages@[i as int]@);
            let l = self.messages[i].level.as_str();
            if str_eq(l, "error") {
                assert(ms[i as int].level == "error"@);
                return 2;
            } else if str_eq(l, "warn") {
                assert(ms[i as int].level == "warn"@);
                level = 1;
            }
            i = i + 1;
            assert(level == (if exists|k: int| 0 <= k < i && #[trigger] ms[k].level == "warn"@ { 1usize } else { 0usize })) by {
                if exists|k: int| 0 <= k < i && #[trigger] ms[k].level == "warn"@ {
                    let k = choose|k: int| 0 <= k < i && #[trigger] ms[k].level == "warn"@;
                    if k < i - 1 {
                        assert(exists|j: int| 0 <= j < i - 1 && #[trigger] ms[j].level == "warn"@);
                    }
                }
            }
        }
        level
    }

    /// Whether one of the cell's messages is an error about the SQL type.
    pub fn has_sql_type_error(&self) -> (r: bool)
        ensures
            r == has_sql_type_error_spec(self@.messages),
    {
        let ghost ms = self@.messages;
        let mut i: usize = 0;
        while i < self.messages.len()
            invariant
                i <= self.messages.len(),
                ms == message_views(self.messages@),
                forall|k: int| 0 <= k < i ==> !((#[trigger] ms[k]).level == "error"@ && "sql_type:"@.is_prefix_of(ms[k].rule)),
            decreases self.messages.len() - i,
        {
            assert(ms[i as int] == self.messages@[i as int]@);
            if str_eq(self.messages[i].level.as_str(), "error") && starts_with(self.messages[i].rule.as_str(), "sql_type:") {
                assert(ms[i as int].level == "error"@ && "sql_type:"@.is_prefix_of(ms[i as int].rule));
                return true;
            }
            i = i + 1;
        }
        false
    }
}


// ---------------------------------------------------------------------------
// Rows
// ---------------------------------------------------------------------------

/// The entries of a map from column names to cells.
pub uninterp spec fn cell_map_entries(m: indexmap::IndexMap<String, Cell>) -> Seq<(Seq<char>, CellView)>;

/// `IndexMap::new`: an empty map.
#[verifier::external_body]
fn cell_map_new() -> (r: indexmap::IndexMap<String, Cell>)
    ensures
        cell_map_entries(r) == Seq::<(Seq<char>, CellView)>::empty(),
{
    indexmap::IndexMap::new()
}

/// `IndexMap::insert`: an existing key keeps its place and takes the new value;
/// a new key goes last.
#[verifier::external_body]
fn cell_map_insert(m: &mut indexmap::IndexMap<String, Cell>, key: String, value: Cell)
    ensures
        cell_map_entries(*final(m)) == insert_entry(cell_map_entries(*old(m)), key@, value@),
{
    m.insert(key, value);
}

/// `IndexMap::get`: the value stored under the key.
#[verifier::external_body]
fn cell_map_get<'a>(m: &'a indexmap::IndexMap<String, Cell>, key: &str) -> (r: Option<&'a Cell>)
    ensures
        match r {
            Some(v) => lookup(cell_map_entries(*m), key@) == Some(v@),
            None => lookup(cell_map_entries(*m), key@) is None,
        },
{
    m.get(key)
}

/// `IndexMap::len`: the number of entries.
#[verifier::external_body]
fn cell_map_len(m: &indexmap::IndexMap<String, Cell>) -> (r: usize)
    ensures
        r == cell_map_entries(*m).len(),
{
    m.len()
}

/// `IndexMap::get_index`: the entry at a position; an `IndexMap` holds each key once,
/// so no earlier entry has the same key.
#[verifier::external_body]
fn cell_map_get_index<'a>(m: &'a indexmap::IndexMap<String, Cell>, index: usize) -> (r: Option<(&'a String, &'a Cell)>)
    ensures
        match r {
            Some((k, v)) => index < cell_map_entries(*m).len() && cell_map_entries(*m)[index as int] == (k@, v@)
                && crate::maps::key_pos(cell_map_entries(*m), k@) == index,
            None => index >= cell_map_entries(*m).len(),
        },
{
    m.get_index(index)
}

/// Represents a row from some table
#[derive(Debug)]
pub struct Row {
    pub id: u64,
    pub order: u64,
    pub change_id: u64,
    pub cells: indexmap::IndexMap<String, Cell>,
}

/// The model of a row: its cells by column name, in order.
pub struct RowView {
    pub id: u64,
    pub order: u64,
    pub change_id: u64,
    pub cells: Seq<(Seq<char>, CellView)>,
}

impl View for Row {
    type V = RowView;

    open spec fn view(&self) -> RowView {
        RowView { id: self.id, order: self.order, change_id: self.change_id, cells: cell_map_entries(self.cells) }
    }
}

/// The placeholders of the cells' values in an insert statement, and the values bound to
/// them: a null value is written `NULL`; any other takes the next placeholder after
/// `index`. The last component is the index after them.
pub open spec fn value_slots(cells: Seq<CellView>, kind: DbKind, index: nat) -> (Seq<Seq<char>>, Seq<Json>, nat)
    decreases cells.len(),
{
    if cells.len() == 0 {
        (Seq::empty(), Seq::empty(), index)
    } else {
        let (slots, values, next) = value_slots(cells.drop_last(), kind, index);
        let c = cells.last();
        if c.value is Null {
            (slots.push("NULL"@), values, next)
        } else {
            (slots.push(placeholder(kind, next + 1)), values.push(c.value), advance(kind, next, 1))
        }
    }
}

/// The statement that inserts the row into the table, and its parameters: the row's
/// identifier and order, then the value of each cell that is not null.
pub open spec fn insert_spec(row: RowView, table: Seq<char>, kind: DbKind) -> (Seq<char>, Json) {
    let cells = row.cells.map_values(|e: (Seq<char>, CellView)| e.1);
    let names = row.cells.map_values(|e: (Seq<char>, CellView)| seq!['"'] + e.0 + seq!['"']);
    let start = advance(kind, 0, 2);
    let (slots, values, _) = value_slots(cells, kind, start);
    let all_slots = seq![placeholder(kind, 1), placeholder(kind, advance(kind, 0, 1) + 1)] + slots;
    let columns = if names.len() == 0 { Seq::empty() } else { ", "@ + seq_join(names, ", "@) };
    (
        "INSERT INTO \""@ + table + "\"\n                   (\"_id\", \"_order\""@ + columns + ")\n                   VALUES ("@
            + seq_join(all_slots, ", "@) + ")"@,
        Json::Arr(seq![Json::Int(row.id as int), Json::Int(row.order as int)] + values),
    )
}

proof fn lemma_value_slots_bound(cells: Seq<CellView>, kind: DbKind, index: nat)
    ensures
        value_slots(cells, kind, index).2 <= index + cells.len(),
        kind == DbKind::SQLite ==> value_slots(cells, kind, index).2 == index,
    decreases cells.len(),
{
    if cells.len() > 0 {
        lemma_value_slots_bound(cells.drop_last(), kind, index);
    }
}

/// Every placeholder of an insert statement gets a parameter: the values bound after
/// `index` number exactly as many placeholders as there are values, one slot per cell.
pub proof fn lemma_insert_slots_match_values(cells: Seq<CellView>, kind: DbKind, index: nat)
    ensures
        value_slots(cells, kind, index).0.len() == cells.len(),
        value_slots(cells, kind, index).2 == advance(kind, index, value_slots(cells, kind, index).1.len()),
    decreases cells.len(),
{
    if cells.len() > 0 {
        lemma_insert_slots_match_values(cells.drop_last(), kind, index);
    }
}

impl Row {
    /// The texts of the row's cells, in order.
    pub fn to_strings(&self) -> (r: Vec<String>)
        ensures
            views(r@) == self@.cells.map_values(|e: (Seq<char>, CellView)| e.1.text),
    {
        let n = cell_map_len(&self.cells);
        let mut out: Vec<String> = Vec::new();
        let mut i: usize = 0;
        while i < n
            invariant
                i <= n,
                n == cell_map_entries(self.cells).len(),
                views(out@) == cell_map_entries(self.cells).take(i as int).map_values(|e: (Seq<char>, CellView)| e.1.text),
            decreases n - i,
        {
            match cell_map_get_index(&self.cells, i) {
                Some((_, cell)) => {
                    let t = cell.text.clone();
                    proof { crate::text::lemma_views_push(out@, t); }
                    out.push(t);
                },
                None => {},
            }
            i = i + 1;
            assert(views(out@) =~= cell_map_entries(self.cells).take(i as int).map_values(|e: (Seq<char>, CellView)| e.1.text));
        }
        assert(cell_map_entries(self.cells).take(i as int) =~= cell_map_entries(self.cells));
        out
    }

    /// The statement that inserts the row into the table, and its parameters (see
    /// [insert_spec]).
    pub fn as_insert(&self, table: &str, db_kind: &DbKind) -> (r: (String, JsonValue))
        requires
            self@.cells.len() + 2 < usize::MAX,
        ensures
            (r.0@, r.1@) == insert_spec(self@, table@, *db_kind),
    {
        let ghost entries = cell_map_entries(self.cells);
        let ghost cells = entries.map_values(|e: (Seq<char>, CellView)| e.1);
        let n = cell_map_len(&self.cells);
        let mut gen = SqlParam::new(db_kind);
        let mut params: Vec<JsonValue> = vec![crate::json::json_u64(self.id), crate::json::json_u64(self.order)];
        let first = gen.next();
        let second = gen.next();
        let mut slots: Vec<String> = vec![first, second];
        let mut names: Vec<String> = Vec::new();
        let ghost start = gen.index as nat;
        let ghost slots0 = views(slots@);
        let ghost params0 = json_views(params@);
        assert(slots0 =~= seq![placeholder(*db_kind, 1), placeholder(*db_kind, advance(*db_kind, 0, 1) + 1)]);
        assert(params0 =~= seq![Json::Int(self.id as int), Json::Int(self.order as int)]);
        let mut i: usize = 0;
        while i < n
            invariant
                i <= n,
                n == entries.len(),
                n + 2 < usize::MAX,
                entries == cell_map_entries(self.cells),
                cells == entries.map_values(|e: (Seq<char>, CellView)| e.1),
                gen.kind == *db_kind,
                start == advance(*db_kind, 0, 2),
                gen.index as nat == value_slots(cells.take(i as int), *db_kind, start).2,
                views(slots@) == slots0 + value_slots(cells.take(i as int), *db_kind, start).0,
                json_views(params@) == params0 + value_slots(cells.take(i as int), *db_kind, start).1,
                views(names@) == entries.take(i as int).map_values(|e: (Seq<char>, CellView)| seq!['"'] + e.0 + seq!['"']),
            decreases n - i,
        {
            proof {
                lemma_value_slots_bound(cells.take(i as int), *db_kind, start);
                assert(cells.take(i + 1).drop_last() =~= cells.take(i as int));
            }
            match cell_map_get_index(&self.cells, i) {
                Some((name, cell)) => {
                    let q = dquote(name.as_str());
                    proof { crate::text::lemma_views_push(names@, q); }
                    names.push(q);
                    match &cell.value {
                        JsonValue::Null => {
                            let s = owned("NULL");
                            proof { crate::text::lemma_views_push(slots@, s); }
                            slots.push(s);
                        },
                        _ => {
                            let s = gen.next();
                            proof { crate::text::lemma_views_push(slots@, s); }
                            slots.push(s);
                            let v = cell.value.clone();
                            assert(json_views(params@.push(v)) =~= json_views(params@).push(v@));
                            params.push(v);
                        },
                    }
                },
                None => {},
            }
            i = i + 1;
            assert(views(slots@) =~= slots0 + value_slots(cells.take(i as int), *db_kind, start).0);
            assert(json_views(params@) =~= params0 + value_slots(cells.take(i as int), *db_kind, start).1);
            assert(views(names@) =~= entries.take(i as int).map_values(|e: (Seq<char>, CellView)| seq!['"'] + e.0 + seq!['"']));
        }
        assert(cells.take(i as int) =~= cells);
        assert(entries.take(i as int) =~= entries);
        let ghost spec = insert_spec(self@, table@, *db_kind);
        let ghost qnames = entries.map_values(|e: (Seq<char>, CellView)| seq!['"'] + e.0 + seq!['"']);
        let ghost columns = if qnames.len() == 0 { Seq::<char>::empty() } else { ", "@ + seq_join(qnames, ", "@) };
        let mut sql = cat("INSERT INTO \"", table);
        sql.append("\"\n                   (\"_id\", \"_order\"");
        let ghost s0 = sql@;
        if names.len() > 0 {
            sql.append(", ");
            let joined = crate::text::join(&names, ", ");
            sql.append(joined.as_str());
        }
        assert(sql@ =~= s0 + columns);
        sql.append(")\n                   VALUES (");
        let joined_slots = crate::text::join(&slots, ", ");
        assert(joined_slots@ == seq_join(slots0 + value_slots(cells, *db_kind, start).0, ", "@));
        sql.append(joined_slots.as_str());
        sql.append(")");
        assert(sql@ =~= spec.0);
        let r = crate::json::json_array(&params);
        (sql, r)
    }
}


// ---------------------------------------------------------------------------
// Rows from JSON objects
// ---------------------------------------------------------------------------

/// The models of the fields of a JSON object.
pub open spec fn entry_views(e: Seq<(String, JsonValue)>) -> Seq<(Seq<char>, Json)> {
    e.map_values(|p: (String, JsonValue)| (p.0@, p.1@))
}

/// A field read as an unsigned integer, or 0 when it is missing or is not one.
pub open spec fn u64_field(e: Seq<(Seq<char>, Json)>, key: Seq<char>) -> u64 {
    match lookup(e, key) {
        Some(Json::Int(n)) => if 0 <= n <= u64::MAX { n as u64 } else { 0 },
        _ => 0,
    }
}

/// The cells of the fields whose names do not start with `_`, in order; a name that
/// occurs again takes the later value in the earlier place.
pub open spec fn initial_cells(e: Seq<(Seq<char>, Json)>) -> Seq<(Seq<char>, CellView)>
    decreases e.len(),
{
    if e.len() == 0 {
        Seq::empty()
    } else {
        let cells = initial_cells(e.drop_last());
        let (k, v) = e.last();
        if "_"@.is_prefix_of(k) {
            cells
        } else {
            insert_entry(cells, k, CellView { value: v, text: cell_text(v), messages: Seq::empty() })
        }
    }
}

/// The messages of a row: the `_message` field, an array or the text of one.
pub open spec fn message_list(e: Seq<(Seq<char>, Json)>) -> Seq<Json> {
    match lookup(e, "_message"@) {
        Some(Json::Str(s)) => match json_parse_spec(s) {
            Some(Json::Arr(a)) => a,
            _ => Seq::empty(),
        },
        Some(Json::Arr(a)) => a,
        _ => Seq::empty(),
    }
}

/// True for a message that names its column: an object whose `column` is a string.
pub open spec fn names_its_column(j: Json) -> bool {
    match j {
        Json::Obj(o) => lookup(o, "column"@) matches Some(Json::Str(_)),
        _ => false,
    }
}

/// The column that a message names.
pub open spec fn message_column(j: Json) -> Seq<char> {
    match j {
        Json::Obj(o) => match lookup(o, "column"@) {
            Some(Json::Str(c)) => c,
            _ => Seq::empty(),
        },
        _ => Seq::empty(),
    }
}

/// True when the row's messages can be read: a `_message` text is JSON, and each message
/// of an array names its column.
pub open spec fn messages_readable(e: Seq<(Seq<char>, Json)>) -> bool {
    &&& (lookup(e, "_message"@) matches Some(Json::Str(s)) ==> json_parse_spec(s) is Some)
    &&& forall|i: int| 0 <= i < message_list(e).len() ==> names_its_column(#[trigger] message_list(e)[i])
}

/// A message read from a JSON object with a `value`, and the strings `level`, `rule` and
/// `message`; `None` when one of them is missing or not of its type.
pub open spec fn parse_message(j: Json) -> Option<MessageView> {
    match j {
        Json::Obj(o) => match (lookup(o, "value"@), lookup(o, "level"@), lookup(o, "rule"@), lookup(o, "message"@)) {
            (Some(v), Some(Json::Str(l)), Some(Json::Str(r)), Some(Json::Str(m))) =>
                Some(MessageView { value: v, level: l, rule: r, message: m }),
            _ => None,
        },
        _ => None,
    }
}

/// The cells after the messages: each message that can be read is added to the cell of its
/// column, if there is one, and that cell takes the message's value.
pub open spec fn apply_messages(cells: Seq<(Seq<char>, CellView)>, messages: Seq<Json>) -> Seq<(Seq<char>, CellView)>
    decreases messages.len(),
{
    if messages.len() == 0 {
        cells
    } else {
        let before = apply_messages(cells, messages.drop_last());
        let j = messages.last();
        match parse_message(j) {
            None => before,
            Some(m) => match lookup(before, message_column(j)) {
                None => before,
                Some(cell) => insert_entry(before, message_column(j), CellView {
                    value: m.value,
                    text: json_string_spec(m.value),
                    messages: cell.messages.push(m),
                }),
            },
        }
    }
}

/// The row that a JSON object describes: its `_id`, `_order` and `_change_id`, the cells
/// of its other fields, and the messages in `_message` added to them.
pub open spec fn row_from_spec(e: Seq<(Seq<char>, Json)>) -> RowView {
    RowView {
        id: u64_field(e, "_id"@),
        order: u64_field(e, "_order"@),
        change_id: u64_field(e, "_change_id"@),
        cells: apply_messages(initial_cells(e), message_list(e)),
    }
}

fn field<'a>(entries: &'a Vec<(String, JsonValue)>, key: &str) -> (r: Option<&'a JsonValue>)
    ensures
        match r {
            Some(v) => lookup(entry_views(entries@), key@) == Some(v@),
            None => lookup(entry_views(entries@), key@) is None,
        },
{
    let ghost e = entry_views(entries@);
    let mut i: usize = 0;
    while i < entries.len()
        invariant
            i <= entries.len(),
            e == entry_views(entries@),
            key_pos(e.take(i as int), key@) == -1,
        decreases entries.len() - i,
    {
        assert(e.take(i + 1).drop_last() =~= e.take(i as int));
        if str_eq(entries[i].0.as_str(), key) {
            proof { crate::maps::lemma_key_pos_prefix(e, i + 1, key@); }
            return Some(&entries[i].1);
        }
        i = i + 1;
    }
    assert(e.take(i as int) =~= e);
    None
}

fn u64_of(v: Option<&JsonValue>) -> (r: u64)
    ensures
        r == match v {
            Some(j) => match j@ {
                Json::Int(n) => if 0 <= n <= u64::MAX { n as u64 } else { 0 },
                _ => 0,
            },
            None => 0,
        },
{
    match v {
        Some(JsonValue::Number(JsonNumber::PosInt(n))) => *n,
        Some(JsonValue::Number(JsonNumber::NegInt(n))) => if *n >= 0 { *n as u64 } else { 0 },
        _ => 0,
    }
}

/// The field of an object, as a string.
fn string_field(o: &Vec<(String, JsonValue)>, key: &str) -> (r: Option<String>)
    ensures
        match r {
            Some(s) => lookup(entry_views(o@), key@) == Some(Json::Str(s@)),
            None => !(lookup(entry_views(o@), key@) matches Some(Json::Str(_))),
        },
{
    match field(o, key) {
        Some(JsonValue::String(s)) => Some(s.clone()),
        _ => None,
    }
}

fn read_message(j: &JsonValue) -> (r: Option<Message>)
    ensures
        match r {
            Some(m) => parse_message(j@) == Some(m@),
            None => parse_message(j@) is None,
        },
{
    match j {
        JsonValue::Object(o) => {
            assert(j@ == Json::Obj(entry_views(o@))) by {
                assert(entry_views(o@) =~= match j@ { Json::Obj(x) => x, _ => Seq::empty() });
            }
            let value = match field(o, "value") {
                Some(v) => v.clone(),
                None => return None,
            };
            let level = match string_field(o, "level") {
                Some(s) => s,
                None => return None,
            };
            let rule = match string_field(o, "rule") {
                Some(s) => s,
                None => return None,
            };
            let message = match string_field(o, "message") {
                Some(s) => s,
                None => return None,
            };
            Some(Message { value, level, rule, message })
        },
        _ => None,
    }
}

fn object_entries(j: &JsonValue) -> (r: Option<&Vec<(String, JsonValue)>>)
    ensures
        match r {
            Some(o) => j@ == Json::Obj(entry_views(o@)),
            None => !(j@ is Obj),
        },
{
    match j {
        JsonValue::Object(o) => {
            assert(entry_views(o@) =~= match j@ { Json::Obj(x) => x, _ => Seq::empty() });
            Some(o)
        },
        _ => None,
    }
}

impl Row {
    /// The row of the fields of a JSON object, before its messages are added.
    fn initial(entries: &Vec<(String, JsonValue)>) -> (r: Row)
        ensures
            r@ == (RowView {
                id: u64_field(entry_views(entries@), "_id"@),
                order: u64_field(entry_views(entries@), "_order"@),
                change_id: u64_field(entry_views(entries@), "_change_id"@),
                cells: initial_cells(entry_views(entries@)),
            }),
    {
        let ghost e = entry_views(entries@);
        let id = u64_of(field(entries, "_id"));
        let order = u64_of(field(entries, "_order"));
        let change_id = u64_of(field(entries, "_change_id"));
        let mut cells = cell_map_new();
        let mut i: usize = 0;
        while i < entries.len()
            invariant
                i <= entries.len(),
                e == entry_views(entries@),
                cell_map_entries(cells) == initial_cells(e.take(i as int)),
            decreases entries.len() - i,
        {
            assert(e.take(i + 1).drop_last() =~= e.take(i as int));
            let name = &entries[i].0;
            if !starts_with(name.as_str(), "_") {
                let cell = Cell::from(&entries[i].1);
                cell_map_insert(&mut cells, name.clone(), cell);
            }
            i = i + 1;
        }
        assert(e.take(i as int) =~= e);
        Row { id, order, change_id, cells }
    }

    /// Adds each message that can be read to the cell of its column.
    fn add_messages(&mut self, messages: &Vec<JsonValue>)
        requires
            forall|i: int| 0 <= i < messages@.len() ==> names_its_column(#[trigger] messages@[i]@),
        ensures
            final(self)@ == (RowView { cells: apply_messages(old(self)@.cells, json_views(messages@)), ..old(self)@ }),
    {
        let ghost cells0 = old(self)@.cells;
        let ghost ms = json_views(messages@);
        let mut i: usize = 0;
        while i < messages.len()
            invariant
                i <= messages.len(),
                ms == json_views(messages@),
                forall|k: int| 0 <= k < messages@.len() ==> names_its_column(#[trigger] messages@[k]@),
                self@ == (RowView { cells: apply_messages(cells0, ms.take(i as int)), ..old(self)@ }),
            decreases messages.len() - i,
        {
            assert(ms.take(i + 1).drop_last() =~= ms.take(i as int));
            assert(ms[i as int] == messages@[i as int]@);
            let j = &messages[i];
            match read_message(j) {
                Some(m) => {
                    let o = match object_entries(j) {
                        Some(o) => o,
                        None => {
                            assert(false);
                            return;
                        },
                    };
                    let column = match string_field(o, "column") {
                        Some(c) => c,
                        None => {
                            assert(false);
                            return;
                        },
                    };
                    match cell_map_get(&self.cells, column.as_str()) {
                        Some(cell) => {
                            let mut new_cell = cell.clone();
                            new_cell.value = m.value.clone();
                            new_cell.text = json_to_string(&new_cell.value);
                            new_cell.messages.push(m);
                            assert(message_views(new_cell.messages@) =~= cell@.messages.push(m@));
                            cell_map_insert(&mut self.cells, column, new_cell);
                        },
                        None => {},
                    }
                },
                None => {},
            }
            i = i + 1;
        }
        assert(ms.take(i as int) =~= ms);
    }

    /// The row that a JSON object describes (see [row_from_spec]). Its messages must be
    /// readable (see [messages_readable]).
    pub fn from(entries: &Vec<(String, JsonValue)>) -> (r: Row)
        requires
            messages_readable(entry_views(entries@)),
        ensures
            r@ == row_from_spec(entry_views(entries@)),
    {
        let mut row = Row::initial(entries);
        let ghost e = entry_views(entries@);
        match field(entries, "_message") {
            Some(JsonValue::String(s)) => {
                match json_parse(s.as_str()) {
                    Some(JsonValue::Array(a)) => {
                        assert(json_views(a@) =~= message_list(e));
                        assert forall|i: int| 0 <= i < a@.len() implies names_its_column(#[trigger] a@[i]@) by {
                            assert(json_views(a@)[i] == a@[i]@);
                        }
                        row.add_messages(&a);
                    },
                    Some(_) => {
                        assert(message_list(e) =~= Seq::<Json>::empty());
                    },
                    None => {
                        assert(false);
                    },
                }
            },
            Some(JsonValue::Array(a)) => {
                assert(json_views(a@) =~= message_list(e));
                assert forall|i: int| 0 <= i < a@.len() implies names_its_column(#[trigger] a@[i]@) by {
                    assert(json_views(a@)[i] == a@[i]@);
                }
                row.add_messages(a);
            },
            _ => {},
        }
        row
    }

    /// The row that a JSON object describes, or `None` when its messages cannot be read.
    pub fn try_from(entries: &Vec<(String, JsonValue)>) -> (r: Option<Row>)
        ensures
            match r {
                Some(row) => messages_readable(entry_views(entries@)) && row@ == row_from_spec(entry_views(entries@)),
                None => !messages_readable(entry_views(entries@)),
            },
    {
        let ghost e = entry_views(entries@);
        let list: Vec<JsonValue> = match field(entries, "_message") {
            Some(JsonValue::String(s)) => match json_parse(s.as_str()) {
                Some(JsonValue::Array(a)) => a,
                Some(_) => Vec::new(),
                None => return None,
            },
            Some(JsonValue::Array(a)) => a.clone(),
            _ => Vec::new(),
        };
        assert(json_views(list@) =~= message_list(e));
        let mut i: usize = 0;
        while i < list.len()
            invariant
                i <= list.len(),
                e == entry_views(entries@),
                json_views(list@) == message_list(e),
                forall|k: int| 0 <= k < i ==> names_its_column(#[trigger] list@[k]@),
            decreases list.len() - i,
        {
            let ok = match object_entries(&list[i]) {
                Some(o) => string_field(o, "column").is_some(),
                None => false,
            };
            if !ok {
                assert(json_views(list@)[i as int] == list@[i as int]@);
                assert(!names_its_column(message_list(e)[i as int]));
                return None;
            }
            i = i + 1;
        }
        assert forall|k: int| 0 <= k < message_list(e).len() implies names_its_column(#[trigger] message_list(e)[k]) by {
            assert(json_views(list@)[k] == list@[k]@);
        }
        Some(Row::from(entries))
    }
}


// ---------------------------------------------------------------------------
// Validating the cells of a row
// ---------------------------------------------------------------------------

/// The configuration of a column of the table, or an empty column.
pub open spec fn config_of(t: crate::table::TableView, name: Seq<char>) -> ColumnView {
    match lookup(t.columns, name) {
        Some(c) => c,
        None => crate::column::empty_column_view(),
    }
}

/// A cell after its check against the SQL type of its column.
pub open spec fn validated(c: CellView, column: ColumnView, e: Seq<(Seq<char>, DatatypeView)>) -> CellView {
    let t = column_type(column, e);
    if fits_sql_type(c.value, t) {
        c
    } else {
        CellView { messages: c.messages.push(sql_type_message(c.value, column.column, t)), ..c }
    }
}

/// True when the cell's column has a SQL type that cells are checked against.
pub open spec fn cell_checkable(cells: Seq<(Seq<char>, CellView)>, i: int, t: crate::table::TableView, e: Seq<(Seq<char>, DatatypeView)>) -> bool {
    supported_sql_type(column_type(config_of(t, cells[i].0), e))
}

/// The cells after the first `n` have been checked, in order, stopping at the first
/// whose column's SQL type is not supported: that cell and those after it are kept.
pub open spec fn checked_cells(cells: Seq<(Seq<char>, CellView)>, t: crate::table::TableView, e: Seq<(Seq<char>, DatatypeView)>, stop: int, n: nat) -> Seq<(Seq<char>, CellView)>
    decreases n,
{
    if n == 0 || n > cells.len() {
        Seq::empty()
    } else {
        let i = n - 1;
        let (k, c) = cells[i];
        insert_entry(checked_cells(cells, t, e, stop, (n - 1) as nat), k,
            if i < stop { validated(c, config_of(t, k), e) } else { c })
    }
}

/// The position of the first cell whose column's SQL type is not supported, or the number
/// of cells.
pub open spec fn first_unchecked(cells: Seq<(Seq<char>, CellView)>, t: crate::table::TableView, e: Seq<(Seq<char>, DatatypeView)>) -> int {
    if exists|i: int| 0 <= i < cells.len() && !cell_checkable(cells, i, t, e) {
        choose|i: int| 0 <= i < cells.len() && !cell_checkable(cells, i, t, e)
            && forall|j: int| 0 <= j < i ==> cell_checkable(cells, j, t, e)
    } else {
        cells.len() as int
    }
}

impl Row {
    /// Check each cell against the SQL type of its column in the table (see
    /// [Cell::validate_sql_type]), in order. A column whose SQL type is not supported is an
    /// input error, and the cells from its cell on are left as they were.
    pub fn validate_sql_types(&mut self, datatypes: &Datatypes, table: &crate::table::Table) -> (r: Result<(), RelatableError>)
        requires
            forall|i: int| 0 <= i < old(self)@.cells.len()
                ==> sql_type_found(config_of(table@, #[trigger] old(self)@.cells[i].0), datatypes@),
        ensures
            final(self)@.id == old(self)@.id,
            final(self)@.order == old(self)@.order,
            final(self)@.change_id == old(self)@.change_id,
            final(self)@.cells == checked_cells(old(self)@.cells, table@, datatypes@,
                first_unchecked(old(self)@.cells, table@, datatypes@), old(self)@.cells.len()),
            r is Ok <==> first_unchecked(old(self)@.cells, table@, datatypes@) == old(self)@.cells.len(),
            r matches Err(e) ==> e is InputError,
    {
        let ghost cells = cell_map_entries(self.cells);
        let ghost stop = first_unchecked(cells, table@, datatypes@);
        proof {
            if exists|i: int| 0 <= i < cells.len() && !cell_checkable(cells, i, table@, datatypes@) {
                let w = choose|i: int| 0 <= i < cells.len() && !cell_checkable(cells, i, table@, datatypes@);
                lemma_first_failure(cells, table@, datatypes@, w);
            }
        }
        assert(cells == old(self)@.cells);
        assert forall|k: int| 0 <= k < cells.len() implies sql_type_found(config_of(table@, #[trigger] cells[k].0), datatypes@) by {
            assert(old(self)@.cells[k].0 == cells[k].0);
        }
        assert(0 <= stop <= cells.len() && (forall|j: int| 0 <= j < stop ==> cell_checkable(cells, j, table@, datatypes@))
            && (stop < cells.len() ==> !cell_checkable(cells, stop, table@, datatypes@)));
        let n = cell_map_len(&self.cells);
        let mut out = cell_map_new();
        let mut result: Result<(), RelatableError> = Ok(());
        let mut failed = false;
        let mut i: usize = 0;
        while i < n
            invariant
                i <= n,
                n == cells.len(),
                cells == cell_map_entries(self.cells),
                forall|k: int| 0 <= k < cells.len() ==> sql_type_found(config_of(table@, #[trigger] cells[k].0), datatypes@),
                0 <= stop <= cells.len(),
                forall|j: int| 0 <= j < stop ==> cell_checkable(cells, j, table@, datatypes@),
                stop < cells.len() ==> !cell_checkable(cells, stop, table@, datatypes@),
                failed <==> stop < i,
                result is Ok <==> !failed,
                result matches Err(e) ==> e is InputError,
                cell_map_entries(out) == checked_cells(cells, table@, datatypes@, stop, i as nat),
            decreases n - i,
        {
            let (name, cell) = match cell_map_get_index(&self.cells, i) {
                Some(p) => p,
                None => {
                    assert(false);
                    return Ok(());
                },
            };
            assert(cells[i as int] == (name@, cell@));
            assert(cells[i as int].0 == name@);
            let mut c = cell.clone();
            if !failed {
                let column = table.get_config_for_column(name.as_str());
                assert(column@ == config_of(table@, name@));
                assert(sql_type_found(config_of(table@, cells[i as int].0), datatypes@));
                match c.validate_sql_type(datatypes, &column) {
                    Ok(()) => {
                        assert(cell_checkable(cells, i as int, table@, datatypes@));
                        assert(stop != i);
                        assert(c@ == validated(cell@, config_of(table@, name@), datatypes@)) by {
                            assert(c@.messages =~= validated(cell@, config_of(table@, name@), datatypes@).messages);
                        }
                    },
                    Err(e) => {
                        assert(!cell_checkable(cells, i as int, table@, datatypes@));
                        assert(stop == i);
                        failed = true;
                        result = Err(e);
                        assert(c@ == cell@);
                    },
                }
            }
            cell_map_insert(&mut out, name.clone(), c);
            i = i + 1;
        }
        self.cells = out;
        result
    }
}

proof fn lemma_first_failure(cells: Seq<(Seq<char>, CellView)>, t: crate::table::TableView, e: Seq<(Seq<char>, DatatypeView)>, w: int)
    requires
        0 <= w < cells.len(),
        !cell_checkable(cells, w, t, e),
    ensures
        exists|i: int| 0 <= i < cells.len() && !cell_checkable(cells, i, t, e)
            && forall|j: int| 0 <= j < i ==> cell_checkable(cells, j, t, e),
    decreases w,
{
    if exists|j: int| 0 <= j < w && !cell_checkable(cells, j, t, e) {
        let j = choose|j: int| 0 <= j < w && !cell_checkable(cells, j, t, e);
        lemma_first_failure(cells, t, e, j);
    } else {
        assert(forall|j: int| 0 <= j < w ==> cell_checkable(cells, j, t, e));
    }
}

} // verus!
