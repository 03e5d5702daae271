//! The schema of a database: its tables, their columns and the datatypes.
use vstd::prelude::*;

use crate::column::{Column, ColumnView, Columns};
use crate::datatype::Datatypes;
use crate::error::RelatableError;
use crate::json::{Json, JsonValue};
use crate::maps::{insert_entry, key_pos, lookup};
use crate::row::entry_views;
use crate::table::{Table, TableView};
use crate::text::{owned, str_eq, views};

verus! {

broadcast use vstd::std_specs::vec::group_vec_axioms;

/// The entries of a map from table names to tables.
pub uninterp spec fn table_entries(m: indexmap::IndexMap<String, Table>) -> Seq<(Seq<char>, TableView)>;

/// `IndexMap::get`: the value stored under the key.
#[verifier::external_body]
fn table_map_get<'a>(m: &'a indexmap::IndexMap<String, Table>, key: &str) -> (r: Option<&'a Table>)
    ensures
        match r {
            Some(v) => lookup(table_entries(*m), key@) == Some(v@),
            None => lookup(table_entries(*m), key@) is None,
        },
{
    m.get(key)
}

/// `IndexMap::len`: the number of entries.
#[verifier::external_body]
fn table_map_len(m: &indexmap::IndexMap<String, Table>) -> (r: usize)
    ensures
        r == table_entries(*m).len(),
{
    m.len()
}

/// `IndexMap::get_index`: the entry at a position; an `IndexMap` holds each key once,
/// so no earlier entry has the same key.
#[verifier::external_body]
fn table_map_get_index<'a>(m: &'a indexmap::IndexMap<String, Table>, index: usize) -> (r: Option<(&'a String, &'a Table)>)
    ensures
        match r {
            Some((k, v)) => index < table_entries(*m).len() && table_entries(*m)[index as int] == (k@, v@)
                && crate::maps::key_pos(table_entries(*m), k@) == index,
            None => index >= table_entries(*m).len(),
        },
{
    m.get_index(index)
}

/// The tables, columns and datatypes of a database.
#[derive(Debug)]
pub struct Schema {
    pub tables: indexmap::IndexMap<String, Table>,
    pub columns: Columns,
    pub datatypes: Datatypes,
}

/// The columns of a table, in order.
pub open spec fn table_columns(columns: Seq<ColumnView>, table: Seq<char>) -> Seq<ColumnView>
    decreases columns.len(),
{
    if columns.len() == 0 {
        Seq::empty()
    } else {
        let rest = table_columns(columns.drop_last(), table);
        if columns.last().table == table { rest.push(columns.last()) } else { rest }
    }
}

/// The columns keyed by their names: a name that occurs again takes the later column in
/// the earlier place.
pub open spec fn by_name(columns: Seq<ColumnView>) -> Seq<(Seq<char>, ColumnView)>
    decreases columns.len(),
{
    if columns.len() == 0 {
        Seq::empty()
    } else {
        insert_entry(by_name(columns.drop_last()), columns.last().column, columns.last())
    }
}

/// The first column with the table name and column name.
pub open spec fn first_column(columns: Seq<ColumnView>, table: Seq<char>, column: Seq<char>) -> Option<ColumnView>
    decreases columns.len(),
{
    if columns.len() == 0 {
        None
    } else {
        match first_column(columns.drop_last(), table, column) {
            Some(c) => Some(c),
            None => if columns.last().table == table && columns.last().column == column {
                Some(columns.last())
            } else {
                None
            },
        }
    }
}

/// The nulltype of a column of a table: the first matching column's, or none.
pub open spec fn nulltype_of(columns: Seq<ColumnView>, table: Seq<char>, column: Seq<char>) -> Seq<char> {
    match first_column(columns, table, column) {
        Some(c) => c.nulltype,
        None => Seq::empty(),
    }
}

/// The value with the column's nulltype applied: with the nulltype `empty`, an empty
/// string is null; values are otherwise kept.
pub open spec fn nullify_spec(nulltype: Seq<char>, value: Json) -> Json {
    if nulltype == "empty"@ && value == Json::Str(Seq::empty()) { Json::Null } else { value }
}

/// Applying a nulltype twice is applying it once.
pub proof fn lemma_nullify_idempotent(nulltype: Seq<char>, value: Json)
    ensures
        nullify_spec(nulltype, nullify_spec(nulltype, value)) == nullify_spec(nulltype, value),
{
}

/// The fields of a row with the nulltypes of the table's columns applied.
pub open spec fn nullify_row_spec(columns: Seq<ColumnView>, table: Seq<char>, row: Seq<(Seq<char>, Json)>) -> Seq<(Seq<char>, Json)>
    decreases row.len(),
{
    if row.len() == 0 {
        Seq::empty()
    } else {
        let (k, v) = row.last();
        insert_entry(nullify_row_spec(columns, table, row.drop_last()), k, nullify_spec(nulltype_of(columns, table, k), v))
    }
}

/// The table that a column takes its values from, by its first structure: the structure's
/// table, if it names one.
pub open spec fn source_table(c: ColumnView) -> Option<Seq<char>> {
    if c.structure.len() > 0 { c.structure[0].0 } else { None }
}

/// True when some column of the table takes its values from the other table.
pub open spec fn depends_on_table(columns: Seq<ColumnView>, table: Seq<char>, other: Seq<char>) -> bool {
    exists|i: int| 0 <= i < columns.len() && #[trigger] columns[i].table == table
        && source_table(columns[i]) == Some(other)
}

fn first_column_of<'a>(list: &'a Vec<Column>, table: &str, column: &str) -> (r: Option<&'a Column>)
    ensures
        match r {
            Some(c) => first_column(list@.map_values(|c: Column| c@), table@, column@) == Some(c@),
            None => first_column(list@.map_values(|c: Column| c@), table@, column@) is None,
        },
{
    let ghost all = list@.map_values(|c: Column| c@);
    let mut i: usize = 0;
    while i < list.len()
        invariant
            i <= list.len(),
            all == list@.map_values(|c: Column| c@),
            first_column(all.take(i as int), table@, column@) is None,
        decreases list.len() - i,
    {
        assert(all.take(i + 1).drop_last() =~= all.take(i as int));
        let c = &list[i];
        assert(all.take(i + 1).last() == c@);
        if str_eq(c.table.as_str(), table) && str_eq(c.column.as_str(), column) {
            proof { lemma_first_column_prefix(all, i + 1, table@, column@); }
            return Some(c);
        }
        i = i + 1;
    }
    assert(all.take(i as int) =~= all);
    None
}

/// True when the table takes values from the target, or from one of the tables `found`.
pub open spec fn takes_from(columns: Seq<ColumnView>, table: Seq<char>, target: Seq<char>, found: Seq<Seq<char>>) -> bool {
    depends_on_table(columns, table, target)
        || exists|m: int| 0 <= m < found.len() && #[trigger] depends_on_table(columns, table, found[m])
}

/// One round of the search for dependents: the names of the first `i` tables of the map,
/// in order, that take values from the target or from one of the tables `found`.
pub open spec fn reach_round(entries: Seq<(Seq<char>, TableView)>, columns: Seq<ColumnView>, target: Seq<char>, found: Seq<Seq<char>>, i: nat) -> Seq<Seq<char>>
    decreases i,
{
    if i == 0 || i > entries.len() {
        Seq::empty()
    } else {
        let r = reach_round(entries, columns, target, found, (i - 1) as nat);
        if takes_from(columns, entries[i - 1].1.name, target, found) { r.push(entries[i - 1].1.name) } else { r }
    }
}

/// The names of the tables that depend on the target through a chain of at most `k`
/// `from()` dependencies.
pub open spec fn reached_names(entries: Seq<(Seq<char>, TableView)>, columns: Seq<ColumnView>, target: Seq<char>, k: nat) -> Seq<Seq<char>>
    decreases k,
{
    if k == 0 {
        Seq::empty()
    } else {
        reach_round(entries, columns, target, reached_names(entries, columns, target, (k - 1) as nat), entries.len())
    }
}

/// The tables among the first entries whose names are among `names`, in order, each name once.
pub open spec fn tables_named(entries: Seq<(Seq<char>, TableView)>, names: Seq<Seq<char>>) -> Seq<TableView>
    decreases entries.len(),
{
    if entries.len() == 0 {
        Seq::empty()
    } else {
        let prev = tables_named(entries.drop_last(), names);
        let t = entries.last().1;
        if names.contains(t.name) && !(exists|p: int| 0 <= p < prev.len() && #[trigger] prev[p].name == t.name) {
            prev.push(t)
        } else {
            prev
        }
    }
}

/// The tables that depend on the target table, directly or through other tables, by the
/// `from()` structures of their columns: those that reach it by a chain of dependencies
/// among the tables of the map (no chain needs more steps than there are tables); in the
/// order of the map, each name once.
pub open spec fn dependent_tables_spec(entries: Seq<(Seq<char>, TableView)>, columns: Seq<ColumnView>, target: Seq<char>) -> Seq<TableView> {
    tables_named(entries, reached_names(entries, columns, target, entries.len()))
}

proof fn lemma_first_column_prefix(columns: Seq<ColumnView>, n: int, table: Seq<char>, column: Seq<char>)
    requires
        0 <= n <= columns.len(),
        first_column(columns.take(n), table, column) is Some,
    ensures
        first_column(columns, table, column) == first_column(columns.take(n), table, column),
    decreases columns.len() - n,
{
    if n < columns.len() {
        assert(columns.drop_last().take(n) =~= columns.take(n));
        lemma_first_column_prefix(columns.drop_last(), n, table, column);
    } else {
        assert(columns.take(n) =~= columns);
    }
}

fn find_column_name(v: &Vec<&Column>, name: &str) -> (r: Option<usize>)
    ensures
        match r {
            Some(k) => k < v@.len() && key_pos(v@.map_values(|c: &Column| (c@.column, c@)), name@) == k,
            None => key_pos(v@.map_values(|c: &Column| (c@.column, c@)), name@) == -1,
        },
{
    let ghost e = v@.map_values(|c: &Column| (c@.column, c@));
    let mut k: usize = 0;
    while k < v.len()
        invariant
            k <= v.len(),
            e == v@.map_values(|c: &Column| (c@.column, c@)),
            key_pos(e.take(k as int), name@) == -1,
        decreases v.len() - k,
    {
        assert(e.take(k + 1).drop_last() =~= e.take(k as int));
        if str_eq(v[k].column.as_str(), name) {
            proof { crate::maps::lemma_key_pos_prefix(e, k + 1, name@); }
            return Some(k);
        }
        k = k + 1;
    }
    assert(e.take(k as int) =~= e);
    None
}

fn find_field(v: &Vec<(String, JsonValue)>, name: &str) -> (r: Option<usize>)
    ensures
        match r {
            Some(k) => k < v@.len() && key_pos(entry_views(v@), name@) == k,
            None => key_pos(entry_views(v@), name@) == -1,
        },
{
    let ghost e = entry_views(v@);
    let mut k: usize = 0;
    while k < v.len()
        invariant
            k <= v.len(),
            e == entry_views(v@),
            key_pos(e.take(k as int), name@) == -1,
        decreases v.len() - k,
    {
        assert(e.take(k + 1).drop_last() =~= e.take(k as int));
        if str_eq(v[k].0.as_str(), name) {
            proof { crate::maps::lemma_key_pos_prefix(e, k + 1, name@); }
            return Some(k);
        }
        k = k + 1;
    }
    assert(e.take(k as int) =~= e);
    None
}

fn contains_text(v: &Vec<String>, t: &str) -> (r: bool)
    ensures
        r == exists|x: int| 0 <= x < v@.len() && #[trigger] v@[x]@ == t@,
{
    let mut k: usize = 0;
    while k < v.len()
        invariant
            k <= v.len(),
            forall|x: int| 0 <= x < k ==> v@[x]@ != t@,
        decreases v.len() - k,
    {
        if str_eq(v[k].as_str(), t) {
            assert(v@[k as int]@ == t@);
            return true;
        }
        k = k + 1;
    }
    false
}

impl Schema {
    /// The table with this name; a missing table is a missing error.
    pub fn table(&self, table_name: &str) -> (r: Result<&Table, RelatableError>)
        ensures
            match r {
                Ok(t) => lookup(table_entries(self.tables), table_name@) == Some(t@),
                Err(e) => lookup(table_entries(self.tables), table_name@) is None && e is MissingError
                    && e.message_view() == "No such table "@ + table_name@,
            },
    {
        match table_map_get(&self.tables, table_name) {
            Some(t) => Ok(t),
            None => {
                let mut m = owned("No such table ");
                m.append(table_name);
                Err(RelatableError::MissingError(m))
            },
        }
    }

    /// The first column with this table name and column name, or `None`.
    pub fn column(&self, table_name: &str, column_name: &str) -> (r: Option<&Column>)
        ensures
            match r {
                Some(c) => exists|i: int| 0 <= i < self.columns@.len() && self.columns@[i] == c@
                    && c@.table == table_name@ && c@.column == column_name@
                    && forall|j: int| 0 <= j < i
                        ==> !(self.columns@[j].table == table_name@ && self.columns@[j].column == column_name@),
                None => forall|j: int| 0 <= j < self.columns@.len()
                    ==> !(self.columns@[j].table == table_name@ && self.columns@[j].column == column_name@),
            },
    {
        self.columns.column(table_name, column_name)
    }

    /// The columns of the table keyed by their names, in order (see [by_name]).
    pub fn columns(&self, table_name: &str) -> (r: Vec<&Column>)
        ensures
            r@.map_values(|c: &Column| (c@.column, c@)) == by_name(table_columns(self.columns@, table_name@)),
    {
        let list = self.columns.list();
        let ghost all = self.columns@;
        let mut out: Vec<&Column> = Vec::new();
        let mut i: usize = 0;
        while i < list.len()
            invariant
                i <= list.len(),
                all == list@.map_values(|c: Column| c@),
                out@.map_values(|c: &Column| (c@.column, c@)) == by_name(table_columns(all.take(i as int), table_name@)),
            decreases list.len() - i,
        {
            assert(all.take(i + 1).drop_last() =~= all.take(i as int));
            let c = &list[i];
            assert(all.take(i + 1).last() == c@);
            let ghost tc_prev = table_columns(all.take(i as int), table_name@);
            if str_eq(c.table.as_str(), table_name) {
                assert(table_columns(all.take(i + 1), table_name@) == tc_prev.push(c@));
                assert(tc_prev.push(c@).drop_last() =~= tc_prev);
                assert(by_name(tc_prev.push(c@)) == insert_entry(by_name(tc_prev), c@.column, c@));
                let ghost before = out@.map_values(|c: &Column| (c@.column, c@));
                match find_column_name(&out, c.column.as_str()) {
                    Some(k) => {
                        out.set(k, c);
                        assert(out@.map_values(|c: &Column| (c@.column, c@)) =~= insert_entry(before, c@.column, c@));
                    },
                    None => {
                        out.push(c);
                        assert(out@.map_values(|c: &Column| (c@.column, c@)) =~= insert_entry(before, c@.column, c@));
                    },
                }
            }
            i = i + 1;
        }
        assert(all.take(i as int) =~= all);
        out
    }

    /// The value with the nulltype of the column of the table applied (see [nullify_spec]).
    /// A column without configuration, or without a nulltype, keeps the value.
    pub fn nullify_value(&self, table_name: &str, column_name: &str, value: &JsonValue) -> (r: JsonValue)
        ensures
            r@ == nullify_spec(nulltype_of(self.columns@, table_name@, column_name@), value@),
    {
        let nulltype = match first_column_of(self.columns.list(), table_name, column_name) {
            Some(c) => c.nulltype.clone(),
            None => String::new(),
        };
        if str_eq(nulltype.as_str(), "empty") {
            match value {
                JsonValue::String(s) => if s.unicode_len() == 0 {
                    assert(s@ =~= Seq::<char>::empty());
                    return JsonValue::Null;
                },
                _ => {},
            }
        }
        value.clone()
    }

    /// The fields of the row with the nulltypes of the table's columns applied; a field
    /// name that occurs again takes the later value in the earlier place.
    pub fn nullify_row(&self, table_name: &str, row: &Vec<(String, JsonValue)>) -> (r: Vec<(String, JsonValue)>)
        ensures
            entry_views(r@) == nullify_row_spec(self.columns@, table_name@, entry_views(row@)),
    {
        let ghost e = entry_views(row@);
        let mut out: Vec<(String, JsonValue)> = Vec::new();
        let mut i: usize = 0;
        while i < row.len()
            invariant
                i <= row.len(),
                e == entry_views(row@),
                entry_views(out@) == nullify_row_spec(self.columns@, table_name@, e.take(i as int)),
            decreases row.len() - i,
        {
            assert(e.take(i + 1).drop_last() =~= e.take(i as int));
            let name = &row[i].0;
            let v = self.nullify_value(table_name, name.as_str(), &row[i].1);
            let ghost before = entry_views(out@);
            match find_field(&out, name.as_str()) {
                Some(k) => {
                    proof { crate::maps::lemma_key_pos(before, name@); }
                    let key = out[k].0.clone();
                    assert(key@ == name@);
                    out.set(k, (key, v));
                    assert(entry_views(out@) =~= insert_entry(before, name@, v@));
                },
                None => {
                    out.push((name.clone(), v));
                    assert(entry_views(out@) =~= insert_entry(before, name@, v@));
                },
            }
            assert(e.take(i + 1).last() == (name@, row@[i as int].1@));
            assert(entry_views(out@) =~= nullify_row_spec(self.columns@, table_name@, e.take(i + 1)));
            i = i + 1;
        }
        assert(e.take(i as int) =~= e);
        out
    }

    /// The tables that the table takes values from, by the first `from()` structure of each
    /// of its columns; each once.
    pub fn table_depends_on(&self, table_name: &str) -> (r: Vec<String>)
        ensures
            forall|i: int, j: int| 0 <= i < j < r@.len() ==> r@[i]@ != r@[j]@,
            forall|t: Seq<char>| #![trigger depends_on_table(self.columns@, table_name@, t)]
                depends_on_table(self.columns@, table_name@, t)
                <==> exists|i: int| 0 <= i < r@.len() && #[trigger] r@[i]@ == t,
    {
        let list = self.columns.list();
        let ghost all = self.columns@;
        let mut out: Vec<String> = Vec::new();
        let mut i: usize = 0;
        while i < list.len()
            invariant
                i <= list.len(),
                all == list@.map_values(|c: Column| c@),
                forall|a: int, b: int| 0 <= a < b < out@.len() ==> out@[a]@ != out@[b]@,
                forall|t: Seq<char>| #![trigger depends_on_table(all.take(i as int), table_name@, t)]
                    depends_on_table(all.take(i as int), table_name@, t)
                    <==> exists|k: int| 0 <= k < out@.len() && #[trigger] out@[k]@ == t,
            decreases list.len() - i,
        {
            let c = &list[i];
            assert(all[i as int] == c@);
            let slist = c.structure.list();
            assert(slist@.map_values(|x: crate::structure::Structure| x@) == c@.structure);
            let source: Option<&String> = if slist.len() > 0 {
                assert(c@.structure[0] == slist@[0]@);
                match &slist[0] {
                    crate::structure::Structure::From(t, _) => match t {
                        Some(t) => Some(t),
                        None => None,
                    },
                }
            } else {
                None
            };
            let ghost prev = all.take(i as int);
            let ghost next = all.take(i + 1);
            assert forall|x: int| 0 <= x < i implies next[x] == prev[x] by {}
            match source {
                Some(t) if str_eq(c.table.as_str(), table_name) => {
                    assert(source_table(c@) == Some(t@));
                    let seen = contains_text(&out, t.as_str());
                    let ghost old_out = out@;
                    let ghost k = if seen { choose|x: int| 0 <= x < out@.len() && #[trigger] out@[x]@ == t@ } else { 0 };
                    if !seen {
                        out.push(t.clone());
                    }
                    assert(next[i as int] == c@);
                    assert forall|x: int| 0 <= x < old_out.len() implies #[trigger] out@[x] == old_out[x] by {}
                    assert forall|u: Seq<char>| #![trigger depends_on_table(next, table_name@, u)]
                        depends_on_table(next, table_name@, u)
                        ==> exists|x: int| 0 <= x < out@.len() && #[trigger] out@[x]@ == u by {
                        if depends_on_table(next, table_name@, u) {
                            let w = choose|w: int| 0 <= w < next.len() && #[trigger] next[w].table == table_name@
                                && source_table(next[w]) == Some(u);
                            if w < i {
                                assert(prev[w] == next[w]);
                                assert(depends_on_table(prev, table_name@, u));
                                let y = choose|y: int| 0 <= y < old_out.len() && #[trigger] old_out[y]@ == u;
                                assert(out@[y]@ == u);
                            } else if seen {
                                assert(u == t@);
                                assert(out@[k]@ == u);
                            } else {
                                assert(u == t@);
                                assert(out@[out@.len() - 1]@ == u);
                            }
                        }
                    }
                    assert forall|u: Seq<char>| #![trigger depends_on_table(next, table_name@, u)]
                        (exists|x: int| 0 <= x < out@.len() && #[trigger] out@[x]@ == u)
                        ==> depends_on_table(next, table_name@, u) by {
                        if exists|x: int| 0 <= x < out@.len() && #[trigger] out@[x]@ == u {
                            let x = choose|x: int| 0 <= x < out@.len() && #[trigger] out@[x]@ == u;
                            if !seen && x == out@.len() - 1 {
                                assert(u == t@);
                                assert(next[i as int].table == table_name@ && source_table(next[i as int]) == Some(u));
                            } else {
                                assert(old_out[x]@ == u);
                                assert(depends_on_table(prev, table_name@, u));
                                let w = choose|w: int| 0 <= w < prev.len() && #[trigger] prev[w].table == table_name@
                                    && source_table(prev[w]) == Some(u);
                                assert(next[w] == prev[w]);
                                assert(next[w].table == table_name@);
                            }
                        }
                    }
                },
                _ => {
                    assert(!(c@.table == table_name@ && source_table(c@) is Some)) by {
                        if c@.table == table_name@ && c@.structure.len() > 0 {
                            assert(c@.structure[0] == slist@[0]@);
                        }
                    }
                    assert forall|u: Seq<char>| #![trigger depends_on_table(next, table_name@, u)]
                        depends_on_table(next, table_name@, u) <== depends_on_table(prev, table_name@, u) by {
                        if depends_on_table(prev, table_name@, u) {
                            let w = choose|w: int| 0 <= w < prev.len() && #[trigger] prev[w].table == table_name@
                                && source_table(prev[w]) == Some(u);
                            assert(next[w] == prev[w]);
                        }
                    }
                    assert forall|u: Seq<char>| #![trigger depends_on_table(next, table_name@, u)]
                        depends_on_table(next, table_name@, u) ==> depends_on_table(prev, table_name@, u) by {
                        if depends_on_table(next, table_name@, u) {
                            let w = choose|w: int| 0 <= w < next.len() && #[trigger] next[w].table == table_name@
                                && source_table(next[w]) == Some(u);
                            assert(w < i);
                            assert(next[w] == prev[w]);
                        }
                    }
                },
            }
            i = i + 1;
        }
        assert(all.take(i as int) =~= all);
        out
    }

    /// One round of the search for dependents (see [reach_round]).
    fn dependents_round(&self, table_name: &str, found: &Vec<String>) -> (r: Vec<String>)
        ensures
            views(r@) == reach_round(table_entries(self.tables), self.columns@, table_name@, views(found@),
                table_entries(self.tables).len()),
    {
        let ghost entries = table_entries(self.tables);
        let ghost fv = views(found@);
        let n = table_map_len(&self.tables);
        let mut next: Vec<String> = Vec::new();
        let mut i: usize = 0;
        while i < n
            invariant
                i <= n,
                n == entries.len(),
                entries == table_entries(self.tables),
                fv == views(found@),
                views(next@) == reach_round(entries, self.columns@, table_name@, fv, i as nat),
            decreases n - i,
        {
            match table_map_get_index(&self.tables, i) {
                Some((_, t)) => {
                    assert(entries[i as int].1 == t@);
                    let deps = self.table_depends_on(t.name.as_str());
                    let mut hit = contains_text(&deps, table_name);
                    assert(hit == depends_on_table(self.columns@, t@.name, table_name@));
                    let mut m: usize = 0;
                    while m < found.len() && !hit
                        invariant
                            m <= found.len(),
                            fv == views(found@),
                            hit == (depends_on_table(self.columns@, t@.name, table_name@)
                                || exists|x: int| 0 <= x < m && #[trigger] depends_on_table(self.columns@, t@.name, fv[x])),
                            forall|u: Seq<char>| #![trigger depends_on_table(self.columns@, t@.name, u)]
                                depends_on_table(self.columns@, t@.name, u)
                                <==> exists|k: int| 0 <= k < deps@.len() && #[trigger] deps@[k]@ == u,
                        decreases found.len() - m,
                    {
                        assert(fv[m as int] == found@[m as int]@);
                        if contains_text(&deps, found[m].as_str()) {
                            assert(depends_on_table(self.columns@, t@.name, fv[m as int]));
                            hit = true;
                        }
                        m = m + 1;
                    }
                    assert(hit == takes_from(self.columns@, t@.name, table_name@, fv));
                    if hit {
                        let ghost before = next@;
                        next.push(t.name.clone());
                        proof { crate::text::lemma_views_push(before, next@.last()); }
                        assert(next@ == before.push(next@.last()));
                    }
                },
                None => {},
            }
            i = i + 1;
        }
        next
    }

    /// The tables that depend on this table, directly or through other tables, by the
    /// `from()` structures of their columns, in order, each name once (see
    /// [dependent_tables_spec]).
    pub fn dependent_tables(&self, table_name: &str) -> (r: Vec<&Table>)
        ensures
            r@.map_values(|t: &Table| t@) == dependent_tables_spec(table_entries(self.tables), self.columns@, table_name@),
    {
        let ghost entries = table_entries(self.tables);
        let n = table_map_len(&self.tables);
        let mut found: Vec<String> = Vec::new();
        let mut round: usize = 0;
        assert(views(found@) =~= reached_names(entries, self.columns@, table_name@, 0));
        while round < n
            invariant
                round <= n,
                n == entries.len(),
                entries == table_entries(self.tables),
                views(found@) == reached_names(entries, self.columns@, table_name@, round as nat),
            decreases n - round,
        {
            found = self.dependents_round(table_name, &found);
            round = round + 1;
        }
        let ghost names = views(found@);
        let mut out: Vec<&Table> = Vec::new();
        let mut i: usize = 0;
        while i < n
            invariant
                i <= n,
                n == entries.len(),
                entries == table_entries(self.tables),
                names == views(found@),
                names == reached_names(entries, self.columns@, table_name@, n as nat),
                out@.map_values(|t: &Table| t@) == tables_named(entries.take(i as int), names),
            decreases n - i,
        {
            assert(entries.take(i + 1).drop_last() =~= entries.take(i as int));
            let ghost prev = out@.map_values(|t: &Table| t@);
            match table_map_get_index(&self.tables, i) {
                Some((_, t)) => {
                    assert(entries.take(i + 1).last().1 == t@);
                    let listed = contains_text(&found, t.name.as_str());
                    assert(listed == names.contains(t@.name)) by {
                        if listed {
                            let x = choose|x: int| 0 <= x < found@.len() && #[trigger] found@[x]@ == t@.name;
                            assert(names[x] == t@.name);
                        }
                        if names.contains(t@.name) {
                            let x = choose|x: int| 0 <= x < names.len() && names[x] == t@.name;
                            assert(found@[x]@ == t@.name);
                        }
                    }
                    if listed {
                        let mut k: usize = 0;
                        let mut dup = false;
                        while k < out.len()
                            invariant
                                k <= out.len(),
                                prev == out@.map_values(|t: &Table| t@),
                                !dup ==> forall|p: int| 0 <= p < k ==> prev[p].name != t@.name,
                                dup ==> exists|p: int| 0 <= p < prev.len() && #[trigger] prev[p].name == t@.name,
                            decreases out.len() - k,
                        {
                            if !dup && str_eq(out[k].name.as_str(), t.name.as_str()) {
                                assert(prev[k as int].name == t@.name);
                                dup = true;
                            }
                            k = k + 1;
                        }
                        if !dup {
                            out.push(t);
                            assert(out@.map_values(|t: &Table| t@) =~= prev.push(t@));
                        }
                    }
                },
                None => {},
            }
            i = i + 1;
        }
        assert(entries.take(i as int) =~= entries);
        out
    }
}

} // verus!

verus! {

/// A name is in a round of the search exactly when one of the first `i` tables has it and
/// takes values from the target or from one of `found`.
proof fn lemma_reach_round_members(entries: Seq<(Seq<char>, TableView)>, columns: Seq<ColumnView>, target: Seq<char>, found: Seq<Seq<char>>, i: nat, x: Seq<char>)
    requires
        i <= entries.len(),
    ensures
        reach_round(entries, columns, target, found, i).contains(x) <==> exists|j: int| 0 <= j < i
            && #[trigger] entries[j].1.name == x && takes_from(columns, x, target, found),
    decreases i,
{
    if i > 0 {
        lemma_reach_round_members(entries, columns, target, found, (i - 1) as nat, x);
        let r = reach_round(entries, columns, target, found, (i - 1) as nat);
        let n = entries[i - 1].1.name;
        if takes_from(columns, n, target, found) {
            assert(r.push(n).contains(x) <==> (r.contains(x) || n == x)) by {
                if r.push(n).contains(x) {
                    let k = choose|k: int| 0 <= k < r.push(n).len() && r.push(n)[k] == x;
                    if k < r.len() { assert(r[k] == x); }
                }
                if r.contains(x) {
                    let k = choose|k: int| 0 <= k < r.len() && r[k] == x;
                    assert(r.push(n)[k] == x);
                }
                if n == x { assert(r.push(n)[r.len() as int] == x); }
            }
        }
    }
}

/// The search only grows: what depends on the target within `k` steps does within `k + 1`.
proof fn lemma_reached_grows(entries: Seq<(Seq<char>, TableView)>, columns: Seq<ColumnView>, target: Seq<char>, k: nat, x: Seq<char>)
    requires
        reached_names(entries, columns, target, k).contains(x),
    ensures
        reached_names(entries, columns, target, k + 1).contains(x),
    decreases k,
{
    let prev = reached_names(entries, columns, target, (k - 1) as nat);
    let cur = reached_names(entries, columns, target, k);
    lemma_reach_round_members(entries, columns, target, prev, entries.len(), x);
    lemma_reach_round_members(entries, columns, target, cur, entries.len(), x);
    let j = choose|j: int| 0 <= j < entries.len() && #[trigger] entries[j].1.name == x
        && takes_from(columns, x, target, prev);
    assert(entries[j].1.name == x);
    if !depends_on_table(columns, x, target) {
        let m = choose|m: int| 0 <= m < prev.len() && #[trigger] depends_on_table(columns, x, prev[m]);
        if k > 1 {
            assert(prev.contains(prev[m]));
            lemma_reached_grows(entries, columns, target, (k - 1) as nat, prev[m]);
            let p = choose|p: int| 0 <= p < cur.len() && cur[p] == prev[m];
            assert(depends_on_table(columns, x, cur[p]));
        }
    }
    assert(takes_from(columns, x, target, cur));
}

/// The search reaches in `k` steps what it reached in fewer.
proof fn lemma_reached_monotone(entries: Seq<(Seq<char>, TableView)>, columns: Seq<ColumnView>, target: Seq<char>, a: nat, b: nat, x: Seq<char>)
    requires
        a <= b,
        reached_names(entries, columns, target, a).contains(x),
    ensures
        reached_names(entries, columns, target, b).contains(x),
    decreases b - a,
{
    if a < b {
        lemma_reached_grows(entries, columns, target, a, x);
        lemma_reached_monotone(entries, columns, target, a + 1, b, x);
    }
}

/// A table whose name is among `names` puts a table of that name among [tables_named].
proof fn lemma_tables_named_has(entries: Seq<(Seq<char>, TableView)>, names: Seq<Seq<char>>, j: int)
    requires
        0 <= j < entries.len(),
        names.contains(entries[j].1.name),
    ensures
        exists|p: int| 0 <= p < tables_named(entries, names).len()
            && #[trigger] tables_named(entries, names)[p].name == entries[j].1.name,
    decreases entries.len(),
{
    let prev = tables_named(entries.drop_last(), names);
    if j < entries.len() - 1 {
        assert(entries.drop_last()[j] == entries[j]);
        lemma_tables_named_has(entries.drop_last(), names, j);
        let p = choose|p: int| 0 <= p < prev.len() && #[trigger] prev[p].name == entries[j].1.name;
        let t = entries.last().1;
        if names.contains(t.name) && !(exists|q: int| 0 <= q < prev.len() && #[trigger] prev[q].name == t.name) {
            assert(tables_named(entries, names) == prev.push(t));
            assert(tables_named(entries, names)[p] == prev[p]);
        } else {
            assert(tables_named(entries, names) == prev);
        }
        assert(tables_named(entries, names)[p].name == entries[j].1.name);
    } else {
        let t = entries.last().1;
        assert(t.name == entries[j].1.name);
        if exists|q: int| 0 <= q < prev.len() && #[trigger] prev[q].name == t.name {
            let q = choose|q: int| 0 <= q < prev.len() && #[trigger] prev[q].name == t.name;
            assert(tables_named(entries, names) == prev);
            assert(tables_named(entries, names)[q].name == entries[j].1.name);
        } else {
            assert(tables_named(entries, names) == prev.push(t));
            assert(tables_named(entries, names)[prev.len() as int] == t);
        }
    }
}

/// Every table of the map that takes values from the target is among the target's
/// dependent tables.
pub proof fn lemma_direct_dependent_tables(entries: Seq<(Seq<char>, TableView)>, columns: Seq<ColumnView>, target: Seq<char>, j: int)
    requires
        0 <= j < entries.len(),
        depends_on_table(columns, entries[j].1.name, target),
    ensures
        exists|p: int| 0 <= p < dependent_tables_spec(entries, columns, target).len()
            && #[trigger] dependent_tables_spec(entries, columns, target)[p].name == entries[j].1.name,
{
    let x = entries[j].1.name;
    lemma_reach_round_members(entries, columns, target, Seq::empty(), entries.len(), x);
    assert(reached_names(entries, columns, target, 0) =~= Seq::<Seq<char>>::empty());
    assert(reached_names(entries, columns, target, 1) == reach_round(entries, columns, target, Seq::empty(), entries.len()));
    assert(takes_from(columns, x, target, Seq::empty()));
    lemma_reached_monotone(entries, columns, target, 1, entries.len(), x);
    let names = reached_names(entries, columns, target, entries.len());
    lemma_tables_named_has(entries, names, j);
    let p = choose|p: int| 0 <= p < tables_named(entries, names).len()
        && #[trigger] tables_named(entries, names)[p].name == entries[j].1.name;
    assert(dependent_tables_spec(entries, columns, target)[p].name == entries[j].1.name);
}

/// Dependence carries through: a table of the map that takes values from a table reached
/// within fewer steps than there are tables is among the target's dependent tables.
pub proof fn lemma_dependent_tables_chain(entries: Seq<(Seq<char>, TableView)>, columns: Seq<ColumnView>, target: Seq<char>, k: nat, m: Seq<char>, j: int)
    requires
        k < entries.len(),
        reached_names(entries, columns, target, k).contains(m),
        0 <= j < entries.len(),
        depends_on_table(columns, entries[j].1.name, m),
    ensures
        exists|p: int| 0 <= p < dependent_tables_spec(entries, columns, target).len()
            && #[trigger] dependent_tables_spec(entries, columns, target)[p].name == entries[j].1.name,
{
    let x = entries[j].1.name;
    let prev = reached_names(entries, columns, target, k);
    lemma_reach_round_members(entries, columns, target, prev, entries.len(), x);
    let q = choose|q: int| 0 <= q < prev.len() && prev[q] == m;
    assert(depends_on_table(columns, x, prev[q]));
    assert(takes_from(columns, x, target, prev));
    assert(reached_names(entries, columns, target, k + 1).contains(x));
    lemma_reached_monotone(entries, columns, target, k + 1, entries.len(), x);
    let names = reached_names(entries, columns, target, entries.len());
    lemma_tables_named_has(entries, names, j);
    let p = choose|p: int| 0 <= p < tables_named(entries, names).len()
        && #[trigger] tables_named(entries, names)[p].name == entries[j].1.name;
    assert(dependent_tables_spec(entries, columns, target)[p].name == entries[j].1.name);
}

} // verus!
