//! Tablesets: tables joined by the tableset table, and the selects over them.
use vstd::prelude::*;

use crate::json::{Json, JsonValue};
use crate::select::{
    empty_select, lemma_no_bad, placeholder_list, render_values, rendered_value, select_tables, bad_value, names,
    FieldView, Filter, FilterView, JoinView, Order, Select, SelectView,
};
use crate::sql::{DbKind, SqlParam};
use crate::text::{owned, views};

verus! {

/// A piece of the query that finds how the tables of a tableset are joined.
pub const TABLESET_SQL_0: &'static str = "WITH RECURSIVE ancestors(_order, left_table, left_column, right_table, right_column) AS (\n      SELECT _order, left_table, left_column, right_table, right_column\n      FROM tableset\n      WHERE right_table IN ";
/// A piece of the query that finds how the tables of a tableset are joined.
pub const TABLESET_SQL_1: &'static str = "\n      UNION\n      SELECT t._order, t.left_table, t.left_column, t.right_table, t.right_column\n      FROM ancestors AS a\n      JOIN tableset AS t ON a.left_table = t.right_table\n      WHERE t.tableset = '";
/// A piece of the query that finds how the tables of a tableset are joined.
pub const TABLESET_SQL_2: &'static str = "'\n    )\n    SELECT *\n    FROM ancestors\n    WHERE _order >= (SELECT MIN(_order) FROM ancestors WHERE left_table IN ";
/// A piece of the query that finds how the tables of a tableset are joined.
pub const TABLESET_SQL_3: &'static str = ")\n      AND _order <= (SELECT MAX(_order) FROM ancestors WHERE right_table IN ";
/// A piece of the query that finds how the tables of a tableset are joined.
pub const TABLESET_SQL_4: &'static str = ")\n    ORDER BY _order";

/// A row of the query over a tableset: a table joined to another by a column of each.
/// A missing table or column is empty.
#[derive(Debug)]
pub struct TablesetRow {
    pub left_table: String,
    pub left_column: String,
    pub right_table: String,
    pub right_column: String,
}

/// The model of a tableset row.
pub struct TablesetRowView {
    pub left_table: Seq<char>,
    pub left_column: Seq<char>,
    pub right_table: Seq<char>,
    pub right_column: Seq<char>,
}

impl View for TablesetRow {
    type V = TablesetRowView;

    open spec fn view(&self) -> TablesetRowView {
        TablesetRowView {
            left_table: self.left_table@,
            left_column: self.left_column@,
            right_table: self.right_table@,
            right_column: self.right_column@,
        }
    }
}

/// The query that finds, in the named tableset, the joins that connect the tables, and
/// its parameters: the tables' names (unquoted, as [render_values] gives them), three times.
pub open spec fn tableset_sql_spec(tables: Seq<Seq<char>>, tableset: Seq<char>, kind: DbKind) -> (Seq<char>, Seq<Json>) {
    let list = placeholder_list(kind, 0, tables.len());
    let names = tables.map_values(|t: Seq<char>| rendered_value(Json::Str(t)));
    (
        TABLESET_SQL_0@ + list + TABLESET_SQL_1@ + tableset + TABLESET_SQL_2@ + list + TABLESET_SQL_3@ + list
            + TABLESET_SQL_4@,
        names + names + names,
    )
}

/// The joins of the inner query of a tableset: one for each row that names both tables,
/// skipping a right table that is already joined.
pub open spec fn tableset_joins(rows: Seq<TablesetRowView>) -> Seq<JoinView>
    decreases rows.len(),
{
    if rows.len() == 0 {
        Seq::empty()
    } else {
        let prev = tableset_joins(rows.drop_last());
        let r = rows.last();
        if r.left_table.len() == 0 || r.right_table.len() == 0
            || exists|j: int| 0 <= j < prev.len() && #[trigger] join_right(prev[j]) == r.right_table {
            prev
        } else {
            prev.push(JoinView::LeftJoin(r.left_table, r.left_column, r.right_table, r.right_column))
        }
    }
}

/// The right table of a join.
pub open spec fn join_right(j: JoinView) -> Seq<char> {
    match j {
        JoinView::LeftJoin(_, _, rt, _) => rt,
    }
}

/// The right tables of the joins.
pub open spec fn join_rights(js: Seq<JoinView>) -> Seq<Seq<char>> {
    Seq::new(js.len(), |i: int| join_right(js[i]))
}

/// The select of a tableset, given the rows that its query found: the rows of the
/// select's table whose `_id` is among those of the joined tables' rows that the select's
/// filters keep; `None` for no rows.
pub open spec fn joined_spec(s: SelectView, rows: Seq<TablesetRowView>) -> Option<SelectView> {
    if rows.len() == 0 {
        None
    } else {
        let inner = SelectView {
            table_name: rows[0].left_table,
            select: seq![FieldView::Column(s.table_name, "_id"@, Seq::empty())],
            joins: s.joins + tableset_joins(rows),
            limit: 0,
            order_by: Seq::empty(),
            ..s
        };
        Some(SelectView {
            filters: seq![FilterView::Subquery(false, Seq::empty(), "_id"@, inner)],
            ..empty_select(s.table_name, s.limit)
        })
    }
}

impl Select {
    /// The query that finds how the tables of this select are joined in the named
    /// tableset, with its parameters (see [tableset_sql_spec]); `None` when the select
    /// reads a single table and needs no joins.
    pub fn tableset_sql(&self, tableset_name: &str, kind: &DbKind) -> (r: Option<(String, Vec<JsonValue>)>)
        ensures
            match r {
                Some((sql, params)) => exists|t: Seq<Seq<char>>| crate::text::strictly_sorted(t)
                    && t.to_set() == select_tables(self@) && t.len() != 1
                    && (sql@, crate::json::json_views(params@)) == #[trigger] tableset_sql_spec(t, tableset_name@, *kind),
                None => exists|t: Seq<Seq<char>>| #[trigger] crate::text::strictly_sorted(t)
                    && t.to_set() == select_tables(self@) && t.len() == 1,
            },
    {
        let tables = self.get_tables();
        assert(names(tables@) == views(tables@).to_set());
        if tables.len() == 1 {
            assert(crate::text::strictly_sorted(views(tables@)));
            return None;
        }
        let mut values: Vec<JsonValue> = Vec::new();
        let mut i: usize = 0;
        while i < tables.len()
            invariant
                i <= tables.len(),
                crate::json::json_views(values@) == crate::text::views(tables@).take(i as int).map_values(|t: Seq<char>| Json::Str(t)),
            decreases tables.len() - i,
        {
            let v = crate::json::json_str(tables[i].as_str());
            assert(crate::json::json_views(values@.push(v)) =~= crate::json::json_views(values@).push(v@));
            values.push(v);
            i = i + 1;
            assert(crate::json::json_views(values@) =~= crate::text::views(tables@).take(i as int).map_values(|t: Seq<char>| Json::Str(t)));
        }
        assert(crate::text::views(tables@).take(i as int) =~= crate::text::views(tables@));
        let mut gen = SqlParam::new(kind);
        proof {
            assert forall|j: int| 0 <= j < values@.len() implies !bad_value(crate::json::json_views(values@), j) by {
                assert(crate::json::json_views(values@)[j] == Json::Str(crate::text::views(tables@)[j]));
            }
            lemma_no_bad(crate::json::json_views(values@), 0);
        }
        let (list, params) = match render_values(&values, &mut gen) {
            Ok(p) => p,
            Err(_) => {
                assert(false);
                return None;
            },
        };
        let mut sql = owned(TABLESET_SQL_0);
        sql.append(list.as_str());
        sql.append(TABLESET_SQL_1);
        sql.append(tableset_name);
        sql.append(TABLESET_SQL_2);
        sql.append(list.as_str());
        sql.append(TABLESET_SQL_3);
        sql.append(list.as_str());
        sql.append(TABLESET_SQL_4);
        let ghost names = crate::text::views(tables@).map_values(|t: Seq<char>| rendered_value(Json::Str(t)));
        assert(crate::json::json_views(params@) =~= names) by {
            assert forall|j: int| 0 <= j < names.len() implies crate::json::json_views(params@)[j] == names[j] by {
                assert(crate::json::json_views(values@)[j] == Json::Str(crate::text::views(tables@)[j]));
            }
        }
        let mut all: Vec<JsonValue> = Vec::new();
        let mut round: usize = 0;
        while round < 3
            invariant
                round <= 3,
                crate::json::json_views(params@) == names,
                round == 0 ==> crate::json::json_views(all@) == Seq::<Json>::empty(),
                round == 1 ==> crate::json::json_views(all@) == names,
                round == 2 ==> crate::json::json_views(all@) == names + names,
                round == 3 ==> crate::json::json_views(all@) == names + names + names,
            decreases 3 - round,
        {
            let ghost before = crate::json::json_views(all@);
            let mut k: usize = 0;
            while k < params.len()
                invariant
                    k <= params.len(),
                    crate::json::json_views(all@) == before + crate::json::json_views(params@).take(k as int),
                decreases params.len() - k,
            {
                let v = params[k].clone();
                assert(crate::json::json_views(all@.push(v)) =~= crate::json::json_views(all@).push(v@));
                all.push(v);
                k = k + 1;
                assert(crate::json::json_views(all@) =~= before + crate::json::json_views(params@).take(k as int));
            }
            assert(crate::json::json_views(params@).take(k as int) =~= crate::json::json_views(params@));
            round = round + 1;
        }
        assert(sql@ =~= tableset_sql_spec(crate::text::views(tables@), tableset_name@, *kind).0);
        assert(crate::text::strictly_sorted(views(tables@)));
        Some((sql, all))
    }

    /// The select of a tableset (see [joined_spec]), given the rows that the tableset's
    /// query found; an empty tableset is a configuration error.
    pub fn joined_select(&self, rows: &Vec<TablesetRow>) -> (r: Result<Select, crate::error::RelatableError>)
        ensures
            match r {
                Ok(s) => joined_spec(self@, rows@.map_values(|x: TablesetRow| x@)) == Some(s@),
                Err(e) => rows@.len() == 0 && e is ConfigError,
            },
    {
        let ghost rv = rows@.map_values(|x: TablesetRow| x@);
        if rows.len() == 0 {
            return Err(crate::error::RelatableError::ConfigError(owned("empty tableset")));
        }
        let mut inner = self.clone();
        inner.select = Vec::new();
        inner.select_table_column(self.table_name.as_str(), "_id");
        inner.order_by = Vec::new();
        inner.limit = 0;
        inner.table_name = rows[0].left_table.clone();
        let ghost base = self@.joins;
        assert(rv.take(0) =~= Seq::<TablesetRowView>::empty());
        assert(inner@.joins =~= base + tableset_joins(rv.take(0)));
        assert(inner@.select =~= seq![FieldView::Column(self@.table_name, "_id"@, Seq::empty())]);
        assert(inner@.order_by =~= Seq::<(Seq<char>, Order)>::empty());
        assert(inner@.filters =~= self@.filters);
        let mut joined: Vec<String> = Vec::new();
        let mut i: usize = 0;
        while i < rows.len()
            invariant
                i <= rows.len(),
                rv == rows@.map_values(|x: TablesetRow| x@),
                inner@ == (SelectView {
                    table_name: rv[0].left_table,
                    select: seq![FieldView::Column(self@.table_name, "_id"@, Seq::empty())],
                    joins: base + tableset_joins(rv.take(i as int)),
                    limit: 0,
                    order_by: Seq::empty(),
                    ..self@
                }),
                crate::text::views(joined@) == join_rights(tableset_joins(rv.take(i as int))),
            decreases rows.len() - i,
        {
            assert(rv.take(i + 1).drop_last() =~= rv.take(i as int));
            let r = &rows[i];
            assert(rv.take(i + 1).last() == r@);
            let ghost prev = tableset_joins(rv.take(i as int));
            if !crate::text::is_empty_str(r.left_table.as_str()) && !crate::text::is_empty_str(r.right_table.as_str()) {
                let mut seen = false;
                let mut k: usize = 0;
                assert(crate::text::views(joined@).len() == joined@.len());
                assert(join_rights(prev).len() == prev.len());
                while k < joined.len()
                    invariant
                        k <= joined.len(),
                        joined@.len() == prev.len(),
                        crate::text::views(joined@) == join_rights(prev),
                        seen == exists|x: int| 0 <= x < k && #[trigger] join_right(prev[x]) == r@.right_table,
                    decreases joined.len() - k,
                {
                    assert(join_rights(prev)[k as int] == join_right(prev[k as int]));
                    if crate::text::str_eq(joined[k].as_str(), r.right_table.as_str()) {
                        seen = true;
                    }
                    k = k + 1;
                }
                assert(rv.take(i + 1).last() == r@);
                assert(seen == exists|j: int| 0 <= j < prev.len() && #[trigger] join_right(prev[j]) == r@.right_table);
                if !seen {
                    inner.left_join(r.left_table.as_str(), r.left_column.as_str(), r.right_table.as_str(), r.right_column.as_str());
                    let t = r.right_table.clone();
                    proof { crate::text::lemma_views_push(joined@, t); }
                    joined.push(t);
                    assert(inner@.joins =~= base + tableset_joins(rv.take(i + 1)));
                    assert(crate::text::views(joined@) =~= join_rights(tableset_joins(rv.take(i + 1))));
                }
            }
            i = i + 1;
        }
        assert(rv.take(i as int) =~= rv);
        let mut result = Select::from(self.table_name.as_str());
        result.limit = self.limit;
        result.filters.push(Filter::InSubquery { table: String::new(), column: owned("_id"), subquery: inner });
        assert(result@.filters =~= seq![FilterView::Subquery(false, Seq::empty(), "_id"@, inner@)]);
        Ok(result)
    }
}

} // verus!
