//! What the pages of the web interface show, decided from a select.
use vstd::prelude::*;

use crate::json::{Json, JsonValue};
use crate::select::{filter_column, filter_operator, filter_value, order_text, FilterView, Order, Select, SelectView};
use crate::text::str_eq;

verus! {

/// The operator and value of the last filter on the column among the first `n`, or an
/// empty operator and an empty string.
pub open spec fn menu_filter(filters: Seq<FilterView>, column: Seq<char>, n: nat) -> (Seq<char>, Json)
    decreases n,
{
    if n == 0 || n > filters.len() {
        (Seq::empty(), Json::Str(Seq::empty()))
    } else if filter_column(filters[n - 1]) == column {
        (filter_operator(filters[n - 1]), filter_value(filters[n - 1]))
    } else {
        menu_filter(filters, column, (n - 1) as nat)
    }
}

/// The order of the last ORDER BY entry on the column among the first `n`, or nothing.
pub open spec fn menu_order(order_by: Seq<(Seq<char>, Order)>, column: Seq<char>, n: nat) -> Seq<char>
    decreases n,
{
    if n == 0 || n > order_by.len() {
        Seq::empty()
    } else if order_by[n - 1].0 == column {
        order_text(order_by[n - 1].1)
    } else {
        menu_order(order_by, column, (n - 1) as nat)
    }
}

/// What the menu of a column shows: the operator and value of the select's last filter on
/// the column (an empty operator and string when there is none), and the direction of its
/// last ordering on the column (empty when there is none).
pub fn column_menu(select: &Select, column: &str) -> (r: (String, JsonValue, String))
    ensures
        (r.0@, r.1@) == menu_filter(select@.filters, column@, select@.filters.len()),
        r.2@ == menu_order(select@.order_by, column@, select@.order_by.len()),
{
    let ghost s = select@;
    let mut operator = String::new();
    let mut value = JsonValue::String(String::new());
    let mut i: usize = 0;
    assert(operator@ =~= Seq::<char>::empty());
    while i < select.filters.len()
        invariant
            i <= select.filters.len(),
            s == select@,
            s.filters.len() == select.filters@.len(),
            (operator@, value@) == menu_filter(s.filters, column@, i as nat),
        decreases select.filters.len() - i,
    {
        assert(s.filters[i as int] == select.filters@[i as int]@);
        let (_, c, o, v) = select.filters[i].parts();
        if str_eq(c.as_str(), column) {
            operator = o;
            value = v;
        }
        i = i + 1;
    }
    let mut order = String::new();
    let mut k: usize = 0;
    while k < select.order_by.len()
        invariant
            k <= select.order_by.len(),
            s == select@,
            s.order_by.len() == select.order_by@.len(),
            order@ == menu_order(s.order_by, column@, k as nat),
        decreases select.order_by.len() - k,
    {
        assert(s.order_by[k as int] == (select.order_by@[k as int].0@, select.order_by@[k as int].1));
        if str_eq(select.order_by[k].0.as_str(), column) {
            order = crate::select::order_to_text(select.order_by[k].1);
        }
        k = k + 1;
    }
    (operator, value, order)
}

} // verus!

verus! {

/// The statement that reads a row of a table's view for a menu, the row's identifier being
/// its parameter.
pub open spec fn menu_row_sql_spec(view: Seq<char>) -> Seq<char> {
    "SELECT * FROM \""@ + view + "\" WHERE _id = ?"@
}

/// The statement that reads a row of a table's view for a menu (see [menu_row_sql_spec]).
pub fn menu_row_sql(view: &str) -> (r: String)
    ensures
        r@ == menu_row_sql_spec(view@),
{
    let mut s = crate::text::owned("SELECT * FROM \"");
    s.append(view);
    s.append("\" WHERE _id = ?");
    s
}

/// The statement that offers at most 20 distinct non-empty values of a column that contain
/// the input, as the options of a cell.
pub open spec fn cell_options_sql_spec(table: Seq<char>, column: Seq<char>, input: Seq<char>) -> Seq<char> {
    "SELECT DISTINCT \""@ + column + "\" AS 'value' FROM \""@ + table + "\"\n           WHERE \""@ + column
        + "\" LIKE '%"@ + input + "%' AND \""@ + column + "\" != ''\n           LIMIT 20"@
}

/// The statement that offers the options of a cell (see [cell_options_sql_spec]); the
/// input is the query's `input` parameter, empty where there is none.
pub fn cell_options_sql(table: &str, column: &str, input: Option<&str>) -> (r: String)
    ensures
        r@ == cell_options_sql_spec(table@, column@, match input { Some(i) => i@, None => Seq::empty() }),
{
    let input = match input {
        Some(i) => i,
        None => {
            proof {
                reveal_strlit("");
            }
            ""
        },
    };
    let mut s = crate::text::owned("SELECT DISTINCT \"");
    s.append(column);
    s.append("\" AS 'value' FROM \"");
    s.append(table);
    s.append("\"\n           WHERE \"");
    s.append(column);
    s.append("\" LIKE '%");
    s.append(input);
    s.append("%' AND \"");
    s.append(column);
    s.append("\" != ''\n           LIMIT 20");
    s
}

/// The statement that reads the identifier of the row before a given row, that row's
/// identifier being its parameter.
pub open spec fn previous_row_sql_spec(table: Seq<char>) -> Seq<char> {
    "SELECT _id, MAX(_order) FROM \""@ + table + "\"\n        WHERE _order < (SELECT _order FROM \""@ + table
        + "\" WHERE _id = ?)"@
}

/// The statement that reads the identifier of the row before a given row (see
/// [previous_row_sql_spec]).
pub fn previous_row_sql(table: &str) -> (r: String)
    ensures
        r@ == previous_row_sql_spec(table@),
{
    let mut s = crate::text::owned("SELECT _id, MAX(_order) FROM \"");
    s.append(table);
    s.append("\"\n        WHERE _order < (SELECT _order FROM \"");
    s.append(table);
    s.append("\" WHERE _id = ?)");
    s
}

} // verus!
